use vstd::prelude::*;

use crate::circular_buffer::CircularBuffer;

verus! {

/// An owning iterator over the items of a [`CircularBuffer`], front to back.
pub struct IntoIter<T> {
    inner: CircularBuffer<T>,
}

impl<T> View for IntoIter<T> {
    type V = Seq<T>;

    /// The items not yet yielded, front to back.
    closed spec fn view(&self) -> Seq<T> {
        self.inner@
    }
}

impl<T> IntoIter<T> {
    pub closed spec fn wf(&self) -> bool {
        self.inner.wf()
    }

    pub fn new(inner: CircularBuffer<T>) -> (r: Self)
        requires
            inner.wf(),
        ensures
            r.wf(),
            r@ == inner@,
    {
        IntoIter { inner }
    }

    /// The number of items not yet yielded.
    pub fn len(&self) -> (r: usize)
        requires
            self.wf(),
        ensures
            r == self@.len(),
    {
        self.inner.len()
    }
}

impl<T: Default> IntoIter<T> {
    /// Yields the front item.
    pub fn next(&mut self) -> (r: Option<T>)
        requires
            old(self).wf(),
        ensures
            final(self).wf(),
            old(self)@.len() == 0 ==> r == None::<T> && final(self)@ == old(self)@,
            old(self)@.len() > 0 ==> r == Some(old(self)@[0]) && final(self)@ == old(
                self,
            )@.drop_first(),
    {
        self.inner.pop_front()
    }

    /// Yields the back item.
    pub fn next_back(&mut self) -> (r: Option<T>)
        requires
            old(self).wf(),
        ensures
            final(self).wf(),
            old(self)@.len() == 0 ==> r == None::<T> && final(self)@ == old(self)@,
            old(self)@.len() > 0 ==> r == Some(old(self)@.last()) && final(self)@ == old(
                self,
            )@.drop_last(),
    {
        self.inner.pop_back()
    }
}

/// Takes the first item off the front of `slice`.
fn slice_take_first<'a, T>(slice: &mut &'a [T]) -> (r: Option<&'a T>)
    ensures
        old(slice)@.len() == 0 ==> r == None::<&T> && final(slice)@ == old(slice)@,
        old(slice)@.len() > 0 ==> r == Some(&old(slice)@[0]) && final(slice)@ == old(
            slice,
        )@.drop_first(),
{
    let s: &'a [T] = *slice;
    if s.len() == 0 {
        return None;
    }
    let item = &s[0];
    *slice = &s[1..s.len()];
    assert(slice@ =~= old(slice)@.drop_first());
    Some(item)
}

/// Takes the last item off the back of `slice`.
fn slice_take_last<'a, T>(slice: &mut &'a [T]) -> (r: Option<&'a T>)
    ensures
        old(slice)@.len() == 0 ==> r == None::<&T> && final(slice)@ == old(slice)@,
        old(slice)@.len() > 0 ==> r == Some(&old(slice)@.last()) && final(slice)@ == old(
            slice,
        )@.drop_last(),
{
    let s: &'a [T] = *slice;
    if s.len() == 0 {
        return None;
    }
    let last = s.len() - 1;
    let item = &s[last];
    *slice = &s[0..last];
    assert(slice@ =~= old(slice)@.drop_last());
    Some(item)
}

/// A borrowing iterator over the items of a [`CircularBuffer`], front to back.
pub struct Iter<'a, T> {
    right: &'a [T],
    left: &'a [T],
}

impl<'a, T> View for Iter<'a, T> {
    type V = Seq<T>;

    /// The items not yet yielded, front to back.
    closed spec fn view(&self) -> Seq<T> {
        self.right@ + self.left@
    }
}

impl<'a, T> Iter<'a, T> {
    #[verifier::type_invariant]
    closed spec fn lengths_fit(self) -> bool {
        self.right@.len() + self.left@.len() <= usize::MAX
    }

    pub fn empty() -> (r: Self)
        ensures
            r@ == Seq::<T>::empty(),
    {
        let r: Iter<'a, T> = Iter { right: &[], left: &[] };
        assert(r@ =~= Seq::<T>::empty());
        r
    }

    pub fn new(buf: &'a CircularBuffer<T>) -> (r: Self)
        requires
            buf.wf(),
        ensures
            r@ == buf@,
    {
        let (right, left) = buf.as_slices();
        let n = buf.len();
        assert(right@.len() + left@.len() == n);
        Iter { right, left }
    }

    /// An iterator over the items at logical positions `[range.start, range.end)`.
    pub fn over_range(buf: &'a CircularBuffer<T>, range: std::ops::Range<usize>) -> (r: Self)
        requires
            buf.wf(),
            range.start <= range.end,
            range.end <= buf@.len(),
        ensures
            r@ == buf@.subrange(range.start as int, range.end as int),
    {
        if range.start >= range.end {
            let r = Self::empty();
            assert(r@ =~= buf@.subrange(range.start as int, range.end as int));
            r
        } else {
            let len = buf.len();
            let mut it = Self::new(buf);
            it.advance_front_by(range.start);
            it.advance_back_by(len - range.end);
            assert(it@ =~= buf@.subrange(range.start as int, range.end as int));
            it
        }
    }

    fn advance_front_by(&mut self, count: usize)
        requires
            count <= old(self)@.len(),
        ensures
            final(self)@ == old(self)@.skip(count as int),
    {
        proof {
            use_type_invariant(&*self);
        }
        if self.right.len() > count {
            let (_, rest) = self.right.split_at(count);
            self.right = rest;
        } else {
            let take_left = count - self.right.len();
            let (_, rest) = self.left.split_at(take_left);
            self.left = rest;
            self.right = &[];
        }
        assert(self@ =~= old(self)@.skip(count as int));
    }

    fn advance_back_by(&mut self, count: usize)
        requires
            count <= old(self)@.len(),
        ensures
            final(self)@ == old(self)@.take(old(self)@.len() - count),
    {
        proof {
            use_type_invariant(&*self);
        }
        if self.left.len() > count {
            let keep = self.left.len() - count;
            let (kept, _) = self.left.split_at(keep);
            self.left = kept;
        } else {
            let keep = self.right.len() - (count - self.left.len());
            let (kept, _) = self.right.split_at(keep);
            self.right = kept;
            self.left = &[];
        }
        assert(self@ =~= old(self)@.take(old(self)@.len() - count));
    }

    /// The number of items not yet yielded.
    pub fn len(&self) -> (r: usize)
        ensures
            r == self@.len(),
    {
        proof {
            use_type_invariant(self);
        }
        self.right.len() + self.left.len()
    }

    /// Yields the front item.
    pub fn next(&mut self) -> (r: Option<&'a T>)
        ensures
            old(self)@.len() == 0 ==> r == None::<&T> && final(self)@ == old(self)@,
            old(self)@.len() > 0 ==> r == Some(&old(self)@[0]) && final(self)@ == old(
                self,
            )@.drop_first(),
    {
        proof {
            use_type_invariant(&*self);
        }
        let ghost before = self@;
        let mut right = self.right;
        if let Some(item) = slice_take_first(&mut right) {
            self.right = right;
            assert(self@ =~= before.drop_first());
            return Some(item);
        }
        let mut left = self.left;
        let r = slice_take_first(&mut left);
        self.left = left;
        assert(r is Some ==> self@ =~= before.drop_first());
        r
    }

    /// Yields the back item.
    pub fn next_back(&mut self) -> (r: Option<&'a T>)
        ensures
            old(self)@.len() == 0 ==> r == None::<&T> && final(self)@ == old(self)@,
            old(self)@.len() > 0 ==> r == Some(&old(self)@.last()) && final(self)@ == old(
                self,
            )@.drop_last(),
    {
        proof {
            use_type_invariant(&*self);
        }
        let ghost before = self@;
        let mut left = self.left;
        if let Some(item) = slice_take_last(&mut left) {
            self.left = left;
            assert(self@ =~= before.drop_last());
            return Some(item);
        }
        let mut right = self.right;
        let r = slice_take_last(&mut right);
        self.right = right;
        assert(r is Some ==> self@ =~= before.drop_last());
        r
    }
}

/// A mutable borrowing iterator over the items of a [`CircularBuffer`], front to back.
pub struct IterMut<'a, T> {
    right: &'a mut [T],
    left: &'a mut [T],
}

impl<'a, T> View for IterMut<'a, T> {
    type V = Seq<T>;

    /// The items not yet yielded, front to back.
    closed spec fn view(&self) -> Seq<T> {
        self.right@ + self.left@
    }
}

impl<'a, T> IterMut<'a, T> {
    #[verifier::type_invariant]
    closed spec fn lengths_fit(self) -> bool {
        self.right@.len() + self.left@.len() <= usize::MAX
    }

    pub fn empty() -> (r: Self)
        ensures
            r@ == Seq::<T>::empty(),
    {
        let r: IterMut<'a, T> = IterMut { right: &mut [], left: &mut [] };
        assert(r@ =~= Seq::<T>::empty());
        r
    }

    pub fn new(buf: &'a mut CircularBuffer<T>) -> (r: Self)
        requires
            old(buf).wf(),
        ensures
            r@ == old(buf)@,
    {
        let n = buf.len();
        let (right, left) = buf.as_mut_slices();
        assert(right@.len() + left@.len() == n);
        IterMut { right, left }
    }

    /// The number of items not yet yielded.
    pub fn len(&self) -> (r: usize)
        ensures
            r == self@.len(),
    {
        proof {
            use_type_invariant(self);
        }
        self.right.len() + self.left.len()
    }

    /// Yields the front item.
    pub fn next(&mut self) -> (r: Option<&'a mut T>)
        ensures
            old(self)@.len() == 0 ==> r == None::<&mut T> && final(self)@ == old(self)@,
            old(self)@.len() > 0 ==> r is Some && *r->0 == old(self)@[0] && final(self)@ == old(
                self,
            )@.drop_first(),
    {
        proof {
            use_type_invariant(&*self);
        }
        let ghost before = self@;
        let mut right: &'a mut [T] = &mut [];
        std::mem::swap(&mut self.right, &mut right);
        if right.len() > 0 {
            let (head, rest) = right.split_at_mut(1);
            self.right = rest;
            assert(self@ =~= before.drop_first());
            return head.first_mut();
        }
        let mut left: &'a mut [T] = &mut [];
        std::mem::swap(&mut self.left, &mut left);
        if left.len() > 0 {
            let (head, rest) = left.split_at_mut(1);
            self.left = rest;
            assert(self@ =~= before.drop_first());
            return head.first_mut();
        }
        assert(self@ =~= before);
        None
    }

    /// Yields the back item.
    pub fn next_back(&mut self) -> (r: Option<&'a mut T>)
        ensures
            old(self)@.len() == 0 ==> r == None::<&mut T> && final(self)@ == old(self)@,
            old(self)@.len() > 0 ==> r is Some && *r->0 == old(self)@.last() && final(self)@
                == old(self)@.drop_last(),
    {
        proof {
            use_type_invariant(&*self);
        }
        let ghost before = self@;
        let mut left: &'a mut [T] = &mut [];
        std::mem::swap(&mut self.left, &mut left);
        if left.len() > 0 {
            let last = left.len() - 1;
            let (rest, tail) = left.split_at_mut(last);
            self.left = rest;
            assert(self@ =~= before.drop_last());
            return tail.first_mut();
        }
        let mut right: &'a mut [T] = &mut [];
        std::mem::swap(&mut self.right, &mut right);
        if right.len() > 0 {
            let last = right.len() - 1;
            let (rest, tail) = right.split_at_mut(last);
            self.right = rest;
            assert(self@ =~= before.drop_last());
            return tail.first_mut();
        }
        assert(self@ =~= before);
        None
    }
}

} // verus!
