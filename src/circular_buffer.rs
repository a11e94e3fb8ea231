use vstd::prelude::*;

use crate::iter::{IntoIter, Iter, IterMut};

verus! {

/// `(x + y) mod m`, computed without overflowing `usize` for operands up to the modulus.
pub fn add_mod(x: usize, y: usize, m: usize) -> (r: usize)
    requires
        m > 0,
        x <= m,
        y <= m,
    ensures
        r == (x + y) % (m as int),
{
    if x >= m - y {
        let s = x - (m - y);
        let r = if s == m { 0 } else { s };
        assert((x + y) % (m as int) == r) by {
            vstd::arithmetic::div_mod::lemma_mod_add_multiples_vanish(s as int, m as int);
            vstd::arithmetic::div_mod::lemma_mod_add_multiples_vanish(0, m as int);
            vstd::arithmetic::div_mod::lemma_small_mod(r as nat, m as nat);
        };
        r
    } else {
        let r = x + y;
        assert((x + y) % (m as int) == r) by {
            vstd::arithmetic::div_mod::lemma_small_mod(r as nat, m as nat);
        };
        r
    }
}

/// `(x - y) mod m` (always in `[0, m)`), computed without overflowing `usize`.
pub fn sub_mod(x: usize, y: usize, m: usize) -> (r: usize)
    requires
        m > 0,
        x <= m,
        y <= m,
    ensures
        r == (x - y) % (m as int),
{
    let r = add_mod(x, m - y, m);
    assert((x - y) % (m as int) == (x + (m - y)) % (m as int)) by {
        vstd::arithmetic::div_mod::lemma_mod_add_multiples_vanish(x - y, m as int);
    };
    r
}

/// Relies on `<[T]>::rotate_left`: the first `mid` elements move to the end, the rest to the front.
#[verifier::external_body]
fn rotate_slice_left<T>(s: &mut [T], mid: usize)
    requires
        mid <= old(s)@.len(),
    ensures
        final(s)@ == old(s)@.skip(mid as int) + old(s)@.take(mid as int),
{
    s.rotate_left(mid)
}

/// The contents after pushing `x` onto a buffer of capacity `cap` holding `v`:
/// on a full buffer the front item is dropped first; capacity 0 keeps nothing.
pub open spec fn pushed<T>(v: Seq<T>, cap: nat, x: T) -> Seq<T> {
    if cap == 0 {
        v
    } else if v.len() >= cap {
        v.drop_first().push(x)
    } else {
        v.push(x)
    }
}

/// The contents after pushing each of `xs`, in order.
pub open spec fn pushed_all<T>(v: Seq<T>, cap: nat, xs: Seq<T>) -> Seq<T>
    decreases xs.len(),
{
    if xs.len() == 0 {
        v
    } else {
        pushed(pushed_all(v, cap, xs.drop_last()), cap, xs.last())
    }
}

/// Pushing keeps the newest `cap` items of everything seen so far.
proof fn lemma_pushed_all_keeps_newest<T>(v: Seq<T>, cap: nat, xs: Seq<T>)
    requires
        cap > 0,
        v.len() <= cap,
    ensures
        pushed_all(v, cap, xs) == (v + xs).skip(
            if v.len() + xs.len() > cap {
                v.len() + xs.len() - cap
            } else {
                0
            },
        ),
    decreases xs.len(),
{
    if xs.len() == 0 {
        assert((v + xs).skip(0) =~= v);
    } else {
        let init = xs.drop_last();
        lemma_pushed_all_keeps_newest(v, cap, init);
        let before = pushed_all(v, cap, init);
        let all = v + xs;
        assert((v + init) =~= all.drop_last());
        if v.len() + init.len() >= cap {
            assert(pushed_all(v, cap, xs) =~= all.skip(v.len() + xs.len() - cap));
        } else {
            assert(pushed_all(v, cap, xs) =~= all.skip(0));
        }
    }
}

/// Once at least `cap` items have been pushed onto a buffer of capacity `cap`, it
/// holds exactly the last `cap` of them, in the order they were pushed.
pub proof fn lemma_overwrite_keeps_last<T>(v: Seq<T>, cap: nat, xs: Seq<T>)
    requires
        v.len() <= cap,
        xs.len() >= cap,
    ensures
        pushed_all(v, cap, xs) == xs.skip(xs.len() - cap),
        pushed_all(v, cap, xs).len() == cap,
{
    if cap == 0 {
        lemma_pushed_all_zero_capacity(v, xs);
        assert(xs.skip(xs.len() as int) =~= Seq::<T>::empty());
        assert(v =~= Seq::<T>::empty());
    } else {
        lemma_pushed_all_keeps_newest(v, cap, xs);
        assert((v + xs).skip(v.len() + xs.len() - cap) =~= xs.skip(xs.len() - cap));
    }
}

proof fn lemma_pushed_all_zero_capacity<T>(v: Seq<T>, xs: Seq<T>)
    ensures
        pushed_all(v, 0, xs) == v,
    decreases xs.len(),
{
    if xs.len() > 0 {
        lemma_pushed_all_zero_capacity(v, xs.drop_last());
    }
}

/// Relies on indexing a `Vec` mutably by `..n` (`IndexMut<RangeTo<usize>>`): the slice
/// borrows the first `n` elements; its length cannot change, and the rest of the vector
/// is left as it was.
#[verifier::external_body]
fn storage_prefix_mut<T>(v: &mut Vec<T>, n: usize) -> (s: &mut [T])
    requires
        n <= old(v)@.len(),
    ensures
        s@ == old(v)@.take(n as int),
        final(s)@.len() == n,
        final(v)@ == final(s)@ + old(v)@.skip(n as int),
{
    &mut v[..n]
}

/// A fixed-capacity circular buffer: pushing onto a full buffer overwrites the oldest item.
///
/// The storage is allocated once, filled with default values; only the slots of the
/// logical window `[start, start + size)` (taken modulo the capacity) hold items.
#[derive(Clone)]
pub struct CircularBuffer<T> {
    size: usize,
    start: usize,
    items: Vec<T>,
}

impl<T> View for CircularBuffer<T> {
    type V = Seq<T>;

    /// The items from front (oldest) to back (newest).
    closed spec fn view(&self) -> Seq<T> {
        Seq::new(self.size as nat, |i: int| self.items@[self.slot(i)])
    }
}

impl<T> CircularBuffer<T> {
    /// The physical slot of logical position `i`.
    closed spec fn slot(&self, i: int) -> int {
        if self.start + i < self.items@.len() {
            self.start + i
        } else {
            self.start + i - self.items@.len()
        }
    }

    /// The number of slots, fixed at construction.
    pub closed spec fn spec_capacity(&self) -> nat {
        self.items@.len()
    }

    pub closed spec fn wf(&self) -> bool {
        &&& self.size <= self.items@.len()
        &&& self.items@.len() == 0 ==> self.start == 0
        &&& self.items@.len() > 0 ==> self.start < self.items@.len()
    }

    /// The items occupy the storage without wrapping around its end.
    pub closed spec fn is_contiguous(&self) -> bool {
        self.start + self.size <= self.items@.len()
    }

    /// A well-formed buffer never holds more items than its capacity.
    pub proof fn lemma_len_at_most_capacity(&self)
        requires
            self.wf(),
        ensures
            self@.len() <= self.spec_capacity(),
    {
    }

    pub fn len(&self) -> (r: usize)
        requires
            self.wf(),
        ensures
            r == self@.len(),
            r <= self.spec_capacity(),
    {
        self.size
    }

    pub fn capacity(&self) -> (r: usize)
        ensures
            r == self.spec_capacity(),
    {
        self.items.len()
    }

    pub fn is_empty(&self) -> (r: bool)
        requires
            self.wf(),
        ensures
            r == (self@.len() == 0),
    {
        self.size == 0
    }

    pub fn is_full(&self) -> (r: bool)
        requires
            self.wf(),
        ensures
            r == (self@.len() == self.spec_capacity()),
    {
        self.size == self.capacity()
    }
}

impl<T> vstd::std_specs::convert::FromSpecImpl<Vec<T>> for CircularBuffer<T> {
    open spec fn obeys_from_spec() -> bool {
        true
    }

    closed spec fn from_spec(items: Vec<T>) -> Self {
        CircularBuffer { size: items@.len() as usize, start: 0, items }
    }
}

impl<T> From<Vec<T>> for CircularBuffer<T> {
    /// A full buffer holding `items` in order, with capacity `items.len()`.
    fn from(items: Vec<T>) -> (r: Self)
        ensures
            r.wf(),
            r@ == items@,
            r.spec_capacity() == items@.len(),
    {
        let size = items.len();
        let r = CircularBuffer { size, start: 0, items };
        assert(r@ =~= r.items@);
        r
    }
}

impl<T> CircularBuffer<T> {
    /// The physical index of the back item.
    fn back_index(&self) -> (r: usize)
        requires
            self.wf(),
            self.size > 0,
        ensures
            r == self.slot(self.size - 1),
            r < self.items@.len(),
    {
        let r = add_mod(self.start, self.size - 1, self.items.len());
        proof {
            let m = self.items@.len() as int;
            let x = self.start + self.size - 1;
            if x < m {
                vstd::arithmetic::div_mod::lemma_small_mod(x as nat, m as nat);
            } else {
                vstd::arithmetic::div_mod::lemma_mod_add_multiples_vanish(x - m, m);
                vstd::arithmetic::div_mod::lemma_small_mod((x - m) as nat, m as nat);
            }
        }
        r
    }

    fn inc_start(&mut self)
        requires
            old(self).wf(),
            old(self).items@.len() > 0,
        ensures
            final(self).start == old(self).slot(1),
            final(self).size == old(self).size,
            final(self).items == old(self).items,
    {
        self.start = add_mod(self.start, 1, self.items.len());
        proof {
            let m = self.items@.len() as int;
            let s = old(self).start as int;
            if s + 1 < m {
                vstd::arithmetic::div_mod::lemma_small_mod((s + 1) as nat, m as nat);
            } else {
                vstd::arithmetic::div_mod::lemma_mod_self_0(m);
            }
        }
    }

    fn inc_size(&mut self)
        requires
            old(self).size < old(self).items@.len(),
        ensures
            final(self).size == old(self).size + 1,
            final(self).start == old(self).start,
            final(self).items == old(self).items,
    {
        let cap = self.items.len();
        assert(self.size + 1 <= cap);
        self.size = self.size + 1;
    }

    fn dec_size(&mut self)
        requires
            old(self).size > 0,
        ensures
            final(self).size == old(self).size - 1,
            final(self).start == old(self).start,
            final(self).items == old(self).items,
    {
        self.size = self.size - 1;
    }

    /// Appends `item` at the back. On a full buffer the front (oldest) item is
    /// overwritten and handed back; a buffer of capacity 0 hands back `item` itself.
    pub fn push_back(&mut self, item: T) -> (r: Option<T>)
        requires
            old(self).wf(),
        ensures
            final(self).wf(),
            final(self).spec_capacity() == old(self).spec_capacity(),
            final(self)@ == pushed(old(self)@, old(self).spec_capacity(), item),
            old(self)@.len() <= old(self).spec_capacity(),
            final(self)@.len() <= final(self).spec_capacity(),
            old(self).spec_capacity() == 0 ==> r == Some(item) && final(self)@ == old(self)@,
            old(self).spec_capacity() > 0 && old(self)@.len() == old(self).spec_capacity() ==> r
                == Some(old(self)@[0]) && final(self)@ == old(self)@.drop_first().push(item),
            old(self)@.len() < old(self).spec_capacity() ==> r == None::<T> && final(self)@ == old(
                self,
            )@.push(item),
    {
        if self.items.len() == 0 {
            return Some(item);
        }
        if self.size >= self.items.len() {
            let ghost pushed = item;
            let mut item = item;
            let front = self.start;
            self.items.set_and_swap(front, &mut item);
            self.inc_start();
            assert(self@ =~= old(self)@.drop_first().push(pushed));
            Some(item)
        } else {
            self.inc_size();
            let back = self.back_index();
            self.items.set(back, item);
            assert(self@ =~= old(self)@.push(item));
            None
        }
    }
}

impl<T> CircularBuffer<T> {
    /// A borrowing iterator over the items, front to back.
    pub fn iter(&self) -> (r: Iter<'_, T>)
        requires
            self.wf(),
        ensures
            r@ == self@,
    {
        Iter::new(self)
    }

    /// A mutable borrowing iterator over the items, front to back.
    pub fn iter_mut(&mut self) -> (r: IterMut<'_, T>)
        requires
            old(self).wf(),
        ensures
            r@ == old(self)@,
    {
        IterMut::new(self)
    }

    /// An owning iterator over the items, front to back.
    pub fn into_iter(self) -> (r: IntoIter<T>)
        requires
            self.wf(),
        ensures
            r.wf(),
            r@ == self@,
    {
        IntoIter::new(self)
    }

    /// The items as two slices, front part then back part; the second is empty
    /// unless the items wrap around the end of the storage.
    pub fn as_slices(&self) -> (r: (&[T], &[T]))
        requires
            self.wf(),
        ensures
            r.0@ + r.1@ == self@,
            r.0@.len() == 0 ==> r.1@.len() == 0,
            self.is_contiguous() ==> r.0@ == self@ && r.1@.len() == 0,
    {
        let all = self.items.as_slice();
        let cap = self.items.len();
        if cap == 0 || self.size == 0 {
            let empty = &all[0..0];
            assert(empty@ + empty@ =~= self@);
            return (empty, empty);
        }
        let start = self.start;
        if self.size <= cap - start {
            let front = &all[start..start + self.size];
            let back = &all[0..0];
            assert(front@ + back@ =~= self@);
            (front, back)
        } else {
            let end = self.size - (cap - start);
            let front = &all[start..cap];
            let back = &all[0..end];
            assert(front@ + back@ =~= self@);
            (front, back)
        }
    }

    /// The items as two mutable slices, front part then back part.
    pub fn as_mut_slices(&mut self) -> (r: (&mut [T], &mut [T]))
        requires
            old(self).wf(),
        ensures
            r.0@ + r.1@ == old(self)@,
    {
        let cap = self.items.len();
        let size = self.size;
        let start = self.start;
        let all = self.items.as_mut_slice();
        if cap == 0 || size == 0 {
            let front: &mut [T] = &mut [];
            let back: &mut [T] = &mut [];
            assert(front@ + back@ =~= old(self)@);
            return (front, back);
        }
        if size <= cap - start {
            let (_, tail) = all.split_at_mut(start);
            let (front, _) = tail.split_at_mut(size);
            assert(front@ =~= old(self)@);
            (front, &mut [])
        } else {
            let end = size - (cap - start);
            let (head, front) = all.split_at_mut(start);
            let (back, _) = head.split_at_mut(end);
            assert(front@ + back@ =~= old(self)@);
            (front, back)
        }
    }

    /// Rotates the storage so that the items occupy its first `len()` slots, in order,
    /// and returns them as one mutable slice; the logical start becomes 0.
    pub fn make_contiguous(&mut self) -> (r: &mut [T])
        requires
            old(self).wf(),
        ensures
            r@ == old(self)@,
            final(self).wf(),
            final(self).is_contiguous(),
            final(self).spec_capacity() == old(self).spec_capacity(),
            final(self)@ == final(r)@,
    {
        let start = self.start;
        rotate_slice_left(self.items.as_mut_slice(), start);
        self.start = 0;
        let size = self.size;
        let ghost rotated = self.items@;
        assert(rotated.take(size as int) =~= old(self)@);
        storage_prefix_mut(&mut self.items, size)
    }
}

impl<T: Copy> CircularBuffer<T> {
    /// Pushes each item of `items` in order, overwriting the oldest items once full.
    pub fn extend_from_slice(&mut self, items: &[T])
        requires
            old(self).wf(),
        ensures
            final(self).wf(),
            final(self).spec_capacity() == old(self).spec_capacity(),
            final(self)@ == pushed_all(old(self)@, old(self).spec_capacity(), items@),
    {
        let mut i: usize = 0;
        while i < items.len()
            invariant
                self.wf(),
                self.spec_capacity() == old(self).spec_capacity(),
                i <= items@.len(),
                self@ == pushed_all(old(self)@, old(self).spec_capacity(), items@.take(i as int)),
            decreases items@.len() - i,
        {
            let x = items[i];
            self.push_back(x);
            assert(items@.take(i + 1).drop_last() =~= items@.take(i as int));
            i = i + 1;
        }
        assert(items@.take(i as int) =~= items@);
    }
}

impl<T: Default> CircularBuffer<T> {
    /// An empty buffer with room for `capacity` items.
    pub fn new(capacity: usize) -> (r: Self)
        ensures
            r.wf(),
            r@ == Seq::<T>::empty(),
            r.spec_capacity() == capacity,
    {
        let mut items: Vec<T> = Vec::with_capacity(capacity);
        let mut i: usize = 0;
        while i < capacity
            invariant
                i <= capacity,
                items@.len() == i,
            decreases capacity - i,
        {
            items.push(T::default());
            i = i + 1;
        }
        let r = CircularBuffer { size: 0, start: 0, items };
        assert(r@ =~= Seq::<T>::empty());
        r
    }

    /// Removes and returns the back (newest) item.
    pub fn pop_back(&mut self) -> (r: Option<T>)
        requires
            old(self).wf(),
        ensures
            final(self).wf(),
            final(self).spec_capacity() == old(self).spec_capacity(),
            old(self)@.len() == 0 ==> r == None::<T> && final(self)@ == old(self)@,
            old(self)@.len() > 0 ==> r == Some(old(self)@.last()) && final(self)@ == old(
                self,
            )@.drop_last(),
    {
        if self.items.len() == 0 || self.size == 0 {
            return None;
        }
        let back = self.back_index();
        let mut out = T::default();
        self.items.set_and_swap(back, &mut out);
        self.dec_size();
        assert(self@ =~= old(self)@.drop_last());
        Some(out)
    }

    /// Removes and returns the front (oldest) item.
    pub fn pop_front(&mut self) -> (r: Option<T>)
        requires
            old(self).wf(),
        ensures
            final(self).wf(),
            final(self).spec_capacity() == old(self).spec_capacity(),
            old(self)@.len() == 0 ==> r == None::<T> && final(self)@ == old(self)@,
            old(self)@.len() > 0 ==> r == Some(old(self)@[0]) && final(self)@ == old(
                self,
            )@.drop_first(),
    {
        if self.items.len() == 0 || self.size == 0 {
            return None;
        }
        let front = self.start;
        let mut out = T::default();
        self.items.set_and_swap(front, &mut out);
        self.dec_size();
        self.inc_start();
        assert(self@ =~= old(self)@.drop_first());
        Some(out)
    }

    /// Removes the items at logical positions `[range.start, range.end)` and returns
    /// them in order; the items before and after the range stay, in order.
    pub fn drain(&mut self, range: std::ops::Range<usize>) -> (r: Vec<T>)
        requires
            old(self).wf(),
            range.start <= range.end,
            range.end <= old(self)@.len(),
        ensures
            final(self).wf(),
            final(self).spec_capacity() == old(self).spec_capacity(),
            r@ == old(self)@.subrange(range.start as int, range.end as int),
            final(self)@ == old(self)@.subrange(0, range.start as int) + old(self)@.subrange(
                range.end as int,
                old(self)@.len() as int,
            ),
    {
        let ghost orig = self@;
        let n = self.size;
        let first = range.start;
        let end = range.end;
        let mut removed: Vec<T> = Vec::new();
        let mut i: usize = 0;
        while i < first
            invariant
                self.wf(),
                self.spec_capacity() == old(self).spec_capacity(),
                i <= first <= end <= n == orig.len(),
                self@ == orig.skip(i as int) + orig.take(i as int),
            decreases first - i,
        {
            let x = self.pop_front().unwrap();
            self.push_back(x);
            i = i + 1;
            assert(self@ =~= orig.skip(i as int) + orig.take(i as int));
        }
        while i < end
            invariant
                self.wf(),
                self.spec_capacity() == old(self).spec_capacity(),
                first <= i <= end <= n == orig.len(),
                self@ == orig.skip(i as int) + orig.take(first as int),
                removed@ == orig.subrange(first as int, i as int),
            decreases end - i,
        {
            let x = self.pop_front().unwrap();
            removed.push(x);
            i = i + 1;
            assert(self@ =~= orig.skip(i as int) + orig.take(first as int));
            assert(removed@ =~= orig.subrange(first as int, i as int));
        }
        while i < n
            invariant
                self.wf(),
                self.spec_capacity() == old(self).spec_capacity(),
                first <= end <= i <= n == orig.len(),
                self@ == orig.skip(i as int) + orig.take(first as int) + orig.subrange(
                    end as int,
                    i as int,
                ),
                removed@ == orig.subrange(first as int, end as int),
            decreases n - i,
        {
            let x = self.pop_front().unwrap();
            self.push_back(x);
            i = i + 1;
            assert(self@ =~= orig.skip(i as int) + orig.take(first as int) + orig.subrange(
                end as int,
                i as int,
            ));
        }
        assert(self@ =~= orig.subrange(0, first as int) + orig.subrange(end as int, n as int));
        removed
    }
}

} // verus!
