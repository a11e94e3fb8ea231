use tuner::circular_buffer::{add_mod, sub_mod, CircularBuffer};

fn contents(buf: &CircularBuffer<u32>) -> Vec<u32> {
    let (a, b) = buf.as_slices();
    a.iter().chain(b.iter()).cloned().collect()
}

#[test]
fn modular_arithmetic() {
    assert_eq!(add_mod(3, 4, 5), 2);
    assert_eq!(add_mod(5, 5, 5), 0);
    assert_eq!(add_mod(0, 0, 1), 0);
    assert_eq!(add_mod(usize::MAX, usize::MAX, usize::MAX), 0);
    assert_eq!(add_mod(usize::MAX - 1, 3, usize::MAX), 2);
    assert_eq!(sub_mod(1, 3, 5), 3);
    assert_eq!(sub_mod(4, 1, 5), 3);
    assert_eq!(sub_mod(0, usize::MAX, usize::MAX), 0);
    assert_eq!(sub_mod(0, 1, usize::MAX), usize::MAX - 1);
}

#[test]
fn push_until_full_then_overwrite() {
    let mut buf: CircularBuffer<u32> = CircularBuffer::new(4);
    assert!(buf.is_empty());
    assert_eq!(buf.capacity(), 4);
    for i in 0..4 {
        assert_eq!(buf.push_back(i), None);
    }
    assert!(buf.is_full());
    assert_eq!(buf.push_back(4), Some(0));
    assert_eq!(buf.push_back(5), Some(1));
    assert_eq!(buf.len(), 4);
    assert_eq!(contents(&buf), vec![2, 3, 4, 5]);
}

#[test]
fn overwrite_keeps_last_capacity_items() {
    for cap in 1..6usize {
        for k in 1..8usize {
            let mut buf: CircularBuffer<u32> = CircularBuffer::new(cap);
            let items: Vec<u32> = (0..(cap + k) as u32).collect();
            buf.extend_from_slice(&items);
            assert_eq!(buf.len(), cap);
            assert_eq!(contents(&buf), items[k..].to_vec());
        }
    }
}

#[test]
fn zero_capacity_hands_item_back() {
    let mut buf: CircularBuffer<u32> = CircularBuffer::new(0);
    assert_eq!(buf.push_back(7), Some(7));
    assert_eq!(buf.len(), 0);
    assert_eq!(buf.pop_front(), None);
    assert_eq!(buf.pop_back(), None);
    assert!(buf.make_contiguous().is_empty());
}

#[test]
fn pops_from_both_ends() {
    let mut buf: CircularBuffer<u32> = CircularBuffer::new(3);
    buf.extend_from_slice(&[1, 2, 3, 4]);
    assert_eq!(buf.pop_front(), Some(2));
    assert_eq!(buf.pop_back(), Some(4));
    assert_eq!(buf.pop_back(), Some(3));
    assert_eq!(buf.pop_front(), None);
    assert!(buf.is_empty());
}

#[test]
fn make_contiguous_rotates_wrapped_items() {
    let mut buf: CircularBuffer<u32> = CircularBuffer::new(5);
    buf.extend_from_slice(&[1, 2, 3, 4, 5, 6, 7]);
    let (front, back) = buf.as_slices();
    assert_eq!(front, &[3, 4, 5]);
    assert_eq!(back, &[6, 7]);
    assert_eq!(buf.make_contiguous(), &[3, 4, 5, 6, 7]);
    let (front, back) = buf.as_slices();
    assert_eq!(front, &[3, 4, 5, 6, 7]);
    assert!(back.is_empty());
    assert_eq!(buf.push_back(8), Some(3));
    assert_eq!(contents(&buf), vec![4, 5, 6, 7, 8]);
}

#[test]
fn drain_removes_a_range() {
    let mut buf: CircularBuffer<u32> = CircularBuffer::new(6);
    buf.extend_from_slice(&[0, 1, 2, 3, 4, 5, 6, 7]);
    let drained = buf.drain(1..4);
    assert_eq!(drained, vec![3, 4, 5]);
    assert_eq!(contents(&buf), vec![2, 6, 7]);
    let rest = buf.drain(0..3);
    assert_eq!(rest, vec![2, 6, 7]);
    assert!(buf.is_empty());
    assert!(buf.drain(0..0).is_empty());
}

#[test]
fn iterators_walk_front_to_back() {
    let mut buf: CircularBuffer<u32> = CircularBuffer::new(4);
    buf.extend_from_slice(&[1, 2, 3, 4, 5, 6]);
    let mut it = buf.iter();
    assert_eq!(it.len(), 4);
    assert_eq!(it.next(), Some(&3));
    assert_eq!(it.next_back(), Some(&6));
    assert_eq!(it.next(), Some(&4));
    assert_eq!(it.next(), Some(&5));
    assert_eq!(it.next(), None);
    assert_eq!(it.next_back(), None);

    let mut it = tuner::iter::Iter::over_range(&buf, 1..3);
    assert_eq!(it.len(), 2);
    assert_eq!(it.next(), Some(&4));
    assert_eq!(it.next(), Some(&5));
    assert_eq!(it.next(), None);

    {
        let mut it = buf.iter_mut();
        assert_eq!(it.len(), 4);
        *it.next().unwrap() += 10;
        *it.next_back().unwrap() += 20;
    }
    assert_eq!(contents(&buf), vec![13, 4, 5, 26]);

    let mut owned = buf.into_iter();
    assert_eq!(owned.len(), 4);
    assert_eq!(owned.next(), Some(13));
    assert_eq!(owned.next_back(), Some(26));
    assert_eq!(owned.next(), Some(4));
    assert_eq!(owned.next(), Some(5));
    assert_eq!(owned.next(), None);
}

#[test]
fn from_vec_is_full() {
    let mut buf: CircularBuffer<u32> = CircularBuffer::from(vec![1, 2, 3]);
    assert_eq!(buf.capacity(), 3);
    assert!(buf.is_full());
    assert_eq!(buf.push_back(4), Some(1));
    let copy = buf.clone();
    assert_eq!(contents(&copy), vec![2, 3, 4]);
    assert_eq!(contents(&buf), vec![2, 3, 4]);
}

#[test]
fn make_contiguous_gives_mutable_items() {
    let mut buf: CircularBuffer<u32> = CircularBuffer::new(3);
    buf.extend_from_slice(&[1, 2, 3, 4]);
    let items = buf.make_contiguous();
    assert_eq!(items, &[2, 3, 4]);
    items[0] = 20;
    assert_eq!(buf.as_slices(), (&[20, 3, 4][..], &[][..]));
    assert_eq!(buf.push_back(5), Some(20));
    assert_eq!(contents(&buf), vec![3, 4, 5]);
}
