use vector::from_elem;
use vector::slice_to_vector;
use vector::Vector;

#[test]
fn drain_abandoned_restores_remainder() {
    let mut v = slice_to_vector(vec![0, 1, 2, 3, 4]);
    let drain = v.drain(1, 3);
    drain.finish(&mut v);
    assert_eq!(v.as_slice(), &[0, 3, 4]);
}

#[test]
fn drain_consumed_restores_remainder_once() {
    let mut v = slice_to_vector(vec![0, 1, 2, 3, 4, 5]);
    let mut drain = v.drain(2, 5);
    assert_eq!(drain.size_hint(), (3, Some(3)));
    assert_eq!(drain.next(), Some(2));
    assert_eq!(drain.next_back(), Some(4));
    assert_eq!(drain.next(), Some(3));
    assert_eq!(drain.next(), None);
    assert!(drain.is_empty());
    drain.finish(&mut v);
    assert_eq!(v.as_slice(), &[0, 1, 5]);
}

#[test]
fn drain_full_and_empty_ranges() {
    let mut v = slice_to_vector(vec![7, 8, 9]);
    let drain = v.drain(0, 3);
    drain.finish(&mut v);
    assert!(v.is_empty());

    let mut w = slice_to_vector(vec![7, 8, 9]);
    let drain = w.drain(2, 2);
    drain.finish(&mut w);
    assert_eq!(w.as_slice(), &[7, 8, 9]);
}

#[test]
fn into_iter_yields_both_ends() {
    let v = slice_to_vector(vec![1, 2, 3, 4]);
    let mut it = v.into_iter();
    assert_eq!(it.size_hint(), (4, Some(4)));
    assert_eq!(it.as_slice(), &[1, 2, 3, 4]);
    assert_eq!(it.next(), Some(1));
    assert_eq!(it.next_back(), Some(4));
    assert_eq!(it.as_slice(), &[2, 3]);
    assert!(!it.is_empty());
    assert_eq!(it.next(), Some(2));
    assert_eq!(it.next(), Some(3));
    assert_eq!(it.next(), None);
    assert_eq!(it.next_back(), None);
    assert!(it.is_empty());
}

#[test]
fn into_iter_as_mut_slice_changes_yields() {
    let v = slice_to_vector(vec![1, 2, 3]);
    let mut it = v.into_iter();
    it.as_mut_slice()[0] = 10;
    assert_eq!(it.next(), Some(10));
    assert_eq!(it.next(), Some(2));
    let mut other = it.clone();
    assert_eq!(other.next(), Some(3));
    assert_eq!(it.next(), Some(3));
}

#[test]
fn into_iter_count_and_partial_use() {
    let v = from_elem(9u8, 5);
    let mut it = v.into_iter();
    it.next();
    it.next_back();
    assert_eq!(it.count(), 3);
}

#[test]
fn zero_sized_elements() {
    let mut v: Vector<()> = Vector::new();
    for _ in 0..100 {
        v.push_front(());
    }
    assert_eq!(v.len(), 100);
    assert_eq!(v.front(), Some(&()));
    let drain = v.drain(10, 90);
    drain.finish(&mut v);
    assert_eq!(v.len(), 20);
    let mut it = v.into_iter();
    assert_eq!(it.next(), Some(()));
    assert_eq!(it.next_back(), Some(()));
    assert_eq!(it.count(), 18);

    let w = from_elem((), 3);
    assert_eq!(w.len(), 3);
    assert_eq!(w.capacity(), 3);
}
