use vector::from_elem;
use vector::slice_to_vector;
use vector::Vector;

#[test]
fn push_grows_geometrically() {
    let mut v = Vector::new();
    assert_eq!(v.capacity(), 0);
    v.push_front(1);
    assert_eq!(v.capacity(), 1);
    v.push_front(2);
    assert_eq!(v.capacity(), 2);
    v.push_front(3);
    assert_eq!(v.capacity(), 4);
    v.push_front(4);
    v.push_front(5);
    assert_eq!(v.capacity(), 8);
    assert_eq!(v.len(), 5);
}

#[test]
fn with_capacity_defers_growth() {
    let mut v = Vector::with_capacity(3);
    assert_eq!(v.capacity(), 3);
    v.push_front(1);
    v.push_front(2);
    v.push_front(3);
    assert_eq!(v.capacity(), 3);
    v.push_front(4);
    assert_eq!(v.capacity(), 6);
}

#[test]
fn reserve_takes_larger_of_needed_and_double() {
    let mut v = Vector::new();
    v.reserve(3);
    assert_eq!(v.capacity(), 3);
    v.push_front(1);
    v.push_front(2);
    v.reserve(5);
    assert_eq!(v.capacity(), 7);
    v.reserve(1);
    assert_eq!(v.capacity(), 7);
    v.reserve(6);
    assert_eq!(v.capacity(), 14);
}

#[test]
fn reserve_exact_takes_exactly_needed() {
    let mut v: Vector<u8> = Vector::new();
    v.reserve_exact(5);
    assert_eq!(v.capacity(), 5);
    v.reserve_exact(3);
    assert_eq!(v.capacity(), 5);
    v.push_front(1);
    v.reserve_exact(9);
    assert_eq!(v.capacity(), 10);
}

#[test]
fn shrink_to_fit_matches_length() {
    let mut v = from_elem(1u32, 10);
    v.truncate(3);
    assert_eq!(v.capacity(), 10);
    v.shrink_to_fit();
    assert_eq!(v.capacity(), 3);
    assert_eq!(v.as_slice(), &[1, 1, 1]);
}

#[test]
fn from_slice_rounds_capacity_to_power_of_two() {
    let v = Vector::from_slice(&[1, 2, 3, 4, 5]);
    assert_eq!(v.as_slice(), &[1, 2, 3, 4, 5]);
    assert_eq!(v.capacity(), 8);
    let w = Vector::from_slice(&[9u16]);
    assert_eq!(w.capacity(), 1);
    let x: Vector<u16> = Vector::from_slice(&[]);
    assert_eq!(x.capacity(), 1);
    let y = Vector::from_slice(&[1, 2, 3, 4, 5, 6, 7, 8]);
    assert_eq!(y.capacity(), 8);
}

#[test]
fn from_elem_fills_exactly() {
    let v = from_elem(7u64, 4);
    assert_eq!(v.as_slice(), &[7, 7, 7, 7]);
    assert_eq!(v.capacity(), 4);
    let w = from_elem(7u64, 0);
    assert!(w.is_empty());
}

#[test]
fn equality_is_structural() {
    let built: Vector<usize> = slice_to_vector((0..32).collect());
    let mut pushed = Vector::with_capacity(32);
    for i in 0..32usize {
        pushed.push(i);
    }
    assert_eq!(built, pushed);
    let fixed: [usize; 32] = core::array::from_fn(|i| i);
    assert_eq!(built.as_slice(), &fixed[..]);

    let mut drained = built;
    while drained.pop().is_some() {}
    assert!(drained.is_empty());
    assert_eq!(drained, Vector::new());
    assert_ne!(pushed, Vector::new());
}

#[test]
fn ordering_is_lexicographic() {
    let a = slice_to_vector(vec![1, 2]);
    let b = slice_to_vector(vec![1, 3]);
    let c = slice_to_vector(vec![1, 2, 0]);
    assert!(a < b);
    assert!(a < c);
    assert!(c < b);
    assert_eq!(
        a.partial_cmp(&slice_to_vector(vec![1, 2])),
        Some(core::cmp::Ordering::Equal)
    );
    let empty: Vector<i32> = Vector::new();
    assert!(empty < a);
}

#[test]
fn extend_strategies_agree_on_elements() {
    let items = vec![1, 2, 3, 4, 5];
    let mut exact = Vector::new();
    exact.extend(items.clone());
    let mut unknown = Vector::new();
    unknown.extend_desugared(items);
    assert_eq!(exact, unknown);
    assert_eq!(exact.as_slice(), &[1, 2, 3, 4, 5]);
    assert_eq!(exact.capacity(), 5);
    assert_eq!(unknown.capacity(), 8);
}

#[test]
fn extend_appends_at_front_end() {
    let mut v = slice_to_vector(vec![1, 2]);
    v.extend(vec![3, 4]);
    assert_eq!(v.as_slice(), &[1, 2, 3, 4]);
    v.extend_desugared(vec![5]);
    assert_eq!(v.as_slice(), &[1, 2, 3, 4, 5]);
}

#[test]
fn from_iter_sizes_to_input() {
    let v = Vector::from_iter(vec![4, 5, 6]);
    assert_eq!(v.as_slice(), &[4, 5, 6]);
    assert_eq!(v.capacity(), 3);
    let w: Vector<i32> = Vector::from_iter(Vec::new());
    assert!(w.is_empty());
    assert_eq!(w.capacity(), 0);
}

#[test]
fn conversions_round_trip() {
    let v = slice_to_vector(vec![1, 2, 3]);
    assert_eq!(v.capacity(), 3);
    let back = v.into_vec();
    assert_eq!(back, vec![1, 2, 3]);
    let d: Vector<u8> = Vector::default();
    assert!(d.is_empty());
    assert_eq!(d.capacity(), 0);
}
