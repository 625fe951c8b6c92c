use vector::slice_to_vector;
use vector::Vector;

const SIZE: usize = 32;

#[test]
fn test_vector_macro() {
    let mut v = slice_to_vector(vec![
        0, 1, 2, 3, 4, 5, 6, 7, 8, 9, 10, 11, 12, 13, 14, 15, 16, 17, 18, 19, 20, 21, 22, 23, 24,
        25, 26, 27, 28, 29, 30, 31,
    ]);

    for i in 0..SIZE {
        assert_eq!(v.get(i).unwrap(), &i);
    }
    while !v.is_empty() {
        v.pop();
    }

    assert!(v.is_empty());

    let v = slice_to_vector(vec![1]);
    assert!(v.len() == 1);
}

#[test]
fn test_vector() {
    let mut v = Vector::<usize>::new();

    for i in 0..SIZE {
        v.push(i);
    }
    for i in 0..SIZE {
        assert_eq!(v.get(i).unwrap(), &i);
    }
    while !v.is_empty() {
        v.pop();
    }

    assert!(v.is_empty());
}

#[test]
fn test_clone() {
    let mut a = Vector::new();
    a.push(1);
    a.push(2);
    let mut b = a.clone();
    a.push(3);
    b.push(0);
    assert_ne!(a, b);
    a.pop();
    b.pop();
    assert_eq!(a, b);
}

#[test]
fn test_iter() {
    let mut a = Vector::<usize>::new();
    for i in 0..SIZE {
        a.push(i);
    }
    let mut out: usize = 0;
    let mut it = a.into_iter();
    while let Some(value) = it.next() {
        out += value;
    }
    assert_eq!(out, 496);
}

#[test]
fn stack_lifo_order() {
    let mut v = Vector::new();
    v.push('a');
    v.push('b');
    v.push('c');
    assert_eq!(v.top(), Some(&'c'));
    assert_eq!(v.pop(), Some('c'));
    assert_eq!(v.pop(), Some('b'));
    assert_eq!(v.pop(), Some('a'));
    assert_eq!(v.pop(), None);
}

#[test]
fn queue_fifo_order() {
    let mut v = Vector::new();
    v.enqueue(1);
    v.enqueue(2);
    v.enqueue(3);
    assert_eq!(v.peek(), Some(&1));
    assert_eq!(v.dequeue(), Some(1));
    assert_eq!(v.dequeue(), Some(2));
    assert_eq!(v.dequeue(), Some(3));
    assert_eq!(v.dequeue(), None);
}

#[test]
fn push_back_is_expensive_end() {
    let mut v = Vector::new();
    v.push_front(1);
    v.push_back(0);
    v.push_front(2);
    assert_eq!(v.as_slice(), &[0, 1, 2]);
    assert_eq!(v.front(), Some(&2));
    assert_eq!(v.back(), Some(&0));
    assert_eq!(v.pop_back(), Some(0));
    assert_eq!(v.pop_front(), Some(2));
    assert_eq!(v.as_slice(), &[1]);
}

#[test]
fn front_back_accessors() {
    let mut v: Vector<u32> = Vector::new();
    assert_eq!(v.front(), None);
    assert_eq!(v.back(), None);
    assert_eq!(v.get(0), None);
    v.push_front(5);
    v.push_front(6);
    *v.front_mut() = 60;
    *v.back_mut() = 50;
    assert_eq!(v.as_slice(), &[50, 60]);
    assert_eq!(v.index(0), &50);
    v.set(0, 7);
    assert_eq!(v.get(0), Some(&7));
    *v.index_mut(1) = 9;
    assert_eq!(v.index(1), &9);
    v.set(1, 61);
    *v.top_mut() += 1;
    *v.peek_mut() += 1;
    assert_eq!(v.as_slice(), &[7, 63]);
}

#[test]
fn index_range_slices() {
    let v = slice_to_vector(vec![1, 2, 3, 4, 5]);
    assert_eq!(v.index_range(1, 4), &[2, 3, 4]);
    assert_eq!(v.index_range(0, 5), &[1, 2, 3, 4, 5]);
    assert_eq!(v.index_range(3, 3), &[]);
}

#[test]
fn insert_remove_shifts() {
    let mut v = Vector::new();
    v.insert(0, 10);
    v.insert(1, 30);
    v.insert(1, 20);
    v.insert(0, 0);
    assert_eq!(v.as_slice(), &[0, 10, 20, 30]);
    assert_eq!(v.remove(2), 20);
    assert_eq!(v.remove(0), 0);
    assert_eq!(v.as_slice(), &[10, 30]);
}

#[test]
fn split_off_append_round_trip() {
    for k in 0..=5 {
        let mut v = slice_to_vector(vec![1, 2, 3, 4, 5]);
        let mut tail = v.split_off(k);
        assert_eq!(v.len(), k);
        assert_eq!(tail.len(), 5 - k);
        assert_eq!(tail.capacity(), 5 - k);
        v.append(&mut tail);
        assert_eq!(v.as_slice(), &[1, 2, 3, 4, 5]);
        assert!(tail.is_empty());
    }
}

#[test]
fn retain_all_is_noop() {
    let mut v = slice_to_vector(vec![3, 1, 4, 1, 5]);
    let cap = v.capacity();
    v.retain(|_| true);
    assert_eq!(v.as_slice(), &[3, 1, 4, 1, 5]);
    assert_eq!(v.len(), 5);
    assert_eq!(v.capacity(), cap);
}

#[test]
fn retain_keeps_order() {
    let mut v = slice_to_vector(vec![0, 1, 2, 3, 4, 5, 6]);
    v.retain(|x| x % 2 == 0);
    assert_eq!(v.as_slice(), &[0, 2, 4, 6]);
    let mut w = slice_to_vector(vec![1, 3, 5]);
    w.retain(|_| false);
    assert!(w.is_empty());
}

#[test]
fn truncate_and_clear() {
    let mut v = slice_to_vector(vec![1, 2, 3, 4]);
    let cap = v.capacity();
    v.truncate(4);
    assert_eq!(v.as_slice(), &[1, 2, 3, 4]);
    v.truncate(9);
    assert_eq!(v.as_slice(), &[1, 2, 3, 4]);
    v.truncate(2);
    assert_eq!(v.as_slice(), &[1, 2]);
    v.clear();
    assert!(v.is_empty());
    assert_eq!(v.capacity(), cap);
}
