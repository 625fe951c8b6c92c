//! The container: a logical sequence of elements backed by a growable
//! buffer, together with the tracked capacity of that buffer.

use vstd::prelude::*;

use crate::capacity::doubled;
use crate::capacity::grown;
use crate::capacity::next_power_of_two;
use crate::capacity::spec_doubled;
use crate::capacity::spec_grown;
use crate::capacity::spec_grown_exact;
use crate::capacity::spec_is_power_of_two;
use crate::cursors::Drain;
use crate::cursors::IntoIter;
use vstd::slice::slice_index_get;
use vstd::slice::slice_subrange;
use vstd::std_specs::cmp::PartialEqSpec;
use vstd::std_specs::cmp::PartialOrdSpec;

verus! {

/// Relies on `Vec::reserve_exact`: it only changes the allocation, never
/// the elements.
#[verifier::external_body]
fn vec_reserve_exact<T>(v: &mut Vec<T>, additional: usize)
    ensures
        final(v)@ == old(v)@,
{
    v.reserve_exact(additional);
}

/// Relies on `Vec::shrink_to_fit`: it only changes the allocation, never
/// the elements.
#[verifier::external_body]
fn vec_shrink_to_fit<T>(v: &mut Vec<T>)
    ensures
        final(v)@ == old(v)@,
{
    v.shrink_to_fit();
}

/// Relies on `<[T]>::swap`: it exchanges the elements at the two indexes
/// and touches nothing else.
#[verifier::external_body]
fn swap_elements<T>(v: &mut Vec<T>, i: usize, j: usize)
    requires
        i < old(v)@.len(),
        j < old(v)@.len(),
    ensures
        final(v)@ == old(v)@.update(i as int, old(v)@[j as int]).update(
            j as int,
            old(v)@[i as int],
        ),
{
    v.as_mut_slice().swap(i, j);
}

/// A growable, contiguous sequence of `T`.
///
/// The *front* of the container is the high-index end (cheap to grow); the
/// *back* is index 0. `view` gives the logical sequence of live elements,
/// and `spec_capacity` the element count the buffer is sized for.
#[derive(Debug)]
pub struct Vector<T> {
    data: Vec<T>,
    cap: usize,
}

impl<T> View for Vector<T> {
    type V = Seq<T>;

    closed spec fn view(&self) -> Seq<T> {
        self.data@
    }
}

impl<T> Vector<T> {
    /// The logical length never exceeds the buffer's capacity.
    #[verifier::type_invariant]
    spec fn length_within_capacity(self) -> bool {
        self.data@.len() <= self.cap
    }

    /// The element count the backing buffer is sized for.
    pub closed spec fn spec_capacity(&self) -> usize {
        self.cap
    }

    /// An empty container with no allocation at all.
    pub fn new() -> (r: Self)
        ensures
            r@ == Seq::<T>::empty(),
            r.spec_capacity() == 0,
    {
        Vector { data: Vec::new(), cap: 0 }
    }

    /// An empty container whose buffer is pre-sized for `cap` elements.
    pub fn with_capacity(cap: usize) -> (r: Self)
        ensures
            r@ == Seq::<T>::empty(),
            r.spec_capacity() == cap,
    {
        Vector { data: Vec::with_capacity(cap), cap }
    }

    /// A container that takes over the elements of `data`, sized exactly to
    /// their count.
    pub fn from_elements(data: Vec<T>) -> (r: Self)
        ensures
            r@ == data@,
            r.spec_capacity() == data@.len(),
    {
        let cap = data.len();
        Vector { data, cap }
    }

    /// The count of live elements.
    pub fn len(&self) -> (r: usize)
        ensures
            r == self@.len(),
            r <= self.spec_capacity(),
    {
        proof {
            use_type_invariant(self);
        }
        self.data.len()
    }

    /// Whether the container holds no elements.
    pub fn is_empty(&self) -> (r: bool)
        ensures
            r <==> self@.len() == 0,
    {
        self.data.len() == 0
    }

    /// The element count the backing buffer is sized for.
    pub fn capacity(&self) -> (r: usize)
        ensures
            r == self.spec_capacity(),
            r >= self@.len(),
    {
        proof {
            use_type_invariant(self);
        }
        self.cap
    }

    /// Grows the buffer so that it can hold `additional` more elements,
    /// doubling at least when it is already non-empty: the new capacity is
    /// the larger of the needed count and twice the current capacity.
    pub fn reserve(&mut self, additional: usize)
        requires
            old(self)@.len() + additional <= usize::MAX,
        ensures
            final(self)@ == old(self)@,
            final(self).spec_capacity() == spec_grown(
                old(self).spec_capacity(),
                (old(self)@.len() + additional) as usize,
            ),
    {
        proof {
            use_type_invariant(&*self);
        }
        let needed = self.data.len() + additional;
        self.cap = grown(self.cap, needed);
        let mut data = Vec::new();
        core::mem::swap(&mut data, &mut self.data);
        data.reserve(additional);
        self.data = data;
    }

    /// Grows the buffer to hold exactly `additional` more elements when it
    /// cannot already, and keeps it as it is otherwise.
    pub fn reserve_exact(&mut self, additional: usize)
        requires
            old(self)@.len() + additional <= usize::MAX,
        ensures
            final(self)@ == old(self)@,
            final(self).spec_capacity() == spec_grown_exact(
                old(self).spec_capacity(),
                (old(self)@.len() + additional) as usize,
            ),
    {
        proof {
            use_type_invariant(&*self);
        }
        let needed = self.data.len() + additional;
        if needed > self.cap {
            self.cap = needed;
        }
        let mut data = Vec::new();
        core::mem::swap(&mut data, &mut self.data);
        vec_reserve_exact(&mut data, additional);
        self.data = data;
    }

    /// Shrinks the buffer down to exactly the current length.
    pub fn shrink_to_fit(&mut self)
        ensures
            final(self)@ == old(self)@,
            final(self).spec_capacity() == old(self)@.len(),
    {
        proof {
            use_type_invariant(&*self);
        }
        self.cap = self.data.len();
        let mut data = Vec::new();
        core::mem::swap(&mut data, &mut self.data);
        vec_shrink_to_fit(&mut data);
        self.data = data;
    }

    /// The live elements as a borrowed slice, back (index 0) first.
    pub fn as_slice(&self) -> (r: &[T])
        ensures
            r@ == self@,
    {
        self.data.as_slice()
    }

    /// The elements of `[start, end)` as a borrowed slice; the bounds
    /// must satisfy `start <= end <= length`.
    pub fn index_range(&self, start: usize, end: usize) -> (r: &[T])
        requires
            start <= end,
            end <= self@.len(),
        ensures
            r@ == self@.subrange(start as int, end as int),
    {
        slice_subrange(self.data.as_slice(), start, end)
    }

    /// Consumes the container and hands out its elements as one plain
    /// vector, after shrinking the buffer to exactly their count.
    pub fn into_vec(self) -> (r: Vec<T>)
        ensures
            r@ == self@,
    {
        let Vector { mut data, cap: _ } = self;
        vec_shrink_to_fit(&mut data);
        data
    }

    /// Drops the elements at index `len` and above, in descending index
    /// order, and keeps the buffer as it is. A no-op when `len` is not
    /// below the current length.
    pub fn truncate(&mut self, len: usize)
        ensures
            final(self).spec_capacity() == old(self).spec_capacity(),
            len <= old(self)@.len() ==> final(self)@ == old(self)@.subrange(0, len as int),
            len > old(self)@.len() ==> final(self)@ == old(self)@,
    {
        proof {
            use_type_invariant(&*self);
        }
        let ghost orig = self.data@;
        let mut data = Vec::new();
        core::mem::swap(&mut data, &mut self.data);
        while len < data.len()
            invariant
                data@.len() <= orig.len(),
                data@ == orig.subrange(0, data@.len() as int),
                len <= orig.len() ==> len <= data@.len(),
                len > orig.len() ==> data@ == orig,
            decreases data@.len(),
        {
            data.pop();
            proof {
                assert(data@ =~= orig.subrange(0, data@.len() as int));
            }
        }
        proof {
            assert(orig.subrange(0, orig.len() as int) =~= orig);
        }
        self.data = data;
    }

    /// Removes every element; equivalent to `truncate(0)`.
    pub fn clear(&mut self)
        ensures
            final(self)@ == Seq::<T>::empty(),
            final(self).spec_capacity() == old(self).spec_capacity(),
    {
        self.truncate(0);
        proof {
            assert(old(self)@.subrange(0, 0) =~= Seq::<T>::empty());
        }
    }

    /// The element at position `index`; the position must be below the
    /// length.
    pub fn index(&self, index: usize) -> (r: &T)
        requires
            index < self@.len(),
        ensures
            *r == self@[index as int],
    {
        &self.data[index]
    }

    /// The element at position `index`, or `None` when the position is out
    /// of bounds.
    pub fn get(&self, index: usize) -> (r: Option<&T>)
        ensures
            index < self@.len() ==> (r matches Some(e) && *e == self@[index as int]),
            index >= self@.len() ==> r is None,
    {
        if index < self.data.len() {
            Some(&self.data[index])
        } else {
            None
        }
    }

    /// Exclusive access to the element at position `index`; the position
    /// must be below the length.
    pub fn index_mut(&mut self, index: usize) -> (r: &mut T)
        requires
            index < old(self)@.len(),
        ensures
            *r == old(self)@[index as int],
            final(self)@ == old(self)@.update(index as int, *final(r)),
            final(self).spec_capacity() == old(self).spec_capacity(),
    {
        proof {
            use_type_invariant(&*self);
        }
        &mut self.data[index]
    }

    /// Replaces the element at position `index` with `value`.
    pub fn set(&mut self, index: usize, value: T)
        requires
            index < old(self)@.len(),
        ensures
            final(self)@ == old(self)@.update(index as int, value),
            final(self).spec_capacity() == old(self).spec_capacity(),
    {
        proof {
            use_type_invariant(&*self);
        }
        let mut data = Vec::new();
        core::mem::swap(&mut data, &mut self.data);
        data[index] = value;
        self.data = data;
    }

    /// Appends `element` at the front (the high-index end), doubling the
    /// buffer when it is full. Amortized constant time.
    pub fn push_front(&mut self, element: T)
        requires
            old(self)@.len() < usize::MAX,
        ensures
            final(self)@ == old(self)@.push(element),
            final(self).spec_capacity() == (if old(self)@.len() == old(self).spec_capacity() {
                spec_doubled(old(self).spec_capacity())
            } else {
                old(self).spec_capacity()
            }),
    {
        proof {
            use_type_invariant(&*self);
        }
        if self.data.len() == self.cap {
            self.cap = doubled(self.cap);
        }
        let mut data = Vec::new();
        core::mem::swap(&mut data, &mut self.data);
        data.push(element);
        self.data = data;
    }

    /// Removes and returns the front element (the one at index
    /// `length - 1`), or `None` when the container is empty. Constant time.
    pub fn pop_front(&mut self) -> (r: Option<T>)
        ensures
            final(self).spec_capacity() == old(self).spec_capacity(),
            old(self)@.len() == 0 ==> r is None && final(self)@ == old(self)@,
            old(self)@.len() > 0 ==> r == Some(old(self)@.last()) && final(self)@ == old(
                self,
            )@.drop_last(),
    {
        proof {
            use_type_invariant(&*self);
        }
        let mut data = Vec::new();
        core::mem::swap(&mut data, &mut self.data);
        let r = data.pop();
        self.data = data;
        r
    }

    /// The front element (the one at index `length - 1`), or `None` when
    /// the container is empty.
    pub fn front(&self) -> (r: Option<&T>)
        ensures
            self@.len() == 0 ==> r is None,
            self@.len() > 0 ==> (r matches Some(e) && *e == self@.last()),
    {
        let len = self.data.len();
        if len == 0 {
            None
        } else {
            Some(&self.data[len - 1])
        }
    }

    /// The back element (the one at index 0), or `None` when the container
    /// is empty.
    pub fn back(&self) -> (r: Option<&T>)
        ensures
            self@.len() == 0 ==> r is None,
            self@.len() > 0 ==> (r matches Some(e) && *e == self@[0]),
    {
        if self.data.len() == 0 {
            None
        } else {
            Some(&self.data[0])
        }
    }

    /// Exclusive access to the front element of a non-empty container.
    pub fn front_mut(&mut self) -> (r: &mut T)
        requires
            old(self)@.len() > 0,
        ensures
            *r == old(self)@.last(),
            final(self)@ == old(self)@.update(old(self)@.len() - 1, *final(r)),
            final(self).spec_capacity() == old(self).spec_capacity(),
    {
        proof {
            use_type_invariant(&*self);
        }
        let i = self.data.len() - 1;
        &mut self.data[i]
    }

    /// Inserts `element` at position `index`, shifting the elements at
    /// `index` and above one slot toward the front by a descending pass of
    /// swaps. The buffer doubles when it is full. Costs time proportional
    /// to the shifted count.
    pub fn insert(&mut self, index: usize, element: T)
        requires
            index <= old(self)@.len(),
            old(self)@.len() < usize::MAX,
        ensures
            final(self)@ == old(self)@.insert(index as int, element),
            final(self).spec_capacity() == (if old(self)@.len() == old(self).spec_capacity() {
                spec_doubled(old(self).spec_capacity())
            } else {
                old(self).spec_capacity()
            }),
    {
        proof {
            use_type_invariant(&*self);
        }
        if self.data.len() == self.cap {
            self.cap = doubled(self.cap);
        }
        let mut data = Vec::new();
        core::mem::swap(&mut data, &mut self.data);
        let ghost orig = data@;
        data.push(element);
        let mut j = data.len() - 1;
        proof {
            assert(data@ =~= orig.subrange(0, j as int) + seq![element] + orig.subrange(
                j as int,
                orig.len() as int,
            ));
        }
        while j > index
            invariant
                index <= j < data@.len(),
                data@.len() == orig.len() + 1,
                index <= orig.len(),
                data@ == orig.subrange(0, j as int) + seq![element] + orig.subrange(
                    j as int,
                    orig.len() as int,
                ),
            decreases j,
        {
            swap_elements(&mut data, j - 1, j);
            j = j - 1;
            proof {
                assert(data@ =~= orig.subrange(0, j as int) + seq![element] + orig.subrange(
                    j as int,
                    orig.len() as int,
                ));
            }
        }
        proof {
            assert(data@ =~= orig.insert(index as int, element));
        }
        self.data = data;
    }

    /// Removes and returns the element at position `index`, shifting the
    /// elements above it one slot toward the back by an ascending pass of
    /// swaps. Costs time proportional to the shifted count.
    pub fn remove(&mut self, index: usize) -> (r: T)
        requires
            index < old(self)@.len(),
        ensures
            r == old(self)@[index as int],
            final(self)@ == old(self)@.remove(index as int),
            final(self).spec_capacity() == old(self).spec_capacity(),
    {
        proof {
            use_type_invariant(&*self);
        }
        let mut data = Vec::new();
        core::mem::swap(&mut data, &mut self.data);
        let ghost orig = data@;
        let mut j = index;
        proof {
            assert(data@ =~= orig.remove(index as int).insert(j as int, orig[index as int]));
        }
        while j + 1 < data.len()
            invariant
                index <= j < data@.len(),
                data@.len() <= usize::MAX,
                data@.len() == orig.len(),
                index < orig.len(),
                data@ == orig.remove(index as int).insert(j as int, orig[index as int]),
            decreases data@.len() - j,
        {
            swap_elements(&mut data, j, j + 1);
            j = j + 1;
            proof {
                assert(data@ =~= orig.remove(index as int).insert(j as int, orig[index as int]));
            }
        }
        let r = match data.pop() {
            Some(v) => v,
            None => unreached(),
        };
        proof {
            assert(data@ =~= orig.remove(index as int));
        }
        self.data = data;
        r
    }

    /// Appends `element` at the back (index 0) by a full shift; the
    /// expensive end of this container. Costs time proportional to the
    /// length.
    pub fn push_back(&mut self, element: T)
        requires
            old(self)@.len() < usize::MAX,
        ensures
            final(self)@ == seq![element] + old(self)@,
            final(self).spec_capacity() == (if old(self)@.len() == old(self).spec_capacity() {
                spec_doubled(old(self).spec_capacity())
            } else {
                old(self).spec_capacity()
            }),
    {
        self.insert(0, element);
        proof {
            assert(old(self)@.insert(0, element) =~= seq![element] + old(self)@);
        }
    }

    /// Removes and returns the back element (the one at index 0), or
    /// `None` when the container is empty. Costs time proportional to the
    /// length.
    pub fn pop_back(&mut self) -> (r: Option<T>)
        ensures
            final(self).spec_capacity() == old(self).spec_capacity(),
            old(self)@.len() == 0 ==> r is None && final(self)@ == old(self)@,
            old(self)@.len() > 0 ==> r == Some(old(self)@[0]) && final(self)@ == old(
                self,
            )@.subrange(1, old(self)@.len() as int),
    {
        if self.data.len() == 0 {
            None
        } else {
            let v = self.remove(0);
            proof {
                assert(old(self)@.remove(0) =~= old(self)@.subrange(1, old(self)@.len() as int));
            }
            Some(v)
        }
    }

    /// Exclusive access to the back element of a non-empty container.
    pub fn back_mut(&mut self) -> (r: &mut T)
        requires
            old(self)@.len() > 0,
        ensures
            *r == old(self)@[0],
            final(self)@ == old(self)@.update(0, *final(r)),
            final(self).spec_capacity() == old(self).spec_capacity(),
    {
        proof {
            use_type_invariant(&*self);
        }
        &mut self.data[0]
    }

    /// Stack push: routed through `push_front`, the cheap end.
    pub fn push(&mut self, element: T)
        requires
            old(self)@.len() < usize::MAX,
        ensures
            final(self)@ == old(self)@.push(element),
            final(self).spec_capacity() == (if old(self)@.len() == old(self).spec_capacity() {
                spec_doubled(old(self).spec_capacity())
            } else {
                old(self).spec_capacity()
            }),
    {
        self.push_front(element)
    }

    /// Stack pop: routed through `pop_front`; returns the element pushed
    /// most recently.
    pub fn pop(&mut self) -> (r: Option<T>)
        ensures
            final(self).spec_capacity() == old(self).spec_capacity(),
            old(self)@.len() == 0 ==> r is None && final(self)@ == old(self)@,
            old(self)@.len() > 0 ==> r == Some(old(self)@.last()) && final(self)@ == old(
                self,
            )@.drop_last(),
    {
        self.pop_front()
    }

    /// Stack top: the element that `pop` would return.
    pub fn top(&self) -> (r: Option<&T>)
        ensures
            self@.len() == 0 ==> r is None,
            self@.len() > 0 ==> (r matches Some(e) && *e == self@.last()),
    {
        self.front()
    }

    /// Exclusive access to the stack top of a non-empty container.
    pub fn top_mut(&mut self) -> (r: &mut T)
        requires
            old(self)@.len() > 0,
        ensures
            *r == old(self)@.last(),
            final(self)@ == old(self)@.update(old(self)@.len() - 1, *final(r)),
            final(self).spec_capacity() == old(self).spec_capacity(),
    {
        self.front_mut()
    }

    /// Queue enqueue: routed through `push_back`, the expensive end.
    pub fn enqueue(&mut self, element: T)
        requires
            old(self)@.len() < usize::MAX,
        ensures
            final(self)@ == seq![element] + old(self)@,
            final(self).spec_capacity() == (if old(self)@.len() == old(self).spec_capacity() {
                spec_doubled(old(self).spec_capacity())
            } else {
                old(self).spec_capacity()
            }),
    {
        self.push_back(element)
    }

    /// Queue dequeue: routed through `pop_front`; returns the element
    /// enqueued earliest.
    pub fn dequeue(&mut self) -> (r: Option<T>)
        ensures
            final(self).spec_capacity() == old(self).spec_capacity(),
            old(self)@.len() == 0 ==> r is None && final(self)@ == old(self)@,
            old(self)@.len() > 0 ==> r == Some(old(self)@.last()) && final(self)@ == old(
                self,
            )@.drop_last(),
    {
        self.pop_front()
    }

    /// Queue peek: the element that `dequeue` would return.
    pub fn peek(&self) -> (r: Option<&T>)
        ensures
            self@.len() == 0 ==> r is None,
            self@.len() > 0 ==> (r matches Some(e) && *e == self@.last()),
    {
        self.front()
    }

    /// Exclusive access to the element that `dequeue` would return, in a
    /// non-empty container.
    pub fn peek_mut(&mut self) -> (r: &mut T)
        requires
            old(self)@.len() > 0,
        ensures
            *r == old(self)@.last(),
            final(self)@ == old(self)@.update(old(self)@.len() - 1, *final(r)),
            final(self).spec_capacity() == old(self).spec_capacity(),
    {
        self.front_mut()
    }

    /// Keeps exactly the elements the predicate approves, in their
    /// original order, by a single left-to-right pass that swaps each kept
    /// element forward over the dropped ones; the dropped elements fall to
    /// the trailing truncate, and the buffer is kept as it is.
    ///
    /// The mask in the postcondition records, position by position, a
    /// verdict the predicate can return for that element.
    pub fn retain<F: Fn(&T) -> bool>(&mut self, f: F)
        requires
            forall|k: int| 0 <= k < old(self)@.len() ==> call_requires(f, (&old(self)@[k],)),
        ensures
            final(self).spec_capacity() == old(self).spec_capacity(),
            exists|keep: Seq<bool>|
                {
                    &&& keep.len() == old(self)@.len()
                    &&& (forall|k: int|
                        0 <= k < keep.len() ==> call_ensures(f, (&old(self)@[k],), keep[k]))
                    &&& final(self)@ == masked(old(self)@, keep)
                },
    {
        proof {
            use_type_invariant(&*self);
        }
        let ghost orig = self.data@;
        let mut data = Vec::new();
        core::mem::swap(&mut data, &mut self.data);
        let len = data.len();
        let mut del: usize = 0;
        let mut i: usize = 0;
        let ghost mut keep = Seq::<bool>::empty();
        while i < len
            invariant
                i <= len,
                del <= i,
                orig == old(self)@,
                len == orig.len(),
                len <= usize::MAX,
                data@.len() == len,
                keep.len() == i,
                forall|k: int| 0 <= k < old(self)@.len() ==> call_requires(f, (&old(self)@[k],)),
                forall|k: int| 0 <= k < i ==> call_ensures(f, (&old(self)@[k],), keep[k]),
                data@.subrange(0, (i - del) as int) == masked(orig.subrange(0, i as int), keep),
                masked(orig.subrange(0, i as int), keep).len() == i - del,
                forall|j: int| i <= j < len ==> data@[j] == orig[j],
            decreases len - i,
        {
            proof {
                assert(data@[i as int] == old(self)@[i as int]);
                assert(call_requires(f, (&old(self)@[i as int],)));
            }
            let keep_it = f(&data[i]);
            let ghost keep_prev = keep;
            proof {
                keep = keep.push(keep_it);
                assert(orig.subrange(0, (i + 1) as int).drop_last() =~= orig.subrange(0, i as int));
                assert(keep.drop_last() =~= keep_prev);
                assert(orig.subrange(0, (i + 1) as int).last() == orig[i as int]);
            }
            if !keep_it {
                del = del + 1;
                proof {
                    assert(masked(orig.subrange(0, (i + 1) as int), keep) == masked(
                        orig.subrange(0, i as int),
                        keep_prev,
                    ));
                    assert(data@.subrange(0, (i + 1 - del) as int) == masked(
                        orig.subrange(0, (i + 1) as int),
                        keep,
                    ));
                }
            } else {
                if del > 0 {
                    swap_elements(&mut data, i - del, i);
                }
                proof {
                    assert(masked(orig.subrange(0, (i + 1) as int), keep) == masked(
                        orig.subrange(0, i as int),
                        keep_prev,
                    ).push(orig[i as int]));
                    assert(data@.subrange(0, (i + 1 - del) as int) =~= masked(
                        orig.subrange(0, i as int),
                        keep_prev,
                    ).push(orig[i as int]));
                }
            }
            i = i + 1;
        }
        proof {
            assert(orig.subrange(0, len as int) =~= orig);
        }
        self.data = data;
        if del > 0 {
            self.truncate(len - del);
        } else {
            proof {
                assert(data@.subrange(0, len as int) =~= data@);
            }
        }
        proof {
            assert(self@ == masked(orig, keep));
        }
    }

    /// Moves every element of `other` onto the end of `self`, in order,
    /// after one reservation for their count; `other` is left empty with
    /// its buffer untouched.
    pub fn append(&mut self, other: &mut Self)
        requires
            old(self)@.len() + old(other)@.len() <= usize::MAX,
        ensures
            final(self)@ == old(self)@ + old(other)@,
            final(other)@ == Seq::<T>::empty(),
            final(self).spec_capacity() == spec_grown(
                old(self).spec_capacity(),
                (old(self)@.len() + old(other)@.len()) as usize,
            ),
            final(other).spec_capacity() == old(other).spec_capacity(),
    {
        proof {
            use_type_invariant(&*other);
        }
        let other_len = other.data.len();
        self.reserve(other_len);
        proof {
            use_type_invariant(&*self);
        }
        let mut data = Vec::new();
        core::mem::swap(&mut data, &mut self.data);
        let mut odata = Vec::new();
        core::mem::swap(&mut odata, &mut other.data);
        data.append(&mut odata);
        other.data = odata;
        self.data = data;
    }

    /// The exact-length bulk-population strategy: one reservation for the
    /// known count, then a single bulk move of the elements onto the end.
    pub fn extend_exact(&mut self, items: Vec<T>)
        requires
            old(self)@.len() + items@.len() <= usize::MAX,
        ensures
            final(self)@ == old(self)@ + items@,
            final(self).spec_capacity() == spec_grown(
                old(self).spec_capacity(),
                (old(self)@.len() + items@.len()) as usize,
            ),
    {
        let mut items = items;
        self.reserve(items.len());
        proof {
            use_type_invariant(&*self);
        }
        let mut data = Vec::new();
        core::mem::swap(&mut data, &mut self.data);
        data.append(&mut items);
        self.data = data;
    }

    /// The unknown-length bulk-population strategy: takes the elements one
    /// by one, and grows geometrically, exactly as a run of single pushes
    /// would, whenever the buffer fills up.
    pub fn extend_desugared(&mut self, items: Vec<T>)
        requires
            old(self)@.len() + items@.len() <= usize::MAX,
        ensures
            final(self)@ == old(self)@ + items@,
            final(self)@.len() <= final(self).spec_capacity(),
            final(self).spec_capacity() >= old(self).spec_capacity(),
            items@.len() == 0 ==> final(self).spec_capacity() == old(self).spec_capacity(),
    {
        let mut items = items;
        let ghost all = items@;
        let ghost start = self@;
        proof {
            use_type_invariant(&*self);
            assert(self@ =~= start + all.subrange(0, 0));
            assert(items@ =~= all.subrange(0, all.len() as int));
        }
        while items.len() > 0
            invariant
                items@.len() <= all.len(),
                items@ == all.subrange((all.len() - items@.len()) as int, all.len() as int),
                self@ == start + all.subrange(0, (all.len() - items@.len()) as int),
                start.len() + all.len() <= usize::MAX,
                self.spec_capacity() >= old(self).spec_capacity(),
                items@.len() == all.len() ==> self.spec_capacity() == old(self).spec_capacity(),
            decreases items@.len(),
        {
            let element = items.remove(0);
            if self.len() == self.capacity() {
                self.reserve(1);
            }
            self.push_front(element);
            proof {
                let consumed = (all.len() - items@.len()) as int;
                assert(items@ =~= all.subrange(consumed, all.len() as int));
                assert(element == all[consumed - 1]);
                assert(self@ =~= start + all.subrange(0, consumed));
            }
        }
        proof {
            assert(all.subrange(0, all.len() as int) =~= all);
            use_type_invariant(&*self);
        }
    }

    /// Bulk population from a source whose length is known exactly; it
    /// selects the exact-length strategy.
    pub fn extend(&mut self, items: Vec<T>)
        requires
            old(self)@.len() + items@.len() <= usize::MAX,
        ensures
            final(self)@ == old(self)@ + items@,
            final(self).spec_capacity() == spec_grown(
                old(self).spec_capacity(),
                (old(self)@.len() + items@.len()) as usize,
            ),
    {
        self.extend_exact(items)
    }

    /// A container built by bulk population from the given elements: empty
    /// input gives an unallocated container, and any other input gives a
    /// buffer sized exactly to the element count.
    pub fn from_iter(items: Vec<T>) -> (r: Self)
        ensures
            r@ == items@,
            items@.len() == 0 ==> r.spec_capacity() == 0,
            items@.len() > 0 ==> r.spec_capacity() == items@.len(),
    {
        if items.len() == 0 {
            Vector::new()
        } else {
            let mut v = Vector::with_capacity(items.len());
            v.extend_exact(items);
            proof {
                assert(Seq::<T>::empty() + items@ =~= items@);
            }
            v
        }
    }

    /// Splits the container at position `at`: the elements from `at` on
    /// move into a new container sized exactly to their count, and `self`
    /// keeps the elements below `at` with its buffer untouched.
    pub fn split_off(&mut self, at: usize) -> (r: Self)
        requires
            at <= old(self)@.len(),
        ensures
            final(self)@ == old(self)@.subrange(0, at as int),
            r@ == old(self)@.subrange(at as int, old(self)@.len() as int),
            final(self).spec_capacity() == old(self).spec_capacity(),
            r.spec_capacity() == old(self)@.len() - at,
    {
        proof {
            use_type_invariant(&*self);
        }
        let mut data = Vec::new();
        core::mem::swap(&mut data, &mut self.data);
        let tail = data.split_off(at);
        self.data = data;
        Vector::from_elements(tail)
    }

    /// Removes the elements of `[start, end)` and hands them to a
    /// draining cursor, together with the preserved tail `[end, length)`;
    /// the container itself keeps only `[0, start)` until the cursor's
    /// `finish` reattaches the tail. Both bounds must satisfy
    /// `start <= end <= length`.
    pub fn drain(&mut self, start: usize, end: usize) -> (r: Drain<T>)
        requires
            start <= end,
            end <= old(self)@.len(),
        ensures
            final(self)@ == old(self)@.subrange(0, start as int),
            r@ == old(self)@.subrange(start as int, end as int),
            r.spec_tail() == old(self)@.subrange(end as int, old(self)@.len() as int),
            final(self).spec_capacity() == old(self).spec_capacity(),
    {
        proof {
            use_type_invariant(&*self);
        }
        let ghost orig = self.data@;
        let mut data = Vec::new();
        core::mem::swap(&mut data, &mut self.data);
        let mut mid = data.split_off(start);
        let tail = mid.split_off(end - start);
        proof {
            assert(mid@ =~= orig.subrange(start as int, end as int));
            assert(tail@ =~= orig.subrange(end as int, orig.len() as int));
        }
        self.data = data;
        Drain::from_parts(mid, tail)
    }

    /// Converts the container into a cursor that owns the buffer and every
    /// live element; the container handle is gone, so nothing else can
    /// reach or double-drop them.
    pub fn into_iter(self) -> (r: IntoIter<T>)
        ensures
            r@ == self@,
    {
        let Vector { data, cap: _ } = self;
        IntoIter::from_parts(data)
    }
}

impl<T: Copy> Vector<T> {
    /// A container copied from a borrowed slice, with the buffer sized to
    /// the smallest power of two that holds the length.
    pub fn from_slice(s: &[T]) -> (r: Self)
        requires
            s@.len() <= usize::MAX / 2 + 1,
        ensures
            r@ == s@,
            spec_is_power_of_two(r.spec_capacity() as nat),
            r.spec_capacity() >= s@.len(),
            s@.len() <= 1 ==> r.spec_capacity() == 1,
            s@.len() > 1 ==> r.spec_capacity() < 2 * s@.len(),
    {
        let len = s.len();
        let cap = next_power_of_two(len);
        let mut v = Vector::with_capacity(cap);
        let mut i: usize = 0;
        while i < len
            invariant
                i <= len,
                len == s@.len(),
                v@ == s@.subrange(0, i as int),
                v.spec_capacity() == cap,
                len <= cap,
                cap <= usize::MAX,
            decreases len - i,
        {
            v.push_front(*slice_index_get(s, i));
            i = i + 1;
            proof {
                assert(v@ =~= s@.subrange(0, i as int));
            }
        }
        proof {
            assert(s@.subrange(0, s@.len() as int) =~= s@);
        }
        v
    }
}

impl<T> Default for Vector<T> {
    /// The default container is the empty, unallocated one.
    fn default() -> (r: Self)
        ensures
            r@ == Seq::<T>::empty(),
            r.spec_capacity() == 0,
    {
        Vector::new()
    }
}

impl<T: Clone> Clone for Vector<T> {
    /// A container holding a clone of every live element, with a buffer of
    /// the same capacity; the copy owns its own storage, so the two
    /// containers never affect one another afterward.
    fn clone(&self) -> (res: Self)
        ensures
            res@.len() == self@.len(),
            forall|i: int| #![all_triggers] 0 <= i < self@.len() ==> cloned::<T>(self@[i], res@[i]),
            res.spec_capacity() == self.spec_capacity(),
    {
        proof {
            use_type_invariant(self);
        }
        Vector { data: self.data.clone(), cap: self.cap }
    }
}

impl<T: PartialEq> PartialEq for Vector<T> {
    /// Structural equality: two containers are equal exactly when their
    /// live elements are equal pairwise in order; capacity plays no part.
    fn eq(&self, other: &Self) -> (r: bool) {
        self.data == other.data
    }
}

impl<T: PartialEq> vstd::std_specs::cmp::PartialEqSpecImpl for Vector<T> {
    open spec fn obeys_eq_spec() -> bool {
        <T as PartialEqSpec>::obeys_eq_spec()
    }

    open spec fn eq_spec(&self, other: &Self) -> bool {
        &&& self@.len() == other@.len()
        &&& forall|i: int| #![auto] 0 <= i < self@.len() ==> self@[i].eq_spec(&other@[i])
    }
}

impl<T: Eq> Eq for Vector<T> {

}

/// Lexicographic comparison of two sequences through the element type's
/// own comparison: the first unequal pair decides; a sequence that runs
/// out first is the smaller; incomparable elements make the sequences
/// incomparable.
pub open spec fn lex_cmp<T: PartialOrd>(a: Seq<T>, b: Seq<T>) -> Option<core::cmp::Ordering>
    decreases a.len(),
{
    if a.len() == 0 && b.len() == 0 {
        Some(core::cmp::Ordering::Equal)
    } else if a.len() == 0 {
        Some(core::cmp::Ordering::Less)
    } else if b.len() == 0 {
        Some(core::cmp::Ordering::Greater)
    } else {
        match a.first().partial_cmp_spec(&b.first()) {
            Some(core::cmp::Ordering::Equal) => lex_cmp(a.drop_first(), b.drop_first()),
            o => o,
        }
    }
}

impl<T: PartialOrd> PartialOrd for Vector<T> {
    /// Structural ordering: lexicographic over the live elements, exactly
    /// as the element sequences compare; capacity plays no part.
    fn partial_cmp(&self, other: &Self) -> (r: Option<core::cmp::Ordering>) {
        let a_len = self.data.len();
        let b_len = other.data.len();
        let common = if a_len < b_len {
            a_len
        } else {
            b_len
        };
        let mut i: usize = 0;
        proof {
            assert(self@.skip(0) =~= self@);
            assert(other@.skip(0) =~= other@);
        }
        while i < common
            invariant
                common == (if a_len < b_len {
                    a_len
                } else {
                    b_len
                }),
                a_len == self@.len(),
                b_len == other@.len(),
                i <= common,
                <T as PartialOrdSpec>::obeys_partial_cmp_spec() ==> lex_cmp(self@, other@)
                    == lex_cmp(self@.skip(i as int), other@.skip(i as int)),
            decreases common - i,
        {
            let c = self.data[i].partial_cmp(&other.data[i]);
            match c {
                Some(core::cmp::Ordering::Equal) => {
                    proof {
                        assert(self@.skip(i as int).drop_first() =~= self@.skip(i + 1));
                        assert(other@.skip(i as int).drop_first() =~= other@.skip(i + 1));
                        assert(self@.skip(i as int).first() == self@[i as int]);
                        assert(other@.skip(i as int).first() == other@[i as int]);
                    }
                    i = i + 1;
                },
                _ => {
                    proof {
                        assert(self@.skip(i as int).first() == self@[i as int]);
                        assert(other@.skip(i as int).first() == other@[i as int]);
                    }
                    return c;
                },
            }
        }
        proof {
            if a_len <= b_len {
                assert(self@.skip(common as int) =~= Seq::<T>::empty());
            }
            if b_len <= a_len {
                assert(other@.skip(common as int) =~= Seq::<T>::empty());
            }
        }
        if a_len == b_len {
            Some(core::cmp::Ordering::Equal)
        } else if a_len < b_len {
            Some(core::cmp::Ordering::Less)
        } else {
            Some(core::cmp::Ordering::Greater)
        }
    }
}

impl<T: PartialOrd> vstd::std_specs::cmp::PartialOrdSpecImpl for Vector<T> {
    open spec fn obeys_partial_cmp_spec() -> bool {
        <T as PartialOrdSpec>::obeys_partial_cmp_spec()
    }

    open spec fn partial_cmp_spec(&self, other: &Self) -> Option<core::cmp::Ordering> {
        lex_cmp(self@, other@)
    }
}

/// The subsequence of `s` at the positions `keep` marks with `true`, in
/// their original order.
pub open spec fn masked<T>(s: Seq<T>, keep: Seq<bool>) -> Seq<T>
    recommends
        s.len() == keep.len(),
    decreases s.len(),
{
    if s.len() == 0 || keep.len() == 0 {
        Seq::<T>::empty()
    } else {
        let rest = masked(s.drop_last(), keep.drop_last());
        if keep.last() {
            rest.push(s.last())
        } else {
            rest
        }
    }
}

/// A container holding `n` copies of `elem`, with the buffer sized to
/// exactly `n`; the expansion of literal-with-count construction.
pub fn from_elem<T: Copy>(elem: T, n: usize) -> (r: Vector<T>)
    ensures
        r@.len() == n,
        forall|i: int| 0 <= i < n ==> r@[i] == elem,
        r.spec_capacity() == n,
{
    let mut v = Vector::with_capacity(n);
    let mut i: usize = 0;
    while i < n
        invariant
            i <= n,
            v@.len() == i,
            forall|k: int| 0 <= k < i ==> v@[k] == elem,
            v.spec_capacity() == n,
        decreases n - i,
    {
        v.push_front(elem);
        i = i + 1;
    }
    v
}

} // verus!
