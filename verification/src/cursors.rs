//! The two cursors over container storage: the consuming cursor, which
//! takes over a whole container, and the draining cursor, which takes over
//! a removed sub-range and carries the preserved tail until it is
//! reattached.

use vstd::prelude::*;

use crate::capacity::spec_grown;
use crate::vector::Vector;

verus! {

/// A cursor that owns every element a container held and yields them from
/// either end; its view is the sequence of elements not yet yielded, in
/// buffer order (the back of the container first).
pub struct IntoIter<T> {
    items: Vec<T>,
}

impl<T> View for IntoIter<T> {
    type V = Seq<T>;

    closed spec fn view(&self) -> Seq<T> {
        self.items@
    }
}

impl<T> IntoIter<T> {
    /// A cursor over exactly the given elements.
    pub(crate) fn from_parts(items: Vec<T>) -> (r: Self)
        ensures
            r@ == items@,
    {
        IntoIter { items }
    }

    /// Yields the lowest-index element not yet yielded, or `None` once the
    /// two ends have met.
    pub fn next(&mut self) -> (r: Option<T>)
        ensures
            old(self)@.len() == 0 ==> r is None && final(self)@ == old(self)@,
            old(self)@.len() > 0 ==> r == Some(old(self)@[0]) && final(self)@ == old(
                self,
            )@.drop_first(),
    {
        if self.items.len() == 0 {
            None
        } else {
            let v = self.items.remove(0);
            proof {
                assert(old(self)@.remove(0) =~= old(self)@.drop_first());
            }
            Some(v)
        }
    }

    /// Yields the highest-index element not yet yielded, or `None` once
    /// the two ends have met.
    pub fn next_back(&mut self) -> (r: Option<T>)
        ensures
            old(self)@.len() == 0 ==> r is None && final(self)@ == old(self)@,
            old(self)@.len() > 0 ==> r == Some(old(self)@.last()) && final(self)@ == old(
                self,
            )@.drop_last(),
    {
        self.items.pop()
    }

    /// The exact count of elements still to be yielded, as a lower and
    /// upper bound.
    pub fn size_hint(&self) -> (r: (usize, Option<usize>))
        ensures
            r.0 == self@.len(),
            r.1 == Some(r.0),
    {
        let n = self.items.len();
        (n, Some(n))
    }

    /// Consumes the cursor and reports how many elements were left.
    pub fn count(self) -> (r: usize)
        ensures
            r == self@.len(),
    {
        self.items.len()
    }

    /// Whether the two ends have met.
    pub fn is_empty(&self) -> (r: bool)
        ensures
            r <==> self@.len() == 0,
    {
        self.items.len() == 0
    }

    /// The elements not yet yielded, as a slice in buffer order.
    pub fn as_slice(&self) -> (r: &[T])
        ensures
            r@ == self@,
    {
        self.items.as_slice()
    }

    /// The elements not yet yielded, as an exclusively borrowed slice;
    /// writing through it changes what the cursor will yield, never how
    /// many elements are left.
    pub fn as_mut_slice(&mut self) -> (r: &mut [T])
        ensures
            r@ == old(self)@,
            final(self)@ == final(r)@,
    {
        self.items.as_mut_slice()
    }
}

impl<T: Clone> Clone for IntoIter<T> {
    /// A cursor over clones of the elements not yet yielded; the copy owns
    /// its own storage, so driving one cursor never affects the other.
    fn clone(&self) -> (res: Self)
        ensures
            res@.len() == self@.len(),
            forall|i: int| #![all_triggers] 0 <= i < self@.len() ==> cloned::<T>(self@[i], res@[i]),
    {
        IntoIter { items: self.items.clone() }
    }
}

/// A cursor that owns the elements removed from a half-open range of a
/// container, together with the container's preserved tail; its view is
/// the sequence of removed elements not yet yielded. Disposing of it goes
/// through `finish`, which reattaches the tail exactly once.
pub struct Drain<T> {
    items: Vec<T>,
    tail: Vec<T>,
}

impl<T> View for Drain<T> {
    type V = Seq<T>;

    closed spec fn view(&self) -> Seq<T> {
        self.items@
    }
}

impl<T> Drain<T> {
    /// The elements that sat above the drained range, preserved for
    /// reattachment.
    pub closed spec fn spec_tail(&self) -> Seq<T> {
        self.tail@
    }

    /// A cursor over exactly the given removed elements and preserved
    /// tail.
    pub(crate) fn from_parts(items: Vec<T>, tail: Vec<T>) -> (r: Self)
        ensures
            r@ == items@,
            r.spec_tail() == tail@,
    {
        Drain { items, tail }
    }

    /// Yields the lowest-index removed element not yet yielded, moving it
    /// out, or `None` once the range is exhausted.
    pub fn next(&mut self) -> (r: Option<T>)
        ensures
            final(self).spec_tail() == old(self).spec_tail(),
            old(self)@.len() == 0 ==> r is None && final(self)@ == old(self)@,
            old(self)@.len() > 0 ==> r == Some(old(self)@[0]) && final(self)@ == old(
                self,
            )@.drop_first(),
    {
        if self.items.len() == 0 {
            None
        } else {
            let v = self.items.remove(0);
            proof {
                assert(old(self)@.remove(0) =~= old(self)@.drop_first());
            }
            Some(v)
        }
    }

    /// Yields the highest-index removed element not yet yielded, moving it
    /// out, or `None` once the range is exhausted.
    pub fn next_back(&mut self) -> (r: Option<T>)
        ensures
            final(self).spec_tail() == old(self).spec_tail(),
            old(self)@.len() == 0 ==> r is None && final(self)@ == old(self)@,
            old(self)@.len() > 0 ==> r == Some(old(self)@.last()) && final(self)@ == old(
                self,
            )@.drop_last(),
    {
        self.items.pop()
    }

    /// The exact count of removed elements still to be yielded, as a lower
    /// and upper bound.
    pub fn size_hint(&self) -> (r: (usize, Option<usize>))
        ensures
            r.0 == self@.len(),
            r.1 == Some(r.0),
    {
        let n = self.items.len();
        (n, Some(n))
    }

    /// Whether the range is exhausted.
    pub fn is_empty(&self) -> (r: bool)
        ensures
            r <==> self@.len() == 0,
    {
        self.items.len() == 0
    }

    /// Disposes of the cursor: drops whatever removed elements were never
    /// yielded and moves the preserved tail back onto the end of `source`,
    /// the container the cursor was drained from. However the cursor was
    /// driven — to exhaustion, partway, or not at all — this runs exactly
    /// once, so the tail is never lost and never duplicated.
    pub fn finish(self, source: &mut Vector<T>)
        requires
            old(source)@.len() + self.spec_tail().len() <= usize::MAX,
        ensures
            final(source)@ == old(source)@ + self.spec_tail(),
            final(source).spec_capacity() == spec_grown(
                old(source).spec_capacity(),
                (old(source)@.len() + self.spec_tail().len()) as usize,
            ),
    {
        let Drain { items: _, tail } = self;
        let mut rest = Vector::from_elements(tail);
        source.append(&mut rest);
    }
}

} // verus!
