//! A growable, contiguous sequence container with a distinctive front/back
//! convention: the *front* is the high-index end of the buffer (the cheap
//! end to grow), and the *back* is index 0 (the end that needs a full
//! shift). Stack behavior routes through the `*_front` operations; queue
//! behavior enqueues at the back and dequeues at the front.

pub mod capacity;
pub mod cursors;
pub mod laws;
pub mod vector;

pub use cursors::Drain;
pub use cursors::IntoIter;
pub use vector::from_elem;
pub use vector::Vector;

use vstd::prelude::*;

verus! {

/// Builds a container that takes over the elements of `slice`, with the
/// capacity equal to its length.
pub fn slice_to_vector<T>(slice: Vec<T>) -> (r: Vector<T>)
    ensures
        r@ == slice@,
        r.spec_capacity() == slice@.len(),
{
    Vector::from_elements(slice)
}

} // verus!
