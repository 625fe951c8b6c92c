//! Growth policy for the backing buffer.
//!
//! The container grows geometrically: when a buffer of capacity `cap` is
//! full, the next capacity is the larger of the amount actually needed and
//! twice the current capacity, and growth from a zero capacity always yields
//! a capacity of at least one slot.

use vstd::prelude::*;

verus! {

/// Twice `cap`, saturating at the largest representable count, and at least 1.
///
/// This is the capacity after an unconditional doubling of a full buffer.
pub open spec fn spec_doubled(cap: usize) -> usize {
    if cap == 0 {
        1usize
    } else if cap <= usize::MAX / 2 {
        (2 * cap) as usize
    } else {
        usize::MAX
    }
}

/// The capacity after an amortized growth step: at least `needed`, and at
/// least double the current capacity when the buffer is already non-empty.
pub open spec fn spec_grown(cap: usize, needed: usize) -> usize {
    if needed <= cap {
        cap
    } else if cap == 0 {
        needed
    } else if needed >= spec_doubled(cap) {
        needed
    } else {
        spec_doubled(cap)
    }
}

/// The capacity after an exact growth step: grow to exactly `needed` when
/// that exceeds the current capacity, otherwise keep the buffer as it is.
pub open spec fn spec_grown_exact(cap: usize, needed: usize) -> usize {
    if needed <= cap {
        cap
    } else {
        needed
    }
}

/// Unconditional capacity doubling, with a minimum of one slot on the first
/// growth from a zero capacity.
pub fn doubled(cap: usize) -> (r: usize)
    ensures
        r == spec_doubled(cap),
        r >= cap,
        cap < usize::MAX ==> r > cap,
{
    if cap == 0 {
        1
    } else if cap <= usize::MAX / 2 {
        2 * cap
    } else {
        usize::MAX
    }
}

/// The amortized growth step used by `reserve`.
pub fn grown(cap: usize, needed: usize) -> (r: usize)
    ensures
        r == spec_grown(cap, needed),
        r >= cap,
        r >= needed,
{
    if needed <= cap {
        cap
    } else if cap == 0 {
        needed
    } else {
        let twice = doubled(cap);
        if needed >= twice {
            needed
        } else {
            twice
        }
    }
}

/// Whether `n` is a power of two.
pub open spec fn spec_is_power_of_two(n: nat) -> bool
    decreases n,
{
    if n == 1 {
        true
    } else if n < 1 || n % 2 != 0 {
        false
    } else {
        spec_is_power_of_two(n / 2)
    }
}

/// The smallest power of two that can hold `n` elements.
///
/// The result is the unique power of two in `[n, 2*n)`, or 1 when `n <= 1`.
pub fn next_power_of_two(n: usize) -> (r: usize)
    requires
        n <= usize::MAX / 2 + 1,
    ensures
        spec_is_power_of_two(r as nat),
        r >= n,
        n <= 1 ==> r == 1,
        n > 1 ==> r < 2 * n,
{
    let mut cap: usize = 1;
    while cap < n
        invariant
            n <= usize::MAX / 2 + 1,
            1 <= cap,
            spec_is_power_of_two(cap as nat),
            cap == 1 || cap / 2 < n,
            cap < n ==> cap <= usize::MAX / 2,
        decreases 2 * n - cap,
    {
        cap = 2 * cap;
    }
    cap
}

} // verus!
