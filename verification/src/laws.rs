//! Laws the container obeys, stated over the sequences that the operation
//! contracts speak of, and proved once for all element types.
//!
//! The container's view after `push_front(x)` is `old.push(x)`; after
//! `pop_front` it is `old.drop_last()`, with `old.last()` returned; after
//! `push_back`/`enqueue(x)` it is `seq![x] + old`. The laws below are
//! phrased over exactly those sequence operations.

use vstd::prelude::*;

use crate::vector::masked;

verus! {

/// The state of a container that started at `q` after every element of
/// `xs` has been enqueued in order (each one prepended at the back).
pub open spec fn enqueued<T>(q: Seq<T>, xs: Seq<T>) -> Seq<T>
    decreases xs.len(),
{
    if xs.len() == 0 {
        q
    } else {
        enqueued(seq![xs.first()] + q, xs.drop_first())
    }
}

/// Enqueuing lays the arrivals out in reverse: the earliest arrival ends
/// at the highest index, right where `dequeue` takes elements from.
pub proof fn lemma_enqueued_reverses<T>(q: Seq<T>, xs: Seq<T>)
    ensures
        enqueued(q, xs) == xs.reverse() + q,
    decreases xs.len(),
{
    if xs.len() == 0 {
        assert(xs.reverse() + q =~= q);
    } else {
        lemma_enqueued_reverses(seq![xs.first()] + q, xs.drop_first());
        assert(xs.drop_first().reverse() + (seq![xs.first()] + q) =~= xs.reverse() + q);
    }
}

/// LIFO law: push the elements of `xs` in order onto a stack holding `s`
/// (state `s + xs`) and pop repeatedly. After `k` pops the stack holds
/// the first `s.len() + xs.len() - k` elements, so the `k`-th pop (counted
/// from 0) returns `xs[xs.len() - 1 - k]`: the pushed elements come back
/// newest first, and after all of them the stack holds `s` again.
pub proof fn lemma_stack_lifo<T>(s: Seq<T>, xs: Seq<T>)
    ensures
        forall|k: int|
            0 <= k < xs.len() ==> #[trigger] (s + xs).subrange(
                0,
                s.len() + xs.len() - k,
            ).last() == xs[xs.len() - 1 - k],
        (s + xs).subrange(0, s.len() as int) == s,
{
    assert forall|k: int| 0 <= k < xs.len() implies #[trigger] (s + xs).subrange(
        0,
        s.len() + xs.len() - k,
    ).last() == xs[xs.len() - 1 - k] by {
        assert((s + xs).subrange(0, s.len() + xs.len() - k).last() == (s + xs)[s.len() + xs.len()
            - k - 1]);
    }
    assert((s + xs).subrange(0, s.len() as int) =~= s);
}

/// FIFO law: enqueue the elements of `xs` in order onto an empty
/// container and dequeue repeatedly. After `k` dequeues the container
/// holds the first `xs.len() - k` elements of the enqueued state, so the
/// `k`-th dequeue (counted from 0) returns `xs[k]`: elements leave in
/// arrival order.
pub proof fn lemma_queue_fifo<T>(xs: Seq<T>)
    ensures
        forall|k: int|
            0 <= k < xs.len() ==> #[trigger] enqueued(Seq::<T>::empty(), xs).subrange(
                0,
                xs.len() - k,
            ).last() == xs[k],
{
    lemma_enqueued_reverses(Seq::<T>::empty(), xs);
    assert(enqueued(Seq::<T>::empty(), xs) =~= xs.reverse());
    assert forall|k: int| 0 <= k < xs.len() implies #[trigger] enqueued(
        Seq::<T>::empty(),
        xs,
    ).subrange(0, xs.len() - k).last() == xs[k] by {
        assert(xs.reverse().subrange(0, xs.len() - k).last() == xs.reverse()[xs.len() - k - 1]);
        assert(xs.reverse()[xs.len() - k - 1] == xs[k]);
    }
}

/// Round-trip law: `split_off(at)` leaves `s.subrange(0, at)` and returns
/// `s.subrange(at, s.len())`; appending the returned piece back onto the
/// remainder reconstructs `s` exactly, for any `0 <= at <= s.len()`.
pub proof fn lemma_split_append_round_trip<T>(s: Seq<T>, at: int)
    requires
        0 <= at <= s.len(),
    ensures
        s.subrange(0, at) + s.subrange(at, s.len() as int) == s,
{
    assert(s.subrange(0, at) + s.subrange(at, s.len() as int) =~= s);
}

/// No-op law for `truncate`: truncating to the current length keeps the
/// sequence unchanged.
pub proof fn lemma_truncate_noop<T>(s: Seq<T>)
    ensures
        s.subrange(0, s.len() as int) == s,
{
    assert(s.subrange(0, s.len() as int) =~= s);
}

/// No-op law for `retain`: when the mask keeps every position — as it
/// must when the predicate can only return `true` — the kept subsequence
/// is the whole sequence, unchanged in content, order and length.
pub proof fn lemma_retain_all_kept<T>(s: Seq<T>, keep: Seq<bool>)
    requires
        keep.len() == s.len(),
        forall|i: int| 0 <= i < keep.len() ==> keep[i],
    ensures
        masked(s, keep) == s,
    decreases s.len(),
{
    if s.len() == 0 {
        assert(masked(s, keep) =~= s);
    } else {
        lemma_retain_all_kept(s.drop_last(), keep.drop_last());
        assert(masked(s, keep) == masked(s.drop_last(), keep.drop_last()).push(s.last()));
        assert(s.drop_last().push(s.last()) =~= s);
    }
}

/// Drain round-trip law: removing `[start, end)` from `s` and reattaching
/// the preserved tail — which is what disposing of the draining cursor
/// does, even when none of its elements were consumed — leaves exactly the
/// elements of `s` outside the range, each in its original relative
/// position.
pub proof fn lemma_drain_round_trip<T>(s: Seq<T>, start: int, end: int)
    requires
        0 <= start <= end <= s.len(),
    ensures
        (s.subrange(0, start) + s.subrange(end, s.len() as int)).len() == s.len() - (end - start),
        forall|i: int|
            0 <= i < start ==> (s.subrange(0, start) + s.subrange(end, s.len() as int))[i] == s[i],
        forall|i: int|
            start <= i < s.len() - (end - start) ==> (s.subrange(0, start) + s.subrange(
                end,
                s.len() as int,
            ))[i] == s[i + (end - start)],
{
}

/// Clone-independence law, for element types whose clone call returns its
/// input exactly (every integer does): the clone's view equals the
/// original's, and since the two containers own disjoint storage, every
/// later operation on one is a function of that container's view alone
/// and leaves the other untouched.
pub proof fn lemma_exact_clone_equal<T: Clone>(a: Seq<T>, b: Seq<T>)
    requires
        a.len() == b.len(),
        forall|i: int| 0 <= i < a.len() ==> cloned::<T>(a[i], #[trigger] b[i]),
        forall|x: T, y: T| #[trigger] call_ensures(T::clone, (&x,), y) ==> y == x,
    ensures
        a == b,
{
    assert forall|i: int| 0 <= i < a.len() implies a[i] == b[i] by {
        assert(cloned::<T>(a[i], b[i]));
    }
    assert(a =~= b);
}

} // verus!
