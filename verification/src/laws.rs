//! The laws the adapter obeys, stated over its abstract model and proved.

use crate::chunks::advance_buffered;
use crate::chunks::advance_completes;
use crate::chunks::advance_group;
use crate::chunks::advance_upcoming;
use crate::chunks::ArrayChunks;
use crate::source::Source;
use vstd::prelude::*;

verus! {

/// Invariant preservation: a well-formed adapter never holds more than `N`
/// live elements, and only the leading `filled()` slots are live at all —
/// `buffered()` is exactly their contents. Every operation of the adapter
/// (`new`, `next`, `clone`) ensures `wf`, so this bound holds at every
/// observable point.
pub proof fn lemma_invariant_bound<I: Source<T>, T, const N: usize>(b: &ArrayChunks<I, T, N>)
    requires
        b.wf(),
    ensures
        b.filled() <= N,
        b.buffered().len() == b.filled(),
{
}

/// No element loss or duplication: once the source is exhausted, the groups
/// emitted so far, in production order, followed by the buffered remainder
/// make up exactly `total()` — and `total()` is the source's original element
/// sequence, because `new` starts it as exactly that and every `next`
/// preserves it.
pub proof fn lemma_no_loss<I: Source<T>, T, const N: usize>(b: &ArrayChunks<I, T, N>)
    requires
        b.upcoming().len() == 0,
    ensures
        b.total() == b.emitted() + b.buffered(),
{
    assert(b.total() =~= b.emitted() + b.buffered());
}

/// Degenerate group size zero: when `n == 0` and the buffer is empty (as
/// `wf` forces for `N == 0`), an advance always completes, produces the
/// empty group, leaves the buffer empty, and leaves the source untouched.
pub proof fn lemma_degenerate_empty_group<T>(buf: Seq<T>, rem: Seq<T>)
    requires
        buf.len() == 0,
    ensures
        advance_completes(buf, rem, 0),
        advance_group(buf, rem, 0) == Seq::<T>::empty(),
        advance_buffered(buf, rem, 0) == Seq::<T>::empty(),
        advance_upcoming(buf, rem, 0) == rem,
{
    assert(advance_group(buf, rem, 0) =~= Seq::<T>::empty());
    assert(advance_buffered(buf, rem, 0) =~= Seq::<T>::empty());
    assert(rem.skip(0) =~= rem);
}

/// Exhaustion is stable, not an error: an advance that completes no group
/// leaves a state in which a further advance completes no group either and
/// changes neither the buffered prefix nor the (exhausted) source.
pub proof fn lemma_exhaustion_is_stable<T>(buf: Seq<T>, rem: Seq<T>, n: nat)
    requires
        !advance_completes(buf, rem, n),
    ensures
        ({
            let buf2 = advance_buffered(buf, rem, n);
            let rem2 = advance_upcoming(buf, rem, n);
            &&& !advance_completes(buf2, rem2, n)
            &&& advance_buffered(buf2, rem2, n) == buf2
            &&& advance_upcoming(buf2, rem2, n) == rem2
        }),
{
    let buf2 = advance_buffered(buf, rem, n);
    let rem2 = advance_upcoming(buf, rem, n);
    assert(advance_buffered(buf2, rem2, n) =~= buf2);
}

/// The abstract state — buffered prefix and upcoming source elements — after
/// `k` advances of a group size `n` adapter that starts with buffer `buf`
/// and source elements `rem`. This is exactly the transition that `next`'s
/// contract states, iterated.
pub open spec fn run<T>(buf: Seq<T>, rem: Seq<T>, n: nat, k: nat) -> (Seq<T>, Seq<T>)
    decreases k,
{
    if k == 0 {
        (buf, rem)
    } else {
        let prev = run(buf, rem, n, (k - 1) as nat);
        (advance_buffered(prev.0, prev.1, n), advance_upcoming(prev.0, prev.1, n))
    }
}

/// While full groups remain, each advance empties the buffer and moves the
/// source forward by exactly `n` elements.
proof fn lemma_run_full_groups<T>(src: Seq<T>, n: nat, q: nat, r: nat, k: nat)
    requires
        n > 0,
        src.len() == q * n + r,
        r < n,
        k <= q,
    ensures
        run(Seq::<T>::empty(), src, n, k).0 == Seq::<T>::empty(),
        run(Seq::<T>::empty(), src, n, k).1 == src.skip((k * n) as int),
        k * n <= src.len(),
    decreases k,
{
    assert(k * n <= q * n) by (nonlinear_arith)
        requires
            k <= q,
            n > 0,
    ;
    if k == 0 {
        assert(k * n == 0) by (nonlinear_arith)
            requires
                k == 0,
        ;
        assert(src.skip(0) =~= src);
    } else {
        lemma_run_full_groups(src, n, q, r, (k - 1) as nat);
        let prev = run(Seq::<T>::empty(), src, n, (k - 1) as nat);
        assert((k - 1) * n + n == k * n) by (nonlinear_arith);
        assert(prev.1.len() == src.len() - (k - 1) * n);
        assert(advance_completes(prev.0, prev.1, n));
        assert(advance_buffered(prev.0, prev.1, n) =~= Seq::<T>::empty());
        assert(prev.1.skip(n as int) =~= src.skip((k * n) as int));
    }
}

/// Count correctness: an adapter of group size `n` over a source of exactly
/// `q * n + r` elements (`0 <= r < n`) completes a group on each of its
/// first `q` advances — the group of advance `k` being exactly the source
/// elements `[k*n, (k+1)*n)` — and on the advance after that no group
/// completes and the buffered remainder is exactly the last `r` source
/// elements, in their original order.
pub proof fn lemma_count_correctness<T>(src: Seq<T>, n: nat, q: nat, r: nat, k: nat)
    requires
        n > 0,
        src.len() == q * n + r,
        r < n,
    ensures
        k < q ==> ({
            let s = run(Seq::<T>::empty(), src, n, k);
            &&& advance_completes(s.0, s.1, n)
            &&& advance_group(s.0, s.1, n) == src.subrange((k * n) as int, (k * n + n) as int)
        }),
        ({
            let s = run(Seq::<T>::empty(), src, n, q);
            &&& !advance_completes(s.0, s.1, n)
            &&& advance_buffered(s.0, s.1, n) == src.skip((q * n) as int)
            &&& advance_buffered(s.0, s.1, n).len() == r
        }),
{
    if k < q {
        lemma_run_full_groups(src, n, q, r, k);
        let s = run(Seq::<T>::empty(), src, n, k);
        assert(k * n + n <= q * n) by (nonlinear_arith)
            requires
                k < q,
                n > 0,
        ;
        assert(s.1.len() == src.len() - k * n);
        assert(advance_group(s.0, s.1, n) =~= src.subrange((k * n) as int, (k * n + n) as int));
    }
    lemma_run_full_groups(src, n, q, r, q);
    let s = run(Seq::<T>::empty(), src, n, q);
    assert(s.1.len() == r);
    assert(advance_buffered(s.0, s.1, n) =~= src.skip((q * n) as int));
}

} // verus!
