//! The chunking adapter itself: a fixed-capacity buffer of live elements
//! that fills from a source and empties one full group at a time.

use crate::source::Source;
use vstd::arithmetic::div_mod::lemma_div_is_ordered;
use vstd::pervasive::cloned;
use vstd::prelude::*;

verus! {

/// Whether one advance that starts with the buffered prefix `buf` and the
/// source elements `rem` collects enough elements to complete a group of `n`.
pub open spec fn advance_completes<T>(buf: Seq<T>, rem: Seq<T>, n: nat) -> bool {
    buf.len() + rem.len() >= n
}

/// The group that a completing advance produces: the buffered prefix followed
/// by exactly the source elements needed to reach `n`.
pub open spec fn advance_group<T>(buf: Seq<T>, rem: Seq<T>, n: nat) -> Seq<T> {
    buf + rem.take(n - buf.len())
}

/// The buffered prefix after one advance: empty when a group completed,
/// otherwise everything the exhausted source had left to give.
pub open spec fn advance_buffered<T>(buf: Seq<T>, rem: Seq<T>, n: nat) -> Seq<T> {
    if advance_completes(buf, rem, n) {
        Seq::empty()
    } else {
        buf + rem
    }
}

/// The source elements still to come after one advance.
pub open spec fn advance_upcoming<T>(buf: Seq<T>, rem: Seq<T>, n: nat) -> Seq<T> {
    if advance_completes(buf, rem, n) {
        rem.skip(n - buf.len())
    } else {
        Seq::empty()
    }
}

/// Groups the elements of a source into groups of exactly `N`, in order,
/// holding a partially filled group in a buffer of live elements until the
/// source has yielded enough to complete it.
///
/// The buffer conceptually has `N` slots; the elements held in `live` are the
/// live slots `[0, filled)`, and the slots `[filled, N)` hold no value at all.
/// `filled` never exceeds `N`, and no operation ever reads past it. Because
/// the buffer owns exactly its live elements, destroying the adapter — on any
/// exit path — releases exactly the values at `[0, filled)` and nothing else.
pub struct ArrayChunks<I, T, const N: usize> {
    source: I,
    live: Vec<T>,
    produced: Ghost<Seq<T>>,
}

impl<I: Source<T>, T, const N: usize> ArrayChunks<I, T, N> {
    /// The live buffered elements, in slot order.
    pub closed spec fn buffered(&self) -> Seq<T> {
        self.live@
    }

    /// How many leading slots hold a live element.
    pub open spec fn filled(&self) -> nat {
        self.buffered().len()
    }

    /// The elements the wrapped source will still yield.
    pub open spec fn upcoming(&self) -> Seq<T> {
        self.src().remaining()
    }

    /// The wrapped source.
    pub closed spec fn src(&self) -> I {
        self.source
    }

    /// The concatenation, in production order, of every group produced so far.
    pub closed spec fn emitted(&self) -> Seq<T> {
        self.produced@
    }

    /// Every element this adapter accounts for: what it has already handed
    /// out in groups, what sits live in the buffer, and what the source has
    /// yet to yield. Every operation preserves this sequence, which is how
    /// the adapter neither loses nor duplicates elements.
    pub open spec fn total(&self) -> Seq<T> {
        self.emitted() + self.buffered() + self.upcoming()
    }

    /// The central soundness invariant: the live prefix fits in the `N` slots.
    pub open spec fn wf(&self) -> bool {
        self.filled() <= N
    }

    /// Creates a new adapter over the given source, with all slots empty.
    pub fn new(source: I) -> (r: Self)
        ensures
            r.wf(),
            r.filled() == 0,
            r.emitted() == Seq::<T>::empty(),
            r.upcoming() == source.remaining(),
            r.src() == source,
            r.total() == source.remaining(),
    {
        let r = ArrayChunks { source, live: Vec::new(), produced: Ghost(Seq::empty()) };
        proof {
            assert(r.total() =~= r.upcoming());
        }
        r
    }

    /// The live values at `[0, filled)`, in order, without moving or copying
    /// them: the elements left over once the source is exhausted.
    pub fn remainder(&self) -> (r: &[T])
        ensures
            r@ == self.buffered(),
    {
        self.live.as_slice()
    }

    /// Attempts to produce the next group: pulls elements from the source
    /// into the empty slots, in order, until the group of `N` is complete or
    /// the source is exhausted.
    ///
    /// When the group completes, all `N` live elements are handed out in slot
    /// order and the buffer is reset to empty in the same step; the source
    /// has advanced past exactly the elements taken. When the source runs out
    /// first, the call returns `None`, the elements pulled so far stay live
    /// in the buffer, and every later call keeps answering `None` while the
    /// source stays exhausted.
    #[verifier::loop_isolation(false)]
    pub fn next(&mut self) -> (r: Option<Vec<T>>)
        requires
            old(self).wf(),
        ensures
            final(self).wf(),
            final(self).total() == old(self).total(),
            final(self).buffered() == advance_buffered(
                old(self).buffered(),
                old(self).upcoming(),
                N as nat,
            ),
            final(self).upcoming() == advance_upcoming(
                old(self).buffered(),
                old(self).upcoming(),
                N as nat,
            ),
            advance_completes(old(self).buffered(), old(self).upcoming(), N as nat) ==> ({
                &&& r matches Some(g)
                &&& g@ == advance_group(old(self).buffered(), old(self).upcoming(), N as nat)
                &&& g@.len() == N
                &&& final(self).emitted() == old(self).emitted() + g@
            }),
            !advance_completes(old(self).buffered(), old(self).upcoming(), N as nat) ==> ({
                &&& r is None
                &&& final(self).emitted() == old(self).emitted()
                &&& final(self).filled() == old(self).filled() + old(self).upcoming().len()
                &&& final(self).filled() < N
            }),
    {
        let ghost buf0 = self.live@;
        let ghost rem0 = self.source.remaining();
        let ghost prod0 = self.produced@;
        while self.live.len() < N
            invariant
                self.live@.len() <= N,
                buf0.len() <= self.live@.len(),
                self.live@.len() - buf0.len() <= rem0.len(),
                self.live@ == buf0 + rem0.take(self.live@.len() - buf0.len()),
                self.source.remaining() == rem0.skip(self.live@.len() - buf0.len()),
                self.produced@ == prod0,
            decreases N - self.live.len(),
        {
            let ghost pulled = self.live@.len() - buf0.len();
            match self.source.pull() {
                Some(x) => {
                    self.live.push(x);
                    proof {
                        assert(rem0.take(pulled + 1) =~= rem0.take(pulled).push(rem0[pulled]));
                        assert(rem0.skip(pulled).drop_first() =~= rem0.skip(pulled + 1));
                        assert(self.live@ == buf0 + rem0.take(pulled + 1));
                    }
                },
                None => {
                    proof {
                        assert(rem0.take(pulled) =~= rem0);
                        assert(self.source.remaining() =~= Seq::<T>::empty());
                        assert(self.total() =~= old(self).total());
                    }
                    return None;
                },
            }
        }
        let ghost need = N - buf0.len();
        let mut group: Vec<T> = Vec::new();
        core::mem::swap(&mut group, &mut self.live);
        proof {
            self.produced@ = prod0 + group@;
        }
        proof {
            assert(rem0.take(need) + rem0.skip(need) =~= rem0);
            assert(self.total() =~= old(self).total());
        }
        Some(group)
    }

    /// A lower bound, and when known an upper bound, on how many more full
    /// groups this adapter can still produce: an allocation hint, not a
    /// guarantee, derived from the source's own element bounds.
    pub fn size_hint(&self) -> (r: (usize, Option<usize>))
        requires
            N > 0,
        ensures
            r.0 <= (self.filled() + self.upcoming().len()) as int / N as int,
            r.1 matches Some(u) ==> (self.filled() + self.upcoming().len()) as int / N as int
                <= u,
    {
        let (lower, upper) = self.source.size_hint();
        let r = chunk_bounds(lower, upper, self.live.len(), N);
        proof {
            let have = (self.filled() + self.upcoming().len()) as int;
            if lower + self.filled() <= usize::MAX {
                lemma_div_is_ordered(lower + self.filled() as int, have, N as int);
            } else {
                lemma_div_is_ordered(usize::MAX as int, have, N as int);
            }
            if r.1 is Some {
                let u = upper.unwrap() as int;
                lemma_div_is_ordered(have, u + self.filled(), N as int);
            }
        }
        r
    }
}

/// How many full groups of `n` can still be formed from a source holding
/// between `lower` and `upper` more elements, once the `filled` elements
/// already buffered are counted in. The lower bound saturates instead of
/// overflowing; the upper bound is dropped when it is unknown or when
/// counting the buffered elements in would overflow.
pub fn chunk_bounds(lower: usize, upper: Option<usize>, filled: usize, n: usize) -> (r: (
    usize,
    Option<usize>,
))
    requires
        n > 0,
    ensures
        lower + filled <= usize::MAX ==> r.0 == (lower + filled) as int / n as int,
        lower + filled > usize::MAX ==> r.0 == usize::MAX as int / n as int,
        upper is None ==> r.1 is None,
        upper matches Some(u) ==> ({
            &&& u + filled <= usize::MAX ==> ({
                &&& r.1 matches Some(m)
                &&& m == (u + filled) as int / n as int
            })
            &&& u + filled > usize::MAX ==> r.1 is None
        }),
{
    let low_sum = if lower <= usize::MAX - filled {
        lower + filled
    } else {
        usize::MAX
    };
    let min_groups = low_sum / n;
    let max_groups = match upper {
        Some(u) => if u <= usize::MAX - filled {
            Some((u + filled) / n)
        } else {
            None
        },
        None => None,
    };
    (min_groups, max_groups)
}

impl<I: Source<T> + Clone, T: Clone, const N: usize> Clone for ArrayChunks<I, T, N> {
    /// Duplicates the adapter: the source is duplicated so the two advance
    /// independently afterwards, and exactly the live elements at
    /// `[0, filled)` are cloned element by element into the new buffer,
    /// whose unfilled slots start genuinely empty.
    fn clone(&self) -> (res: Self)
        ensures
            self.wf() ==> res.wf(),
            res.filled() == self.filled(),
            forall|i: int|
                0 <= i < self.filled() ==> cloned::<T>(self.buffered()[i], res.buffered()[i]),
            cloned::<I>(self.src(), res.src()),
            res.emitted() == self.emitted(),
    {
        ArrayChunks {
            source: self.source.clone(),
            live: self.live.clone(),
            produced: Ghost(self.produced@),
        }
    }
}

} // verus!
