//! Regrouping a sequence of values into fixed-size chunks.
//!
//! A [`ConstChunks`] producer pulls elements from a source one at a time and
//! yields them as chunks of exactly `chunk_size` elements, in input order.
//! The trailing elements that do not fill a whole chunk become a
//! [`ConstChunksRemainder`], a one-shot forward sequence that the caller may
//! claim through [`ConstChunks::into_remainder`]. While a chunk is being
//! built, a [`PanicGuard`] tracks exactly which slots of the chunk buffer
//! hold a value, so that a partially filled buffer is never observable and
//! ownership of the placed values is handed on in one piece.

use vstd::arithmetic::div_mod::{
    lemma_basic_div, lemma_div_plus_one, lemma_fundamental_div_mod, lemma_mod_pos_bound,
    lemma_mod_sub_multiples_vanish, lemma_small_mod,
};
use vstd::prelude::*;

mod panic_guard;
mod remainder;

pub use panic_guard::PanicGuard;
pub use remainder::ConstChunksRemainder;

verus! {

/// The complete chunks of size `n` that `s` splits into, in input order.
pub open spec fn chunks_of<T>(s: Seq<T>, n: int) -> Seq<Seq<T>>
    decreases s.len() when n >= 1
{
    if s.len() < n {
        Seq::empty()
    } else {
        seq![s.take(n)] + chunks_of(s.skip(n), n)
    }
}

/// The trailing elements of `s` that do not fill a whole chunk of size `n`.
pub open spec fn leftover_of<T>(s: Seq<T>, n: int) -> Seq<T>
    decreases s.len() when n >= 1
{
    if s.len() < n {
        s
    } else {
        leftover_of(s.skip(n), n)
    }
}

/// Law: a source of length `L` splits into exactly `L / n` chunks of exactly
/// `n` elements each — chunk `i` holding elements `[n*i, n*(i+1))` of the
/// source, in input order — while the leftover holds exactly the final
/// `L % n` elements, in input order; in particular the leftover is empty
/// whenever `L` is an exact multiple of `n`.
pub proof fn lemma_chunks_structure<T>(s: Seq<T>, n: int)
    requires
        n >= 1,
    ensures
        chunks_of(s, n).len() == s.len() as int / n,
        forall|i: int| 0 <= i < chunks_of(s, n).len()
            ==> (#[trigger] chunks_of(s, n)[i]).len() == n
                && chunks_of(s, n)[i] == s.subrange(n * i, n * (i + 1)),
        leftover_of(s, n).len() == s.len() as int % n,
        leftover_of(s, n) == s.subrange(s.len() - (s.len() as int % n), s.len() as int),
        s.len() as int % n == 0 ==> leftover_of(s, n) == Seq::<T>::empty(),
    decreases s.len(),
{
    if s.len() < n {
        lemma_basic_div(s.len() as int, n);
        lemma_small_mod(s.len(), n as nat);
        assert(leftover_of(s, n) =~= s.subrange(
            s.len() - (s.len() as int % n),
            s.len() as int,
        ));
        if s.len() as int % n == 0 {
            assert(leftover_of(s, n) =~= Seq::<T>::empty());
        }
    } else {
        let t = s.skip(n);
        lemma_chunks_structure(t, n);
        lemma_div_plus_one(s.len() - n, n);
        lemma_mod_sub_multiples_vanish(s.len() as int, n);
        lemma_mod_pos_bound(s.len() as int, n);
        lemma_fundamental_div_mod(s.len() as int, n);
        let m = s.len() as int % n;
        assert(chunks_of(s, n).len() == s.len() as int / n);
        assert forall|i: int| 0 <= i < chunks_of(s, n).len()
            implies (#[trigger] chunks_of(s, n)[i]).len() == n
                && chunks_of(s, n)[i] == s.subrange(n * i, n * (i + 1)) by {
            assert(n * (i + 1) == n * i + n) by (nonlinear_arith);
            assert(n * (i + 1) <= n * (s.len() as int / n)) by (nonlinear_arith)
                requires
                    n >= 1,
                    i + 1 <= s.len() as int / n,
            ;
            if i == 0 {
                assert(chunks_of(s, n)[0] == s.take(n));
                assert(s.take(n) =~= s.subrange(n * 0, n * (0 + 1)));
            } else {
                assert(chunks_of(s, n)[i] == chunks_of(t, n)[i - 1]);
                assert(n * (i - 1) == n * i - n) by (nonlinear_arith);
                assert(n * i >= n) by (nonlinear_arith)
                    requires
                        n >= 1,
                        i >= 1,
                ;
                assert(chunks_of(t, n)[i - 1] == t.subrange(n * (i - 1), n * ((i - 1) + 1)));
                assert(t.subrange(n * i - n, n * i) =~= s.subrange(n * i, n * (i + 1)));
            }
        }
        assert(leftover_of(s, n) =~= s.subrange(s.len() - m, s.len() as int));
        if m == 0 {
            assert(leftover_of(s, n) =~= Seq::<T>::empty());
        }
    }
}

/// Law: one production step agrees with the model. While at least `n`
/// elements remain, the next chunk ([`ConstChunks::next`] yields the first
/// `n` remaining elements) is the model's first chunk, and the model applied
/// to what then remains accounts for all later chunks and the leftover. Once
/// fewer than `n` elements remain, the model yields no chunk and the
/// remaining elements are exactly the model's leftover.
pub proof fn lemma_chunks_step<T>(s: Seq<T>, n: int)
    requires
        n >= 1,
    ensures
        s.len() >= n ==> chunks_of(s, n) == seq![s.take(n)] + chunks_of(s.skip(n), n)
            && leftover_of(s, n) == leftover_of(s.skip(n), n),
        s.len() < n ==> chunks_of(s, n) == Seq::<Seq<T>>::empty() && leftover_of(s, n) == s,
{
}

/// Law: concatenating the elements of every chunk, in order, and then the
/// leftover's elements reproduces the source sequence exactly.
pub proof fn lemma_chunks_round_trip<T>(s: Seq<T>, n: int)
    requires
        n >= 1,
    ensures
        chunks_of(s, n).flatten() + leftover_of(s, n) == s,
    decreases s.len(),
{
    if s.len() < n {
        assert(chunks_of(s, n).flatten() =~= Seq::<T>::empty());
        assert(chunks_of(s, n).flatten() + leftover_of(s, n) =~= s);
    } else {
        let t = s.skip(n);
        lemma_chunks_round_trip(t, n);
        let cs = chunks_of(s, n);
        assert(cs.first() == s.take(n));
        assert(cs.drop_first() =~= chunks_of(t, n));
        assert(cs.flatten() == cs.first() + cs.drop_first().flatten());
        assert((s.take(n) + chunks_of(t, n).flatten()) + leftover_of(t, n) =~= s.take(n) + (
        chunks_of(t, n).flatten() + leftover_of(t, n)));
        assert(s.take(n) + t =~= s);
        assert(cs.flatten() + leftover_of(s, n) =~= s);
    }
}

/// A producer of fixed-size chunks over a source sequence.
///
/// Each call to [`ConstChunks::next`] pulls up to `chunk_size` elements from
/// the source. While the source can still fill whole chunks the producer is
/// active; the first attempt that runs out of elements mid-fill (or finds the
/// source already empty) moves the producer, permanently, into the exhausted
/// state, parking the pulled elements in the leftover.
pub struct ConstChunks<T> {
    /// The elements not yet pulled from the source, in order.
    inner: Vec<T>,
    /// Number of elements per chunk; always at least one.
    chunk_size: usize,
    /// The leftover, present exactly once the source is exhausted. `None`
    /// while chunks may still be produced.
    remainder: Option<ConstChunksRemainder<T>>,
}

impl<T> ConstChunks<T> {
    /// The chunk size is positive, and once the leftover exists the source is
    /// drained and the leftover is shorter than a chunk.
    pub closed spec fn wf(self) -> bool {
        &&& self.chunk_size >= 1
        &&& (self.remainder matches Some(rem) ==> rem.wf()
            && self.inner@.len() == 0
            && rem.elements().len() < self.chunk_size)
    }

    /// The chunk size fixed at construction.
    pub closed spec fn size(self) -> int {
        self.chunk_size as int
    }

    /// The elements not yet pulled from the source.
    pub closed spec fn remaining(self) -> Seq<T> {
        self.inner@
    }

    /// Whether the first unsuccessful fill attempt has happened.
    pub closed spec fn is_exhausted(self) -> bool {
        self.remainder is Some
    }

    /// The elements held by the leftover (meaningful once exhausted).
    pub closed spec fn leftover_elems(self) -> Seq<T> {
        self.remainder->0.elements()
    }

    /// Builds a producer of `chunk_size`-element chunks over `source`.
    ///
    /// A chunk size of zero is a construction-time error: it is rejected
    /// here, before any element is pulled, for every source.
    pub fn new(source: Vec<T>, chunk_size: usize) -> (producer: Option<ConstChunks<T>>)
        ensures
            producer is Some <==> chunk_size >= 1,
            producer matches Some(p) ==> p.wf()
                && p.size() == chunk_size
                && p.remaining() == source@
                && !p.is_exhausted(),
    {
        if chunk_size == 0 {
            None
        } else {
            Some(ConstChunks { inner: source, chunk_size, remainder: None })
        }
    }

    /// Produces the next chunk, or reports that none is left.
    ///
    /// While at least `chunk_size` elements remain, the next chunk holds
    /// exactly the next `chunk_size` of them, in input order. The first
    /// attempt that cannot fill a chunk pulls every remaining element into
    /// the leftover and exhausts the producer; from then on every call
    /// reports `None` without touching the source.
    #[verifier::loop_isolation(false)]
    pub fn next(&mut self) -> (chunk: Option<Vec<T>>)
        requires
            old(self).wf(),
        ensures
            final(self).wf(),
            final(self).size() == old(self).size(),
            old(self).is_exhausted() ==> (chunk is None && *final(self) == *old(self)),
            (!old(self).is_exhausted() && old(self).remaining().len() >= old(self).size())
                ==> (chunk matches Some(c)
                && c@ == old(self).remaining().take(old(self).size())
                && final(self).remaining() == old(self).remaining().skip(old(self).size())
                && !final(self).is_exhausted()),
            (!old(self).is_exhausted() && old(self).remaining().len() < old(self).size())
                ==> (chunk is None
                && final(self).is_exhausted()
                && final(self).leftover_elems() == old(self).remaining()
                && final(self).remaining().len() == 0),
    {
        if self.remainder.is_some() {
            return None;
        }
        let n = self.chunk_size;
        let ghost src0 = self.inner@;
        let mut guard = PanicGuard::new(n);
        let mut k: usize = 0;
        proof {
            assert(guard.filled() =~= src0.take(0));
            assert(self.inner@ =~= src0.skip(0));
        }
        while k < n
            invariant
                self.chunk_size == n,
                n >= 1,
                self.remainder is None,
                k <= n,
                k <= src0.len(),
                guard.wf(),
                guard.capacity() == n,
                guard.filled_count() == k,
                guard.filled() == src0.take(k as int),
                self.inner@ == src0.skip(k as int),
            decreases n - k,
        {
            if self.inner.len() == 0 {
                let (buf, count) = guard.into_parts();
                let rem = ConstChunksRemainder::from_parts(buf, count);
                proof {
                    assert(src0.take(k as int) =~= src0);
                    assert(rem.elements() =~= src0);
                }
                self.remainder = Some(rem);
                return None;
            }
            let item = self.inner.remove(0);
            guard.init_next_unchecked(item);
            k = k + 1;
            proof {
                assert(self.inner@ =~= src0.skip(k as int));
                assert(guard.filled() =~= src0.take(k as int));
            }
        }
        let chunk = guard.into_chunk();
        Some(chunk)
    }

    /// Consumes the producer and yields the leftover: `Some` once the source
    /// is exhausted (possibly holding no elements, when exhaustion fell
    /// exactly on a chunk boundary), `None` if asked before exhaustion,
    /// since no leftover has been produced yet.
    pub fn into_remainder(self) -> (rem: Option<ConstChunksRemainder<T>>)
        requires
            self.wf(),
        ensures
            self.is_exhausted() ==> (rem matches Some(r)
                && r.wf()
                && r.elements() == self.leftover_elems()),
            !self.is_exhausted() ==> rem is None,
    {
        self.remainder
    }

    /// Lower and upper bound on the number of chunks still to come. The
    /// source's length is known exactly, so the two bounds agree.
    pub fn size_hint(&self) -> (bounds: (usize, Option<usize>))
        requires
            self.wf(),
        ensures
            bounds.0 == self.remaining().len() as int / self.size(),
            bounds.1 == Some(bounds.0),
    {
        let lower = self.inner.len() / self.chunk_size;
        (lower, Some(lower))
    }

    /// Exact number of chunks still to come.
    pub fn len(&self) -> (count: usize)
        requires
            self.wf(),
        ensures
            count == self.remaining().len() as int / self.size(),
    {
        self.inner.len() / self.chunk_size
    }
}

/// The capability to attach chunking to a forward-pullable source of
/// elements, parameterized by a positive chunk size.
pub trait IteratorConstChunks: Sized {
    /// Element type of the source.
    type Item;

    /// The elements the source will yield, in order.
    spec fn source_seq(&self) -> Seq<Self::Item>;

    /// Consumes the source and returns a producer of `chunk_size`-element
    /// chunks over it. The chunk size must be positive; see
    /// [`ConstChunks::new`] for the checked form of construction.
    fn const_chunks(self, chunk_size: usize) -> (producer: ConstChunks<Self::Item>)
        requires
            chunk_size >= 1,
        ensures
            producer.wf(),
            producer.size() == chunk_size,
            producer.remaining() == self.source_seq(),
            !producer.is_exhausted(),
    ;
}

impl<T> IteratorConstChunks for Vec<T> {
    type Item = T;

    open spec fn source_seq(&self) -> Seq<T> {
        self@
    }

    fn const_chunks(self, chunk_size: usize) -> (producer: ConstChunks<T>) {
        ConstChunks { inner: self, chunk_size, remainder: None }
    }
}

} // verus!
