//! The leftover: the elements that were pulled from the source but never
//! completed a full chunk, exposed as a one-shot forward sequence.

use vstd::prelude::*;

verus! {

/// Owns the slot buffer of an abandoned fill together with the half-open
/// range `[start, end)` of slots that still hold a value.
///
/// `next` claims the filled slots one at a time, in input order, moving each
/// value out and leaving its slot empty; once the range is empty it stays
/// empty, so `next` reports `None` forever after. Whenever the leftover is
/// dropped — untouched, partly consumed, or fully consumed — ownership drops
/// exactly the values still inside the range, each once.
pub struct ConstChunksRemainder<T> {
    /// The slot buffer taken over from the fill that could not complete.
    remainder_chunk: Vec<Option<T>>,
    /// First slot of the filled range; advances by one per claimed element.
    start: usize,
    /// One past the last slot of the filled range.
    end: usize,
}

impl<T> ConstChunksRemainder<T> {
    /// Slots `[start, end)` are filled; every other slot is empty.
    pub closed spec fn wf(self) -> bool {
        &&& self.start <= self.end <= self.remainder_chunk@.len()
        &&& forall|i: int| self.start <= i < self.end ==> self.remainder_chunk@[i] is Some
        &&& forall|i: int| 0 <= i < self.start ==> self.remainder_chunk@[i] is None
        &&& forall|i: int| self.end <= i < self.remainder_chunk@.len() ==> self.remainder_chunk@[i] is None
    }

    /// The not-yet-claimed elements, in input order.
    pub closed spec fn elements(self) -> Seq<T> {
        Seq::new(
            (self.end - self.start) as nat,
            |i: int| self.remainder_chunk@[self.start + i]->0,
        )
    }

    /// Takes over a buffer whose `count` leading slots are filled, together
    /// with cleanup responsibility for the values inside them.
    pub(crate) fn from_parts(remainder_chunk: Vec<Option<T>>, count: usize) -> (rem: Self)
        requires
            count <= remainder_chunk@.len(),
            forall|i: int| 0 <= i < count ==> remainder_chunk@[i] is Some,
            forall|i: int| count <= i < remainder_chunk@.len() ==> remainder_chunk@[i] is None,
        ensures
            rem.wf(),
            rem.elements() == Seq::new(count as nat, |i: int| remainder_chunk@[i]->0),
    {
        let rem = ConstChunksRemainder { remainder_chunk, start: 0, end: count };
        proof {
            assert(rem.elements() =~= Seq::new(count as nat, |i: int| rem.remainder_chunk@[i]->0));
        }
        rem
    }

    /// Claims the next element of the filled range, if any: moves it out of
    /// its slot, leaves the slot empty, and advances the range. Once the
    /// range is empty the answer is `None`, permanently.
    pub fn next(&mut self) -> (item: Option<T>)
        requires
            old(self).wf(),
        ensures
            final(self).wf(),
            old(self).elements().len() == 0 ==> (item is None
                && final(self).elements() == old(self).elements()),
            old(self).elements().len() > 0 ==> (item matches Some(x)
                && x == old(self).elements()[0]
                && final(self).elements() == old(self).elements().drop_first()),
    {
        if self.start < self.end {
            let slot = self.remainder_chunk.remove(self.start);
            self.remainder_chunk.insert(self.start, None);
            let item = slot.unwrap();
            self.start = self.start + 1;
            proof {
                assert(self.remainder_chunk@ =~= old(self).remainder_chunk@.update(
                    old(self).start as int,
                    None,
                ));
                assert(self.elements() =~= old(self).elements().drop_first());
            }
            Some(item)
        } else {
            None
        }
    }
}

} // verus!
