//! The fill guard: tracks how many leading slots of a fixed-capacity buffer
//! hold a value while a chunk is being built, so that responsibility for the
//! placed values can be handed on in one piece.

use vstd::prelude::*;

verus! {

/// A fixed-capacity slot buffer in the middle of being filled, together with
/// a count of how many leading slots already hold a value.
///
/// Each slot is either empty (`None`) or filled (`Some`), and the filled
/// slots are exactly the leading `initialized` ones. The buffer leaves the
/// guard only through [`PanicGuard::into_chunk`] (every slot filled, the
/// chunk takes the values) or [`PanicGuard::into_parts`] (a partial fill is
/// handed on to whoever holds the leftover). A partially filled buffer is
/// therefore never observable as a public value, and every placed value is
/// owned by exactly one holder at any time; if the guard itself is dropped,
/// ownership drops exactly the placed values with it.
pub struct PanicGuard<T> {
    /// The buffer being filled, one slot per future chunk element.
    slice: Vec<Option<T>>,
    /// How many leading slots hold a value.
    initialized: usize,
}

impl<T> PanicGuard<T> {
    /// Slots `[0, initialized)` are filled; slots `[initialized, capacity)` are empty.
    pub closed spec fn wf(self) -> bool {
        &&& self.initialized <= self.slice@.len()
        &&& forall|i: int| 0 <= i < self.initialized ==> self.slice@[i] is Some
        &&& forall|i: int| self.initialized <= i < self.slice@.len() ==> self.slice@[i] is None
    }

    /// Total number of slots.
    pub closed spec fn capacity(self) -> nat {
        self.slice@.len()
    }

    /// Number of leading slots already filled.
    pub closed spec fn filled_count(self) -> nat {
        self.initialized as nat
    }

    /// The values placed so far, in placement order.
    pub closed spec fn filled(self) -> Seq<T> {
        Seq::new(self.initialized as nat, |i: int| self.slice@[i]->0)
    }

    /// Starts a fill over a fresh buffer of `capacity` empty slots.
    pub fn new(capacity: usize) -> (guard: Self)
        ensures
            guard.wf(),
            guard.capacity() == capacity,
            guard.filled_count() == 0,
            guard.filled() == Seq::<T>::empty(),
    {
        let mut slice: Vec<Option<T>> = Vec::new();
        while slice.len() < capacity
            invariant
                slice@.len() <= capacity,
                forall|i: int| 0 <= i < slice@.len() ==> slice@[i] is None,
            decreases capacity - slice@.len(),
        {
            slice.push(None);
        }
        let guard = PanicGuard { slice, initialized: 0 };
        proof {
            assert(guard.filled() =~= Seq::<T>::empty());
        }
        guard
    }

    /// Places `item` into the first empty slot and counts it as filled.
    ///
    /// The guard itself cannot fail; the caller is in charge of never placing
    /// more values than there are slots, which is what the precondition
    /// demands.
    pub fn init_next_unchecked(&mut self, item: T)
        requires
            old(self).wf(),
            old(self).filled_count() < old(self).capacity(),
        ensures
            final(self).wf(),
            final(self).capacity() == old(self).capacity(),
            final(self).filled_count() == old(self).filled_count() + 1,
            final(self).filled() == old(self).filled().push(item),
    {
        self.slice[self.initialized] = Some(item);
        proof {
            broadcast use vstd::std_specs::vec::axiom_spec_len;

            assert(self.slice.len() == self.slice@.len());
        }
        self.initialized = self.initialized + 1;
        proof {
            assert(self.filled() =~= old(self).filled().push(item));
        }
    }

    /// Hands the fully filled buffer out as a complete chunk. This is the
    /// success-path disarm: the chunk now owns every placed value and the
    /// guard is gone.
    pub fn into_chunk(self) -> (chunk: Vec<T>)
        requires
            self.wf(),
            self.filled_count() == self.capacity(),
        ensures
            chunk@ == self.filled(),
    {
        let ghost g = self;
        let PanicGuard { mut slice, initialized } = self;
        let ghost all = slice@;
        let mut chunk: Vec<T> = Vec::new();
        let mut i: usize = 0;
        while i < initialized
            invariant
                i <= initialized,
                initialized == all.len(),
                forall|j: int| 0 <= j < all.len() ==> all[j] is Some,
                slice@ =~= all.skip(i as int),
                chunk@ =~= Seq::new(i as nat, |j: int| all[j]->0),
            decreases initialized - i,
        {
            let slot = slice.remove(0);
            let item = slot.unwrap();
            chunk.push(item);
            i = i + 1;
            proof {
                assert(slice@ =~= all.skip(i as int));
                assert(chunk@ =~= Seq::new(i as nat, |j: int| all[j]->0));
            }
        }
        proof {
            assert(chunk@ =~= g.filled());
        }
        chunk
    }

    /// Hands the buffer and the count of its filled leading slots on, for the
    /// leftover to take over. This is the exhaustion-path disarm: cleanup
    /// responsibility for the placed values moves with the buffer, in one
    /// step, to the new owner.
    pub(crate) fn into_parts(self) -> (parts: (Vec<Option<T>>, usize))
        requires
            self.wf(),
        ensures
            parts.1 == self.filled_count(),
            parts.0@.len() == self.capacity(),
            forall|i: int| 0 <= i < parts.1 ==> parts.0@[i] is Some,
            forall|i: int| parts.1 <= i < parts.0@.len() ==> parts.0@[i] is None,
            Seq::new(parts.1 as nat, |i: int| parts.0@[i]->0) == self.filled(),
    {
        (self.slice, self.initialized)
    }
}

} // verus!
