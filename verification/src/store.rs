//! A bounded, ordered store of leaves with a capacity fixed at creation.

use vstd::prelude::*;
use crate::error::MerkleError;
use crate::word::{zero_encoding, Word};

verus! {

/// A fixed number of slots, of which the first `leaf_count()` hold the stored
/// leaves.
///
/// The view is the sequence of stored leaves. The number of slots never
/// changes, and the number of stored leaves never exceeds it.
pub struct LeafStore {
    slots: Vec<Word>,
    count: usize,
}

impl View for LeafStore {
    type V = Seq<Word>;

    closed spec fn view(&self) -> Seq<Word> {
        self.slots@.take(self.count as int)
    }
}

impl LeafStore {
    #[verifier::type_invariant]
    spec fn count_within_capacity(self) -> bool {
        self.count <= self.slots@.len()
    }

    /// The contents of every slot, stored or not.
    pub closed spec fn slots(self) -> Seq<Word> {
        self.slots@
    }

    /// The number of slots.
    pub open spec fn capacity(self) -> nat {
        self.slots().len()
    }

    /// A store of `capacity` slots, all zero, with no leaf stored.
    pub fn new(capacity: usize) -> (store: LeafStore)
        ensures
            store.capacity() == capacity,
            store@.len() == 0,
            forall|i: int| 0 <= i < capacity ==> (#[trigger] store.slots()[i])@ == zero_encoding(),
    {
        let mut slots: Vec<Word> = Vec::with_capacity(capacity);
        let mut i: usize = 0;
        while i < capacity
            invariant
                i <= capacity,
                slots@.len() == i,
                forall|j: int| 0 <= j < i ==> (#[trigger] slots@[j])@ == zero_encoding(),
            decreases capacity - i,
        {
            slots.push(Word::zero());
            i += 1;
        }
        LeafStore { slots, count: 0 }
    }

    /// The number of slots.
    pub fn max_leaves(&self) -> (n: usize)
        ensures
            n == self.capacity(),
    {
        self.slots.len()
    }

    /// The number of stored leaves, which is at most the capacity.
    pub fn leaf_count(&self) -> (n: usize)
        ensures
            n == self@.len(),
            n <= self.capacity(),
            self@ == self.slots().take(n as int),
    {
        proof {
            use_type_invariant(self);
        }
        self.count
    }

    /// Replaces the stored leaves by `values`.
    ///
    /// Fails with `CapacityExceeded` exactly when there are more values than
    /// slots, and then changes nothing. Otherwise the values fill the first
    /// slots in order, and the slots behind them keep their contents.
    pub fn set_leaves(&mut self, values: &[Word]) -> (result: Result<(), MerkleError>)
        ensures
            values@.len() > old(self).capacity() ==> {
                &&& result == Err::<(), MerkleError>(MerkleError::CapacityExceeded)
                &&& *final(self) == *old(self)
            },
            values@.len() <= old(self).capacity() ==> {
                &&& result is Ok
                &&& final(self)@ == values@
                &&& final(self).capacity() == old(self).capacity()
                &&& final(self).slots() == values@ + old(self).slots().skip(values@.len() as int)
            },
    {
        let n = values.len();
        if n > self.slots.len() {
            return Err(MerkleError::CapacityExceeded);
        }
        proof {
            use_type_invariant(&*self);
        }
        let mut i: usize = 0;
        while i < n
            invariant
                n == values@.len(),
                n <= self.slots@.len(),
                i <= n,
                self.count == old(self).count,
                self.count <= self.slots@.len(),
                self.slots@.len() == old(self).slots@.len(),
                self.slots@ == values@.take(i as int) + old(self).slots@.skip(i as int),
            decreases n - i,
        {
            self.slots[i] = values[i];
            i += 1;
            assert(self.slots@ =~= values@.take(i as int) + old(self).slots@.skip(i as int));
        }
        self.count = n;
        assert(self@ =~= values@);
        Ok(())
    }

    /// The stored leaf at `index`.
    ///
    /// Fails with `IndexOutOfRange` exactly when `index` is not below the
    /// number of stored leaves.
    pub fn get_leaf(&self, index: usize) -> (result: Result<Word, MerkleError>)
        ensures
            index < self@.len() ==> result == Ok::<Word, MerkleError>(self@[index as int]),
            index >= self@.len() ==> result == Err::<Word, MerkleError>(MerkleError::IndexOutOfRange),
    {
        proof {
            use_type_invariant(self);
        }
        if index < self.count {
            Ok(self.slots[index])
        } else {
            Err(MerkleError::IndexOutOfRange)
        }
    }

    /// The contents of the slot at `index`, stored leaf or not; `None`
    /// exactly when there is no such slot.
    pub fn slot_at(&self, index: usize) -> (slot: Option<Word>)
        ensures
            index < self.capacity() ==> slot == Some(self.slots()[index as int]),
            index >= self.capacity() ==> slot is None,
    {
        if index < self.slots.len() {
            Some(self.slots[index])
        } else {
            None
        }
    }

    /// The stored leaves, in order.
    pub fn as_slice(&self) -> (leaves: &[Word])
        ensures
            leaves@ == self@,
    {
        proof {
            use_type_invariant(self);
        }
        let all = self.slots.as_slice();
        let leaves = &all[0..self.count];
        assert(leaves@ =~= self@);
        leaves
    }

    /// Resets every slot to zero and leaves no leaf stored.
    pub fn clear(&mut self)
        ensures
            final(self)@.len() == 0,
            final(self).capacity() == old(self).capacity(),
            forall|i: int|
                0 <= i < final(self).capacity() ==> (#[trigger] final(self).slots()[i])@
                    == zero_encoding(),
    {
        let n = self.slots.len();
        self.count = 0;
        let mut i: usize = 0;
        while i < n
            invariant
                n == self.slots@.len(),
                n == old(self).slots@.len(),
                self.count == 0,
                i <= n,
                forall|j: int| 0 <= j < i ==> (#[trigger] self.slots@[j])@ == zero_encoding(),
            decreases n - i,
        {
            self.slots[i] = Word::zero();
            i += 1;
        }
    }
}

} // verus!
