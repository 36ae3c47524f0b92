//! The Merkle tree service: a leaf store, and the root of the tree over the
//! leaves as it was when the root was last computed.

use vstd::prelude::*;
use crate::error::MerkleError;
use crate::store::LeafStore;
use crate::tree::{build_root, encodings, merkle_root};
use crate::word::{zero_encoding, Word};

verus! {

/// The number of leaves that a tree made by `MerkleTreeContract::new` holds
/// at most.
pub const MAX_LEAVES: usize = 100;

/// A bounded store of leaves together with a cached root.
///
/// The root is `None` until a root has been computed. It changes only when a
/// root is computed, so after the leaves are cleared it still belongs to the
/// leaves that were stored before.
pub struct MerkleTreeContract {
    /// The stored leaves.
    pub leaves: LeafStore,
    /// The root computed last, if any.
    pub root: Option<Word>,
}

impl MerkleTreeContract {
    /// A tree of `MAX_LEAVES` zero slots with no leaf stored and no root.
    pub fn new() -> (tree: MerkleTreeContract)
        ensures
            tree.leaves.capacity() == MAX_LEAVES,
            tree.leaves@.len() == 0,
            tree.root is None,
            forall|i: int|
                0 <= i < MAX_LEAVES ==> (#[trigger] tree.leaves.slots()[i])@ == zero_encoding(),
    {
        MerkleTreeContract { leaves: LeafStore::new(MAX_LEAVES), root: None }
    }

    /// A tree of `capacity` zero slots with no leaf stored and no root.
    pub fn with_capacity(capacity: usize) -> (tree: MerkleTreeContract)
        ensures
            tree.leaves.capacity() == capacity,
            tree.leaves@.len() == 0,
            tree.root is None,
            forall|i: int|
                0 <= i < capacity ==> (#[trigger] tree.leaves.slots()[i])@ == zero_encoding(),
    {
        MerkleTreeContract { leaves: LeafStore::new(capacity), root: None }
    }

    /// Stores `leaf_values` as the leaves and computes their root.
    ///
    /// Fails with `EmptyInput` exactly when there is no value, and with
    /// `CapacityExceeded` exactly when there are more values than slots; a
    /// failed call changes neither the leaves nor the root. Otherwise the
    /// values replace the stored leaves and the root is that of their tree.
    pub fn construct_tree(&mut self, leaf_values: Vec<Word>) -> (result: Result<(), MerkleError>)
        ensures
            leaf_values@.len() == 0 ==> {
                &&& result == Err::<(), MerkleError>(MerkleError::EmptyInput)
                &&& *final(self) == *old(self)
            },
            leaf_values@.len() > old(self).leaves.capacity() ==> {
                &&& result == Err::<(), MerkleError>(MerkleError::CapacityExceeded)
                &&& *final(self) == *old(self)
            },
            0 < leaf_values@.len() <= old(self).leaves.capacity() ==> {
                &&& result is Ok
                &&& final(self).leaves@ == leaf_values@
                &&& final(self).leaves.capacity() == old(self).leaves.capacity()
                &&& final(self).leaves.slots() == leaf_values@ + old(self).leaves.slots().skip(
                    leaf_values@.len() as int,
                )
                &&& final(self).root matches Some(root) && root@ == merkle_root(
                    encodings(leaf_values@),
                )
            },
    {
        if leaf_values.len() == 0 {
            return Err(MerkleError::EmptyInput);
        }
        match self.leaves.set_leaves(leaf_values.as_slice()) {
            Err(e) => Err(e),
            Ok(()) => self.update_root(),
        }
    }

    /// Computes the root of the tree over the stored leaves and caches it.
    ///
    /// Fails with `EmptyInput` exactly when no leaf is stored, and then
    /// changes nothing. The leaves are never changed.
    pub fn update_root(&mut self) -> (result: Result<(), MerkleError>)
        ensures
            final(self).leaves == old(self).leaves,
            old(self).leaves@.len() == 0 ==> {
                &&& result == Err::<(), MerkleError>(MerkleError::EmptyInput)
                &&& final(self).root == old(self).root
            },
            old(self).leaves@.len() > 0 ==> {
                &&& result is Ok
                &&& final(self).root matches Some(root) && root@ == merkle_root(
                    encodings(old(self).leaves@),
                )
            },
    {
        match build_root(self.leaves.as_slice()) {
            Err(e) => Err(e),
            Ok(root) => {
                self.root = Some(root);
                Ok(())
            },
        }
    }

    /// The cached root, without any recomputation.
    ///
    /// Fails with `NoRootComputed` exactly when no root has been computed.
    pub fn get_root(&self) -> (result: Result<Word, MerkleError>)
        ensures
            match self.root {
                Some(root) => result == Ok::<Word, MerkleError>(root),
                None => result == Err::<Word, MerkleError>(MerkleError::NoRootComputed),
            },
    {
        match self.root {
            Some(root) => Ok(root),
            None => Err(MerkleError::NoRootComputed),
        }
    }

    /// Resets every leaf slot to zero and leaves no leaf stored.
    ///
    /// The cached root is not touched: it stays that of the leaves that were
    /// stored when it was computed, until the root is computed again.
    pub fn clear_tree(&mut self)
        ensures
            final(self).root == old(self).root,
            final(self).leaves@.len() == 0,
            final(self).leaves.capacity() == old(self).leaves.capacity(),
            forall|i: int|
                0 <= i < final(self).leaves.capacity() ==> (
                #[trigger] final(self).leaves.slots()[i])@ == zero_encoding(),
    {
        self.leaves.clear();
    }
}

} // verus!
