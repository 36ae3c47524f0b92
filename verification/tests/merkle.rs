use alloy_primitives::{keccak256, U256};
use stylus_kernels::error::MerkleError;
use stylus_kernels::hash::hash_nodes;
use stylus_kernels::merkle::{MerkleTreeContract, MAX_LEAVES};
use stylus_kernels::word::Word;

fn word(n: u64) -> Word {
    Word::from_u64(n)
}

fn words(values: &[u64]) -> Vec<Word> {
    values.iter().map(|n| Word::from_u64(*n)).collect()
}

fn keccak_pair(left: u64, right: u64) -> U256 {
    let combined =
        [&U256::from(left).to_be_bytes::<32>()[..], &U256::from(right).to_be_bytes::<32>()[..]]
            .concat();
    keccak256(combined).into()
}

fn keccak_parent(left: U256, right: U256) -> U256 {
    let combined = [&left.to_be_bytes::<32>()[..], &right.to_be_bytes::<32>()[..]].concat();
    keccak256(combined).into()
}

#[test]
fn new_tree_has_one_hundred_slots_and_no_root() {
    let tree = MerkleTreeContract::new();
    assert_eq!(MAX_LEAVES, 100);
    assert_eq!(tree.leaves.max_leaves(), 100);
    assert_eq!(tree.leaves.leaf_count(), 0);
    assert_eq!(tree.root, None);
}

#[test]
fn get_root_before_any_construction_is_no_root_computed() {
    let tree = MerkleTreeContract::new();
    assert_eq!(tree.get_root(), Err(MerkleError::NoRootComputed));
}

#[test]
fn get_root_after_only_failed_calls_is_no_root_computed() {
    let mut tree = MerkleTreeContract::with_capacity(2);
    assert_eq!(tree.construct_tree(words(&[1, 2, 3])), Err(MerkleError::CapacityExceeded));
    assert_eq!(tree.construct_tree(Vec::new()), Err(MerkleError::EmptyInput));
    assert_eq!(tree.update_root(), Err(MerkleError::EmptyInput));
    assert_eq!(tree.get_root(), Err(MerkleError::NoRootComputed));
}

#[test]
fn construct_tree_then_get_root_end_to_end() {
    let mut tree = MerkleTreeContract::new();
    assert_eq!(tree.construct_tree(words(&[1, 2, 3, 4])), Ok(()));
    let expected = hash_nodes(hash_nodes(word(1), word(2)), hash_nodes(word(3), word(4)));
    assert_eq!(tree.get_root(), Ok(expected));
    let by_keccak = keccak_parent(keccak_pair(1, 2), keccak_pair(3, 4));
    assert_eq!(U256::from_be_bytes(tree.get_root().unwrap().to_be_bytes()), by_keccak);

    assert_eq!(tree.construct_tree(words(&[5, 6])), Ok(()));
    assert_eq!(tree.get_root(), Ok(hash_nodes(word(5), word(6))));
    assert_eq!(U256::from_be_bytes(tree.get_root().unwrap().to_be_bytes()), keccak_pair(5, 6));
    assert_eq!(tree.leaves.leaf_count(), 2);
    assert_eq!(tree.leaves.as_slice(), &words(&[5, 6])[..]);
}

#[test]
fn construct_tree_beyond_capacity_changes_nothing() {
    let mut tree = MerkleTreeContract::new();
    tree.construct_tree(words(&[1, 2, 3])).unwrap();
    let root = tree.get_root().unwrap();
    let too_many: Vec<u64> = (0..101).collect();
    assert_eq!(tree.construct_tree(words(&too_many)), Err(MerkleError::CapacityExceeded));
    assert_eq!(tree.get_root(), Ok(root));
    assert_eq!(tree.leaves.leaf_count(), 3);
    assert_eq!(tree.leaves.as_slice(), &words(&[1, 2, 3])[..]);
}

#[test]
fn construct_tree_accepts_exactly_the_capacity() {
    let mut tree = MerkleTreeContract::new();
    let full: Vec<u64> = (1..=100).collect();
    assert_eq!(tree.construct_tree(words(&full)), Ok(()));
    assert_eq!(tree.leaves.leaf_count(), 100);
    assert!(tree.get_root().is_ok());
}

#[test]
fn construct_tree_with_no_leaf_is_empty_input_and_changes_nothing() {
    let mut tree = MerkleTreeContract::new();
    tree.construct_tree(words(&[1, 2])).unwrap();
    let root = tree.get_root().unwrap();
    assert_eq!(tree.construct_tree(Vec::new()), Err(MerkleError::EmptyInput));
    assert_eq!(tree.get_root(), Ok(root));
    assert_eq!(tree.leaves.as_slice(), &words(&[1, 2])[..]);
}

#[test]
fn update_root_with_no_leaf_is_empty_input_and_keeps_the_root() {
    let mut fresh = MerkleTreeContract::new();
    assert_eq!(fresh.update_root(), Err(MerkleError::EmptyInput));
    assert_eq!(fresh.root, None);

    let mut tree = MerkleTreeContract::new();
    tree.construct_tree(words(&[4, 5])).unwrap();
    let root = tree.get_root().unwrap();
    tree.clear_tree();
    assert_eq!(tree.update_root(), Err(MerkleError::EmptyInput));
    assert_eq!(tree.get_root(), Ok(root));
}

#[test]
fn update_root_follows_the_stored_leaves() {
    let mut tree = MerkleTreeContract::with_capacity(8);
    tree.construct_tree(words(&[1, 2])).unwrap();
    tree.leaves.set_leaves(&words(&[3, 4, 5])).unwrap();
    assert_eq!(tree.get_root(), Ok(hash_nodes(word(1), word(2))));
    assert_eq!(tree.update_root(), Ok(()));
    let expected = hash_nodes(hash_nodes(word(3), word(4)), hash_nodes(word(5), word(5)));
    assert_eq!(tree.get_root(), Ok(expected));
    assert_eq!(tree.leaves.as_slice(), &words(&[3, 4, 5])[..]);
}

#[test]
fn clear_tree_zeroes_the_leaves_and_leaves_the_root_stale() {
    let mut tree = MerkleTreeContract::with_capacity(4);
    tree.construct_tree(words(&[1, 2, 3])).unwrap();
    let root = tree.get_root().unwrap();
    tree.clear_tree();
    assert_eq!(tree.leaves.leaf_count(), 0);
    assert_eq!(tree.leaves.max_leaves(), 4);
    for i in 0..4 {
        assert_eq!(tree.leaves.slot_at(i), Some(Word::zero()));
    }
    assert_eq!(tree.get_root(), Ok(root));
}

#[test]
fn construct_tree_with_one_leaf_caches_the_leaf() {
    let mut tree = MerkleTreeContract::new();
    tree.construct_tree(words(&[42])).unwrap();
    assert_eq!(tree.get_root(), Ok(word(42)));
}
