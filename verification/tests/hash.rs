use alloy_primitives::{keccak256, U256};
use stylus_kernels::hash::{hash_nodes, pair_preimage};
use stylus_kernels::word::Word;

fn reference_parent(left: U256, right: U256) -> U256 {
    let combined = [&left.to_be_bytes::<32>()[..], &right.to_be_bytes::<32>()[..]].concat();
    keccak256(combined).into()
}

fn as_u256(word: Word) -> U256 {
    U256::from_be_bytes(word.to_be_bytes())
}

fn as_word(value: U256) -> Word {
    Word::from_be_bytes(value.to_be_bytes::<32>())
}

#[test]
fn hash_of_two_zero_words_is_the_known_digest() {
    let parent = hash_nodes(Word::zero(), Word::zero());
    let expected: [u8; 32] = [
        0xad, 0x32, 0x28, 0xb6, 0x76, 0xf7, 0xd3, 0xcd, 0x42, 0x84, 0xa5, 0x44, 0x3f, 0x17, 0xf1,
        0x96, 0x2b, 0x36, 0xe4, 0x91, 0xb3, 0x0a, 0x40, 0xb2, 0x40, 0x58, 0x49, 0xe5, 0x97, 0xba,
        0x5f, 0xb5,
    ];
    assert_eq!(parent.to_be_bytes(), expected);
}

#[test]
fn hash_nodes_agrees_with_keccak_over_big_endian_operands() {
    let left = U256::from(1u64);
    let right = U256::from(2u64);
    let parent = hash_nodes(as_word(left), as_word(right));
    assert_eq!(as_u256(parent), reference_parent(left, right));
}

#[test]
fn hash_nodes_depends_on_operand_order() {
    let one = as_word(U256::from(1u64));
    let two = as_word(U256::from(2u64));
    assert_ne!(hash_nodes(one, two), hash_nodes(two, one));
}

#[test]
fn hash_nodes_does_not_return_an_operand() {
    let one = as_word(U256::from(1u64));
    let two = as_word(U256::from(2u64));
    let parent = hash_nodes(one, two);
    assert_ne!(parent, one);
    assert_ne!(parent, two);
}

#[test]
fn pair_preimage_is_left_then_right() {
    let mut left = [0u8; 32];
    left[31] = 7;
    let mut right = [0u8; 32];
    right[0] = 9;
    let bytes = pair_preimage(&Word::from_be_bytes(left), &Word::from_be_bytes(right));
    assert_eq!(bytes.len(), 64);
    assert_eq!(&bytes[..32], &left[..]);
    assert_eq!(&bytes[32..], &right[..]);
}
