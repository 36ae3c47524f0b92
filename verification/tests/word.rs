use alloy_primitives::U256;
use stylus_kernels::word::Word;

#[test]
fn zero_is_thirty_two_zero_bytes() {
    assert_eq!(Word::zero().to_be_bytes(), [0u8; 32]);
    assert_eq!(Word::zero(), Word::from_u64(0));
}

#[test]
fn from_u64_is_big_endian() {
    let mut expected = [0u8; 32];
    expected[24..].copy_from_slice(&[0x01, 0x02, 0x03, 0x04, 0x05, 0x06, 0x07, 0x08]);
    assert_eq!(Word::from_u64(0x0102_0304_0506_0708).to_be_bytes(), expected);
}

#[test]
fn from_u64_of_one_sets_the_last_byte() {
    let mut expected = [0u8; 32];
    expected[31] = 1;
    assert_eq!(Word::from_u64(1).to_be_bytes(), expected);
}

#[test]
fn from_u64_of_the_largest_value_fills_the_last_eight_bytes() {
    let mut expected = [0u8; 32];
    for byte in expected[24..].iter_mut() {
        *byte = 0xff;
    }
    assert_eq!(Word::from_u64(u64::MAX).to_be_bytes(), expected);
}

#[test]
fn from_u64_agrees_with_the_256_bit_integer_encoding() {
    for n in [0u64, 1, 255, 256, 65_535, 65_536, 1 << 32, (1 << 56) - 1, 1 << 56, u64::MAX] {
        assert_eq!(Word::from_u64(n).to_be_bytes(), U256::from(n).to_be_bytes::<32>());
    }
}

#[test]
fn bytes_round_trip() {
    let mut bytes = [0u8; 32];
    for (i, byte) in bytes.iter_mut().enumerate() {
        *byte = (i * 7 + 3) as u8;
    }
    let word = Word::from_be_bytes(bytes);
    assert_eq!(word.to_be_bytes(), bytes);
    assert_eq!(Word::from_be_bytes(word.to_be_bytes()), word);
}

#[test]
fn words_with_different_bytes_differ() {
    assert_ne!(Word::from_u64(1), Word::from_u64(256));
}
