//! 256-bit words, held as their 32-byte big-endian encoding.

use vstd::arithmetic::power2::{lemma2_to64, lemma_pow2_adds, pow2};
use vstd::prelude::*;

verus! {

/// The number that a byte sequence denotes when read big-endian: the last
/// byte is the least significant one.
pub open spec fn be_value(bytes: Seq<u8>) -> nat
    decreases bytes.len(),
{
    if bytes.len() == 0 {
        0
    } else {
        256 * be_value(bytes.drop_last()) + bytes.last() as nat
    }
}

/// A sequence of zero bytes denotes zero.
pub proof fn lemma_be_value_of_zeros(bytes: Seq<u8>)
    requires
        forall|i: int| 0 <= i < bytes.len() ==> bytes[i] == 0,
    ensures
        be_value(bytes) == 0,
    decreases bytes.len(),
{
    if bytes.len() > 0 {
        lemma_be_value_of_zeros(bytes.drop_last());
    }
}

/// Appending a byte multiplies the number by 256 and adds the byte.
pub proof fn lemma_be_value_push(bytes: Seq<u8>, last: u8)
    ensures
        be_value(bytes.push(last)) == 256 * be_value(bytes) + last,
{
    assert(bytes.push(last).drop_last() =~= bytes);
}

/// A sequence of `n` bytes denotes a number below `2^(8n)`.
pub proof fn lemma_be_value_bound(bytes: Seq<u8>)
    ensures
        be_value(bytes) < pow2(8 * bytes.len()),
    decreases bytes.len(),
{
    if bytes.len() == 0 {
        lemma2_to64();
    } else {
        let rest = bytes.drop_last();
        lemma_be_value_bound(rest);
        lemma_pow2_adds(8, 8 * rest.len());
        lemma2_to64();
        assert(pow2(8 * bytes.len()) == 256 * pow2(8 * rest.len()));
    }
}

/// Byte sequences of one length that denote the same number are equal.
pub proof fn lemma_be_value_injective(a: Seq<u8>, b: Seq<u8>)
    requires
        a.len() == b.len(),
        be_value(a) == be_value(b),
    ensures
        a == b,
    decreases a.len(),
{
    if a.len() > 0 {
        lemma_be_value_injective(a.drop_last(), b.drop_last());
        assert(a =~= a.drop_last().push(a.last()));
        assert(b =~= b.drop_last().push(b.last()));
    }
    assert(a =~= b);
}

/// The encoding of zero: 32 zero bytes.
pub open spec fn zero_encoding() -> Seq<u8> {
    Seq::new(32, |i: int| 0u8)
}

/// A 256-bit unsigned integer.
///
/// Its view is the 32-byte big-endian encoding; `value` is the integer.
#[derive(Clone, Copy, Debug, PartialEq, Eq, Hash)]
pub struct Word {
    bytes: [u8; 32],
}

impl View for Word {
    type V = Seq<u8>;

    closed spec fn view(&self) -> Seq<u8> {
        self.bytes@
    }
}

impl Word {
    /// The integer that the word holds.
    pub open spec fn value(self) -> nat {
        be_value(self@)
    }

    /// The encoding of a word is always 32 bytes long.
    pub proof fn lemma_view_len(self)
        ensures
            self@.len() == 32,
    {
    }

    /// Two words with the same encoding are the same word.
    pub proof fn lemma_view_injective(self, other: Word)
        requires
            self@ == other@,
        ensures
            self == other,
    {
        assert(self.bytes =~= other.bytes);
    }

    /// Every word is below `2^256`.
    pub proof fn lemma_value_bound(self)
        ensures
            self.value() < pow2(256),
    {
        lemma_be_value_bound(self@);
    }

    /// Two words that hold the same integer are the same word.
    pub proof fn lemma_value_injective(self, other: Word)
        requires
            self.value() == other.value(),
        ensures
            self == other,
    {
        lemma_be_value_injective(self@, other@);
        self.lemma_view_injective(other);
    }

    /// The word that holds zero: all its bytes are zero.
    pub fn zero() -> (w: Word)
        ensures
            w@ == zero_encoding(),
            w.value() == 0,
    {
        let w = Word { bytes: [0u8; 32] };
        assert(w@ =~= zero_encoding());
        proof {
            lemma_be_value_of_zeros(w@);
        }
        w
    }

    /// The word that holds `n`.
    pub fn from_u64(n: u64) -> (w: Word)
        ensures
            w.value() == n,
    {
        let mut bytes = [0u8; 32];
        bytes[24] = (n / 0x0100_0000_0000_0000) as u8;
        bytes[25] = ((n / 0x0001_0000_0000_0000) % 256) as u8;
        bytes[26] = ((n / 0x0000_0100_0000_0000) % 256) as u8;
        bytes[27] = ((n / 0x0000_0001_0000_0000) % 256) as u8;
        bytes[28] = ((n / 0x0000_0000_0100_0000) % 256) as u8;
        bytes[29] = ((n / 0x0000_0000_0001_0000) % 256) as u8;
        bytes[30] = ((n / 0x0000_0000_0000_0100) % 256) as u8;
        bytes[31] = (n % 256) as u8;
        proof {
            let s = bytes@;
            lemma_be_value_of_zeros(s.take(24));
            assert forall|k: int| 24 <= k < 32 implies be_value(s.take(k + 1)) == 256 * be_value(
                s.take(k),
            ) + s[k] by {
                assert(s.take(k + 1) =~= s.take(k).push(s[k]));
                lemma_be_value_push(s.take(k), s[k]);
            }
            assert(be_value(s.take(25)) == n / 0x0100_0000_0000_0000);
            assert(be_value(s.take(26)) == n / 0x0001_0000_0000_0000);
            assert(be_value(s.take(27)) == n / 0x0000_0100_0000_0000);
            assert(be_value(s.take(28)) == n / 0x0000_0001_0000_0000);
            assert(be_value(s.take(29)) == n / 0x0000_0000_0100_0000);
            assert(be_value(s.take(30)) == n / 0x0000_0000_0001_0000);
            assert(be_value(s.take(31)) == n / 0x0000_0000_0000_0100);
            assert(be_value(s.take(32)) == n);
            assert(s.take(32) =~= s);
        }
        Word { bytes }
    }

    /// The word with the given big-endian encoding.
    pub fn from_be_bytes(bytes: [u8; 32]) -> (w: Word)
        ensures
            w@ == bytes@,
    {
        Word { bytes }
    }

    /// The big-endian encoding of the word.
    pub fn to_be_bytes(&self) -> (bytes: [u8; 32])
        ensures
            bytes@ == self@,
    {
        self.bytes
    }
}

} // verus!
