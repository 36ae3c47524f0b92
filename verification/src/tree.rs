//! Reduction of an ordered sequence of leaves to a single root.

use vstd::prelude::*;
use crate::error::MerkleError;
use crate::hash::{combine, hash_nodes};
use crate::word::Word;

verus! {

/// The encodings of a sequence of words, in order.
pub open spec fn encodings(words: Seq<Word>) -> Seq<Seq<u8>> {
    words.map_values(|w: Word| w@)
}

/// The right partner of the node at an even position `i`: its neighbour, or
/// the node itself where it is the lone last node of an odd level.
pub open spec fn right_sibling(level: Seq<Seq<u8>>, i: int) -> Seq<u8> {
    if i + 1 < level.len() {
        level[i + 1]
    } else {
        level[i]
    }
}

/// The level above `level`: node `k` is the parent of nodes `2k` and `2k + 1`.
pub open spec fn next_level(level: Seq<Seq<u8>>) -> Seq<Seq<u8>> {
    Seq::new(
        ((level.len() + 1) / 2) as nat,
        |k: int| combine(level[2 * k], right_sibling(level, 2 * k)),
    )
}

/// The root of the tree over `level`: a single node is its own root, and a
/// longer level has the root of the level above it. Over no node at all there
/// is no root, and the function gives the empty sequence.
pub open spec fn merkle_root(level: Seq<Seq<u8>>) -> Seq<u8>
    decreases level.len(),
{
    if level.len() == 0 {
        Seq::empty()
    } else if level.len() == 1 {
        level[0]
    } else {
        merkle_root(next_level(level))
    }
}

/// The root is a function of the leaves: two words that are each the root of
/// the same sequence of leaves are the same word, so repeated reductions of
/// one sequence always give one root.
pub proof fn lemma_root_deterministic(leaves: Seq<Word>, first: Word, second: Word)
    requires
        first@ == merkle_root(encodings(leaves)),
        second@ == merkle_root(encodings(leaves)),
    ensures
        first == second,
{
    first.lemma_view_injective(second);
}

/// A single leaf is its own root, unhashed.
pub proof fn lemma_root_of_one(x: Word)
    ensures
        merkle_root(encodings(seq![x])) == x@,
{
}

/// The root of two leaves is their parent, the left leaf first.
pub proof fn lemma_root_of_two(x: Word, y: Word)
    ensures
        merkle_root(encodings(seq![x, y])) == combine(x@, y@),
{
    reveal_with_fuel(merkle_root, 2);
    let level = encodings(seq![x, y]);
    assert(next_level(level) =~= seq![combine(x@, y@)]);
}

/// In the root of three leaves the lone third leaf is paired with itself:
/// it is neither dropped, nor promoted unhashed, nor paired with another leaf.
pub proof fn lemma_root_of_three(x: Word, y: Word, z: Word)
    ensures
        merkle_root(encodings(seq![x, y, z])) == combine(combine(x@, y@), combine(z@, z@)),
{
    reveal_with_fuel(merkle_root, 3);
    let level = encodings(seq![x, y, z]);
    let above = seq![combine(x@, y@), combine(z@, z@)];
    assert(next_level(level) =~= above);
    assert(next_level(above) =~= seq![combine(above[0], above[1])]);
}

/// The root of four leaves is the parent of the parents of the two pairs.
pub proof fn lemma_root_of_four(w: Word, x: Word, y: Word, z: Word)
    ensures
        merkle_root(encodings(seq![w, x, y, z])) == combine(combine(w@, x@), combine(y@, z@)),
{
    reveal_with_fuel(merkle_root, 3);
    let level = encodings(seq![w, x, y, z]);
    let above = seq![combine(w@, x@), combine(y@, z@)];
    assert(next_level(level) =~= above);
    assert(next_level(above) =~= seq![combine(above[0], above[1])]);
}

/// Computes the level above `level`, pairing the nodes from the left and
/// pairing a lone last node with itself.
pub fn reduce_level(level: &[Word]) -> (next: Vec<Word>)
    ensures
        encodings(next@) == next_level(encodings(level@)),
        next@.len() == (level@.len() + 1) / 2,
{
    let n = level.len();
    let pairs = n / 2 + n % 2;
    let mut next: Vec<Word> = Vec::with_capacity(pairs);
    let mut k: usize = 0;
    while k < pairs
        invariant
            n == level@.len(),
            pairs == (n + 1) / 2,
            k <= pairs,
            next@.len() == k,
            forall|j: int| 0 <= j < k ==> (#[trigger] next@[j])@ == next_level(encodings(level@))[j],
        decreases pairs - k,
    {
        let left = level[2 * k];
        let right = if 2 * k + 1 < n {
            level[2 * k + 1]
        } else {
            left
        };
        next.push(hash_nodes(left, right));
        k += 1;
    }
    assert(encodings(next@) =~= next_level(encodings(level@)));
    next
}

/// Reduces the leaves, level by level, to the root of their tree.
///
/// Fails with `EmptyInput` exactly when there is no leaf. A single leaf is
/// its own root and is returned unhashed.
pub fn build_root(leaves: &[Word]) -> (result: Result<Word, MerkleError>)
    ensures
        leaves@.len() == 0 <==> result == Err::<Word, MerkleError>(MerkleError::EmptyInput),
        leaves@.len() > 0 <==> result is Ok,
        result matches Ok(root) ==> root@ == merkle_root(encodings(leaves@)),
{
    if leaves.len() == 0 {
        return Err(MerkleError::EmptyInput);
    }
    if leaves.len() == 1 {
        return Ok(leaves[0]);
    }
    let mut nodes = reduce_level(leaves);
    while nodes.len() > 1
        invariant
            nodes@.len() >= 1,
            merkle_root(encodings(nodes@)) == merkle_root(encodings(leaves@)),
        decreases nodes@.len(),
    {
        nodes = reduce_level(nodes.as_slice());
    }
    Ok(nodes[0])
}

} // verus!
