//! A seeded pseudo-random square matrix and the product of two of them.

use vstd::arithmetic::div_mod::{lemma_add_mod_noop, lemma_mod_mod, lemma_mod_multiples_vanish};
use vstd::prelude::*;

verus! {

/// Modulus of the linear congruential generator: `2^31`.
pub const LCG_MODULUS: u64 = 2147483648;

/// Multiplier of the linear congruential generator.
pub const LCG_MULTIPLIER: u64 = 1103515245;

/// Increment of the linear congruential generator.
pub const LCG_INCREMENT: u64 = 12345;

/// The state that follows `seed`: `(multiplier * seed + increment) mod 2^31`.
pub open spec fn lcg_next(seed: u64) -> u64 {
    ((LCG_MULTIPLIER * seed + LCG_INCREMENT) % (LCG_MODULUS as int)) as u64
}

/// The state reached from `seed` after `steps` steps.
pub open spec fn lcg_iterate(seed: u64, steps: nat) -> u64
    decreases steps,
{
    if steps == 0 {
        seed
    } else {
        lcg_next(lcg_iterate(seed, (steps - 1) as nat))
    }
}

/// A linear congruential pseudo-random number generator.
pub struct Rng {
    /// The current state.
    pub seed: u64,
}

impl Rng {
    /// A generator that starts from `seed`.
    pub fn new(seed: u64) -> (rng: Rng)
        ensures
            rng.seed == seed,
    {
        Rng { seed }
    }

    /// Advances the generator by one step and returns the new state.
    ///
    /// The product and the sum wrap at `2^64`, which does not change the
    /// result modulo `2^31`.
    pub fn next(&mut self) -> (value: u64)
        ensures
            value == lcg_next(old(self).seed),
            final(self).seed == value,
            value < LCG_MODULUS,
    {
        let product = LCG_MULTIPLIER.wrapping_mul(self.seed);
        let sum = product.wrapping_add(LCG_INCREMENT);
        proof {
            let exact = LCG_MULTIPLIER * self.seed;
            let m = LCG_MODULUS as int;
            assert(0x1_0000_0000_0000_0000 == m * 0x2_0000_0000);
            lemma_mod_mod(exact, m, 0x2_0000_0000);
            assert(product % LCG_MODULUS == exact % m);
            lemma_mod_multiples_vanish(-0x2_0000_0000, product + LCG_INCREMENT, m);
            assert(sum % LCG_MODULUS == (product + LCG_INCREMENT) % m);
            lemma_add_mod_noop(product as int, LCG_INCREMENT as int, m);
            lemma_add_mod_noop(exact, LCG_INCREMENT as int, m);
            assert(sum % LCG_MODULUS == (exact + LCG_INCREMENT) % m);
        }
        self.seed = sum % LCG_MODULUS;
        self.seed
    }
}

/// The entry in row `i` and column `j` of the `n` by `n` matrix generated from
/// `seed`: the entries are drawn row by row, each one a fresh state of the
/// generator reduced modulo 100.
pub open spec fn generated_entry(seed: u64, n: nat, i: int, j: int) -> i64 {
    (lcg_iterate(seed, (i * n + j + 1) as nat) % 100) as i64
}

/// The `n` by `n` matrix generated from `seed`.
pub open spec fn generated_matrix(seed: u64, n: nat) -> Seq<Seq<i64>> {
    Seq::new(n, |i: int| Seq::new(n, |j: int| generated_entry(seed, n, i, j)))
}

/// The rows of a matrix as sequences.
pub open spec fn rows(matrix: Vec<Vec<i64>>) -> Seq<Seq<i64>> {
    matrix@.map_values(|row: Vec<i64>| row@)
}

/// The sum of the first `terms` products of row `i` of `a` with column `j`
/// of `b`.
pub open spec fn dot(a: Seq<Seq<i64>>, b: Seq<Seq<i64>>, i: int, j: int, terms: nat) -> int
    decreases terms,
{
    if terms == 0 {
        0
    } else {
        dot(a, b, i, j, (terms - 1) as nat) + a[i][terms - 1] * b[terms - 1][j]
    }
}

/// Whether `c` is the product of the `n` by `n` matrices `a` and `b`.
pub open spec fn is_product(c: Seq<Seq<i64>>, a: Seq<Seq<i64>>, b: Seq<Seq<i64>>, n: nat) -> bool {
    &&& c.len() == n
    &&& forall|i: int| 0 <= i < n ==> (#[trigger] c[i]).len() == n
    &&& forall|i: int, j: int| 0 <= i < n && 0 <= j < n ==> #[trigger] c[i][j] == dot(a, b, i, j, n)
}

/// Whether `m` has `n` rows of `n` entries, each entry at least 0 and below
/// 100.
pub open spec fn entries_below_100(m: Seq<Seq<i64>>, n: nat) -> bool {
    &&& m.len() == n
    &&& forall|i: int| 0 <= i < n ==> (#[trigger] m[i]).len() == n
    &&& forall|i: int, j: int| 0 <= i < n && 0 <= j < n ==> 0 <= #[trigger] m[i][j] < 100
}

/// A generated matrix is square, and every entry of it is at least 0 and
/// below 100.
pub proof fn lemma_generated_entries_below_100(seed: u64, n: nat)
    ensures
        entries_below_100(generated_matrix(seed, n), n),
{
}

/// The product of two numbers below 100 is at most 9801.
proof fn lemma_product_below(x: i64, y: i64)
    requires
        0 <= x < 100,
        0 <= y < 100,
    ensures
        0 <= x * y <= 9801,
{
    assert(0 <= x * y <= 9801) by (nonlinear_arith)
        requires
            0 <= x < 100,
            0 <= y < 100,
    ;
}

/// The product of two generated matrices; it holds no state.
pub struct MatrixMultiplication {}

impl MatrixMultiplication {
    /// Generates an `n` by `n` matrix of pseudo-random numbers below 100.
    pub fn generate_matrix(seed: u64, n: u32) -> (matrix: Vec<Vec<i64>>)
        ensures
            rows(matrix) == generated_matrix(seed, n as nat),
    {
        let n_usize = n as usize;
        let mut rng = Rng::new(seed);
        let mut matrix: Vec<Vec<i64>> = Vec::with_capacity(n_usize);
        let mut i: usize = 0;
        while i < n_usize
            invariant
                n_usize == n,
                i <= n_usize,
                matrix@.len() == i,
                rng.seed == lcg_iterate(seed, (i * n) as nat),
                forall|r: int| 0 <= r < i ==> (#[trigger] matrix@[r])@ == generated_matrix(seed, n as nat)[r],
            decreases n_usize - i,
        {
            let mut row: Vec<i64> = Vec::with_capacity(n_usize);
            let mut j: usize = 0;
            while j < n_usize
                invariant
                    n_usize == n,
                    i < n_usize,
                    j <= n_usize,
                    row@.len() == j,
                    rng.seed == lcg_iterate(seed, (i * n + j) as nat),
                    forall|c: int| 0 <= c < j ==> #[trigger] row@[c] == generated_entry(seed, n as nat, i as int, c),
                decreases n_usize - j,
            {
                row.push((rng.next() % 100) as i64);
                j += 1;
            }
            assert((i + 1) * n == i * n + n) by (nonlinear_arith);
            assert(row@ =~= generated_matrix(seed, n as nat)[i as int]);
            matrix.push(row);
            i += 1;
        }
        assert(rows(matrix) =~= generated_matrix(seed, n as nat));
        matrix
    }

    /// Multiplies the two `n` by `n` matrices generated from `seed_a` and
    /// `seed_b`.
    pub fn multiply(n: u32, seed_a: u64, seed_b: u64) -> (c: Vec<Vec<i64>>)
        ensures
            is_product(
                rows(c),
                generated_matrix(seed_a, n as nat),
                generated_matrix(seed_b, n as nat),
                n as nat,
            ),
    {
        let a = Self::generate_matrix(seed_a, n);
        let b = Self::generate_matrix(seed_b, n);
        let n_usize = n as usize;
        let mut c: Vec<Vec<i64>> = vec![vec![0; n_usize]; n_usize];
        let ghost ga = generated_matrix(seed_a, n as nat);
        let ghost gb = generated_matrix(seed_b, n as nat);
        proof {
            lemma_generated_entries_below_100(seed_a, n as nat);
            lemma_generated_entries_below_100(seed_b, n as nat);
        }
        let mut i: usize = 0;
        while i < n_usize
            invariant
                n_usize == n,
                i <= n_usize,
                rows(a) == ga,
                rows(b) == gb,
                entries_below_100(ga, n as nat),
                entries_below_100(gb, n as nat),
                c@.len() == n,
                forall|r: int| 0 <= r < n ==> (#[trigger] c@[r])@.len() == n,
                forall|r: int, s: int|
                    0 <= r < n && 0 <= s < n ==> #[trigger] c@[r]@[s] == (if r < i {
                        dot(ga, gb, r, s, n as nat)
                    } else {
                        0
                    }),
            decreases n_usize - i,
        {
            let mut j: usize = 0;
            while j < n_usize
                invariant
                    n_usize == n,
                    i < n_usize,
                    j <= n_usize,
                    rows(a) == ga,
                    rows(b) == gb,
                    entries_below_100(ga, n as nat),
                    entries_below_100(gb, n as nat),
                    c@.len() == n,
                    forall|r: int| 0 <= r < n ==> (#[trigger] c@[r])@.len() == n,
                    forall|r: int, s: int|
                        0 <= r < n && 0 <= s < n ==> #[trigger] c@[r]@[s] == (if r < i || (r == i
                            && s < j) {
                            dot(ga, gb, r, s, n as nat)
                        } else {
                            0
                        }),
                decreases n_usize - j,
            {
                let ghost before = c@;
                let mut k: usize = 0;
                while k < n_usize
                    invariant
                        n_usize == n,
                        i < n_usize,
                        j < n_usize,
                        k <= n_usize,
                        rows(a) == ga,
                        rows(b) == gb,
                        entries_below_100(ga, n as nat),
                        entries_below_100(gb, n as nat),
                        before.len() == n,
                        c@.len() == n,
                        forall|r: int| 0 <= r < n ==> (#[trigger] c@[r])@.len() == n,
                        forall|r: int| 0 <= r < n && r != i ==> #[trigger] c@[r] == before[r],
                        forall|s: int|
                            0 <= s < n && s != j ==> #[trigger] c@[i as int]@[s] == before[i as int]@[s],
                        c@[i as int]@[j as int] == dot(ga, gb, i as int, j as int, k as nat),
                        0 <= c@[i as int]@[j as int] <= 9801 * k,
                    decreases n_usize - k,
                {
                    proof {
                        assert(a@[i as int]@[k as int] == ga[i as int][k as int]);
                        assert(b@[k as int]@[j as int] == gb[k as int][j as int]);
                        lemma_product_below(ga[i as int][k as int], gb[k as int][j as int]);
                    }
                    c[i][j] += a[i][k] * b[k][j];
                    k += 1;
                }
                j += 1;
            }
            i += 1;
        }
        assert(rows(c).len() == n);
        assert forall|r: int| 0 <= r < n implies (#[trigger] rows(c)[r]).len() == n by {
            assert(c@[r]@.len() == n);
        }
        assert forall|r: int, s: int| 0 <= r < n && 0 <= s < n implies #[trigger] rows(c)[r][s]
            == dot(ga, gb, r, s, n as nat) by {
            assert(c@[r]@[s] == dot(ga, gb, r, s, n as nat));
        }
        c
    }
}

} // verus!
