//! The integer side of the Super-Bit engine: how the signature splits into
//! blocks, the seeds of the blocks, the pseudo-random draws from which the
//! projection matrices are made, and the sign vector of each item and block.
//!
//! Everything here is exact and reproducible: the same seed and parameters give
//! the same values on every run.

use vstd::bytes::{spec_u64_to_le_bytes, u64_to_le_bytes};
use vstd::prelude::*;

verus! {

/// The multiplier that spreads block indices over block seeds.
pub const BLOCK_SEED_STEP: u64 = 0x9E37_79B9;

/// The 64-bit golden-ratio constant: the increment of SplitMix64, and the
/// constant mixed into sign seeds and second draws.
pub const GOLDEN_GAMMA: u64 = 0x9E37_79B9_7F4A_7C15;

/// The constant that separates the second draw of a cell from the first.
pub const SECOND_DRAW_MASK: u64 = 0xBF58_476D;

/// One step of SplitMix64: the state advanced by the golden-ratio increment
/// and passed through the finalising avalanche.
pub open spec fn splitmix64_spec(x: u64) -> u64 {
    let x1 = x.wrapping_add(GOLDEN_GAMMA);
    let z1 = (x1 ^ (x1 >> 30)).wrapping_mul(0xBF58_476D_1CE4_E5B9u64);
    let z2 = (z1 ^ (z1 >> 27)).wrapping_mul(0x94D0_49BB_1331_11EBu64);
    z2 ^ (z2 >> 31)
}

/// The state after `n` steps of SplitMix64 from `x`.
pub open spec fn splitmix64_iter(x: u64, n: nat) -> u64
    decreases n,
{
    if n == 0 {
        x
    } else {
        splitmix64_spec(splitmix64_iter(x, (n - 1) as nat))
    }
}

/// Entry `j` of the sign vector generated from the state `start`: `+1` where the
/// top bit of the state after `j + 1` steps is clear, `-1` where it is set.
pub open spec fn sign_at(start: u64, j: nat) -> int {
    if splitmix64_iter(start, j + 1) >> 63 == 0 {
        1
    } else {
        -1
    }
}

/// The seed of block `b` of an engine seeded with `seed`.
pub open spec fn block_seed_spec(seed: u64, b: usize) -> u64 {
    seed ^ (b as u64).wrapping_mul(BLOCK_SEED_STEP)
}

/// The state from which the sign vector of one item and one block is
/// generated: the engine seed, the hash of the item and the block index mixed
/// together.
pub open spec fn sign_seed_spec(seed: u64, base: u64, b: usize) -> u64 {
    seed ^ base ^ ((b as u64) << 32) ^ GOLDEN_GAMMA
}

/// The input hashed for the first draw of the cell in row `i` and column `j`,
/// the `k`-th cell of its matrix in row-major order.
pub open spec fn first_draw_input(k: u64, i: usize, j: usize) -> u64 {
    k ^ ((i as u64) << 16) ^ (j as u64)
}

/// The input hashed for the second draw of the `k`-th cell of a matrix.
pub open spec fn second_draw_input(k: u64) -> u64 {
    k.wrapping_mul(GOLDEN_GAMMA) ^ SECOND_DRAW_MASK
}

/// The 64-bit XXH3 value of a byte string under a seed.
pub uninterp spec fn xxh3_seeded_digest64(bytes: Seq<u8>, seed: u64) -> u64;

/// The 53-bit draw that a 64-bit hash value gives: its top 53 bits.
pub open spec fn draw_spec(hash: u64) -> u64 {
    hash >> 11
}

/// The 53-bit draw for the input `x` under `seed`: the top 53 bits of the seeded
/// hash of the eight little-endian bytes of `x`.
pub open spec fn uniform_bits_spec(seed: u64, x: u64) -> u64 {
    draw_spec(xxh3_seeded_digest64(spec_u64_to_le_bytes(x), seed))
}

/// The two draws of the cell in row `i` and column `j` of an `r` by `r` matrix
/// made under `seed`.
pub open spec fn cell_draws_spec(seed: u64, r: usize, i: usize, j: usize) -> (u64, u64) {
    let k = (i * r + j) as u64;
    (
        uniform_bits_spec(seed, first_draw_input(k, i, j)),
        uniform_bits_spec(seed, second_draw_input(k)),
    )
}

/// Calls `xxhash_rust::xxh3::xxh3_64_with_seed`. Taken on trust: the value is a
/// function of the bytes and the seed. Nothing else is claimed of it; it is known
/// here only under its name.
#[verifier::external_body]
fn xxh3_seeded_hash64(bytes: &[u8], seed: u64) -> (h: u64)
    ensures
        h == xxh3_seeded_digest64(bytes@, seed),
{
    xxhash_rust::xxh3::xxh3_64_with_seed(bytes, seed)
}

/// Advances a SplitMix64 state by one step.
pub fn splitmix64(x: u64) -> (z: u64)
    ensures
        z == splitmix64_spec(x),
{
    let x1 = x.wrapping_add(GOLDEN_GAMMA);
    let z1 = (x1 ^ (x1 >> 30)).wrapping_mul(0xBF58_476D_1CE4_E5B9u64);
    let z2 = (z1 ^ (z1 >> 27)).wrapping_mul(0x94D0_49BB_1331_11EBu64);
    z2 ^ (z2 >> 31)
}

/// Keeps the top 53 bits of a hash value. The result is below `2^53`; scaled
/// by `2^-53` after adding one half, it lies strictly between 0 and 1.
pub fn draw_from_hash(hash: u64) -> (v: u64)
    ensures
        v == draw_spec(hash),
        v < 0x20_0000_0000_0000,
{
    assert(hash >> 11 < 0x20_0000_0000_0000u64) by (bit_vector);
    hash >> 11
}

/// Draws 53 pseudo-random bits for the input `x` under `seed`: the seeded hash
/// of the eight little-endian bytes of `x`, cut to its top 53 bits.
pub fn uniform_bits(seed: u64, x: u64) -> (v: u64)
    ensures
        v == uniform_bits_spec(seed, x),
        v < 0x20_0000_0000_0000,
{
    let bytes = u64_to_le_bytes(x);
    draw_from_hash(xxh3_seeded_hash64(bytes.as_slice(), seed))
}

/// The draws for every cell of an `r` by `r` matrix made under `seed`, in
/// row-major order: entry `c` holds the two draws of the cell in row `c / r` and
/// column `c % r`.
pub fn gaussian_draws(r: usize, seed: u64) -> (draws: Vec<(u64, u64)>)
    requires
        r * r <= usize::MAX,
    ensures
        draws.len() == r * r,
        forall|c: int|
            0 <= c < r * r ==> #[trigger] draws@[c] == cell_draws_spec(
                seed,
                r,
                (c / r as int) as usize,
                (c % r as int) as usize,
            ),
{
    let mut draws: Vec<(u64, u64)> = Vec::new();
    let mut k: u64 = 0;
    assert(0 * r == 0);
    for i in 0..r
        invariant
            r * r <= usize::MAX,
            k == i * r,
            draws.len() == k,
            forall|c: int|
                0 <= c < k ==> #[trigger] draws@[c] == cell_draws_spec(
                    seed,
                    r,
                    (c / r as int) as usize,
                    (c % r as int) as usize,
                ),
    {
        for j in 0..r
            invariant
                r * r <= usize::MAX,
                i < r,
                k == i * r + j,
                draws.len() == k,
                forall|c: int|
                    0 <= c < k ==> #[trigger] draws@[c] == cell_draws_spec(
                        seed,
                        r,
                        (c / r as int) as usize,
                        (c % r as int) as usize,
                    ),
        {
            proof {
                lemma_cell_index(r as int, i as int, j as int);
            }
            let u1 = uniform_bits(seed, k ^ ((i as u64) << 16) ^ (j as u64));
            let u2 = uniform_bits(seed, k.wrapping_mul(GOLDEN_GAMMA) ^ SECOND_DRAW_MASK);
            draws.push((u1, u2));
            k = k + 1;
        }
        assert(i * r + r == (i + 1) * r) by (nonlinear_arith);
    }
    draws
}

/// The cell in row `i` and column `j` of an `r` by `r` matrix has the
/// row-major index `i * r + j`, which is below `r * r` and from which the row and
/// the column are recovered by division.
proof fn lemma_cell_index(r: int, i: int, j: int)
    requires
        0 <= i < r,
        0 <= j < r,
    ensures
        0 <= i * r + j < r * r,
        (i * r + j) / r == i,
        (i * r + j) % r == j,
{
    assert(0 <= i * r && i * r + j < r * r) by (nonlinear_arith)
        requires
            0 <= i < r,
            0 <= j < r,
    ;
    vstd::arithmetic::div_mod::lemma_fundamental_div_mod_converse(i * r + j, r, i, j);
}

/// The configuration error of the Super-Bit engine: the block size is zero or
/// does not divide the number of signature bits.
#[derive(Debug, Clone, Copy, PartialEq, Eq, Structural)]
pub struct ConfigError {
    /// The number of signature bits that was asked for.
    pub bit_length: usize,
    /// The block size that was asked for.
    pub block_size: usize,
}

impl ConfigError {
    /// The error in words.
    pub fn message(&self) -> (text: String)
        ensures
            text@ == "r must divide L"@,
    {
        "r must divide L".to_string()
    }
}

/// How a Super-Bit engine with `L` signature bits splits them into blocks of
/// `block_size` bits each, and the seed from which its pseudo-random values
/// derive. The block size is positive and divides `L`.
pub struct SuperBitLayout<const L: usize> {
    r: usize,
    m: usize,
    seed: u64,
}

impl<const L: usize> SuperBitLayout<L> {
    #[verifier::type_invariant]
    spec fn well_formed(&self) -> bool {
        &&& self.r > 0
        &&& L % self.r == 0
        &&& self.m == L / self.r
    }

    /// The number of bits in a block.
    pub closed spec fn spec_block_size(&self) -> usize {
        self.r
    }

    /// The number of blocks.
    pub closed spec fn spec_block_count(&self) -> usize {
        self.m
    }

    /// The seed of the engine.
    pub closed spec fn spec_seed(&self) -> u64 {
        self.seed
    }

    /// Lays out an engine with blocks of `r` bits. Fails exactly when `r` is
    /// zero or does not divide `L`.
    pub fn new(r: usize, seed: u64) -> (res: Result<Self, ConfigError>)
        ensures
            res is Ok <==> r > 0 && L % r == 0,
            res matches Ok(layout) ==> {
                &&& layout.spec_block_size() == r
                &&& layout.spec_block_count() == L / r
                &&& layout.spec_seed() == seed
            },
            res matches Err(e) ==> e == (ConfigError { bit_length: L, block_size: r }),
    {
        if r == 0 || L % r != 0 {
            Err(ConfigError { bit_length: L, block_size: r })
        } else {
            Ok(SuperBitLayout { r, m: L / r, seed })
        }
    }

    /// The number of bits in a block.
    pub fn block_size(&self) -> (r: usize)
        ensures
            r == self.spec_block_size(),
            r > 0,
            L % r == 0,
    {
        proof {
            use_type_invariant(self);
        }
        self.r
    }

    /// The number of blocks; together the blocks make up the `L` bits.
    pub fn block_count(&self) -> (m: usize)
        ensures
            m == self.spec_block_count(),
            m == L / self.spec_block_size(),
            m * self.spec_block_size() == L,
    {
        proof {
            use_type_invariant(self);
            vstd::arithmetic::div_mod::lemma_fundamental_div_mod(L as int, self.r as int);
            assert(self.m * self.r == self.r * (L / self.r)) by (nonlinear_arith)
                requires
                    self.m == L / self.r,
            ;
        }
        self.m
    }

    /// The seed of the engine.
    pub fn seed(&self) -> (seed: u64)
        ensures
            seed == self.spec_seed(),
    {
        self.seed
    }

    /// The seed from which the projection matrix of block `b` is made.
    pub fn block_seed(&self, b: usize) -> (s: u64)
        ensures
            s == block_seed_spec(self.spec_seed(), b),
    {
        self.seed ^ (b as u64).wrapping_mul(BLOCK_SEED_STEP)
    }

    /// The index of the signature bit that row `row` of block `b` votes on.
    pub fn counter_index(&self, b: usize, row: usize) -> (i: usize)
        requires
            b < self.spec_block_count(),
            row < self.spec_block_size(),
        ensures
            i == b * self.spec_block_size() + row,
            i < L,
    {
        proof {
            use_type_invariant(self);
            vstd::arithmetic::div_mod::lemma_fundamental_div_mod(L as int, self.r as int);
            assert(b * self.r + row < self.r * self.m) by (nonlinear_arith)
                requires
                    b < self.m,
                    row < self.r,
            ;
            assert(0 <= b * self.r) by (nonlinear_arith)
                requires
                    0 <= b,
                    0 <= self.r,
            ;
        }
        b * self.r + row
    }

    /// Fills `signs` with the sign vector of one item and one block, replacing
    /// what it held: `block_size` entries, of which entry `j` is `+1` or `-1` as
    /// the top bit of the SplitMix64 state after `j + 1` steps is clear or set. The
    /// stream starts from the sign seed of the item's hash `base` and the block
    /// `b`.
    pub fn fill_signs(&self, base: u64, b: usize, signs: &mut Vec<i8>)
        ensures
            final(signs).len() == self.spec_block_size(),
            forall|j: int|
                0 <= j < self.spec_block_size() ==> #[trigger] final(signs)@[j] == sign_at(
                    sign_seed_spec(self.spec_seed(), base, b),
                    j as nat,
                ),
    {
        let start = self.seed ^ base ^ ((b as u64) << 32) ^ GOLDEN_GAMMA;
        let mut s = start;
        let r = self.r;
        signs.clear();
        for j in 0..r
            invariant
                r == self.r,
                signs.len() == j,
                start == sign_seed_spec(self.seed, base, b),
                s == splitmix64_iter(start, j as nat),
                forall|t: int| 0 <= t < j ==> #[trigger] signs@[t] == sign_at(start, t as nat),
        {
            s = splitmix64(s);
            let sign: i8 = if (s >> 63) == 0 {
                1
            } else {
                -1
            };
            signs.push(sign);
        }
    }
}

} // verus!
