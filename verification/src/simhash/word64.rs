//! 64-bit words as signatures.

use vstd::prelude::*;
use super::bit_model::{
    and_bits, lemma_popcount_bound, one_bits, or_bits, popcount, shl_bits, shr_bits, xor_bits,
    zero_bits,
};
use super::bits::SimHashBits;

verus! {

/// Bit `i` of a 64-bit word, for `i < 64`.
pub open spec fn u64_bit(x: u64, i: u64) -> bool {
    (x >> i) & 1 == 1
}

/// The 64 bits of a word, least significant first.
pub open spec fn u64_bits(x: u64) -> Seq<bool> {
    Seq::new(64, |i: int| u64_bit(x, i as u64))
}

/// `u64::count_ones` of the standard library: the number of ones in the binary
/// representation of the argument, as its documentation says. Taken on trust.
pub assume_specification[ u64::count_ones ](x: u64) -> (r: u32)
    ensures
        r == popcount(u64_bits(x)),
;

/// How single bits of a word behave under AND, OR and XOR, and the bits of
/// zero and one.
pub proof fn lemma_u64_bit_logic(a: u64, b: u64, i: u64)
    by (bit_vector)
    requires
        i < 64,
    ensures
        u64_bit(a & b, i) == (u64_bit(a, i) && u64_bit(b, i)),
        u64_bit(a | b, i) == (u64_bit(a, i) || u64_bit(b, i)),
        u64_bit(a ^ b, i) == (u64_bit(a, i) != u64_bit(b, i)),
        !u64_bit(0, i),
        u64_bit(1, i) == (i == 0),
{
}

/// How single bits of a word move under a shift by less than the width.
pub proof fn lemma_u64_bit_shift(a: u64, n: u64, i: u64)
    by (bit_vector)
    requires
        n < 64,
        i < 64,
    ensures
        u64_bit(a << n, i) == (i >= n && u64_bit(a, (i - n) as u64)),
        u64_bit(a >> n, i) == (i + n < 64 && u64_bit(a, (i + n) as u64)),
{
}

/// A word with nothing above bit `k` and bit `k` clear has nothing from bit `k`
/// up.
proof fn lemma_u64_clear_step(x: u64, k: u64)
    by (bit_vector)
    requires
        k < 64,
        k == 63 || x >> ((k + 1) as u64) == 0,
        !u64_bit(x, k),
    ensures
        x >> k == 0,
{
}

/// A word with every bit clear has nothing from bit `k` up.
proof fn lemma_u64_clear_above(x: u64, k: u64)
    requires
        k < 64,
        forall|i: int| 0 <= i < 64 ==> !#[trigger] u64_bits(x)[i],
    ensures
        x >> k == 0,
    decreases 64 - k,
{
    if k < 63 {
        lemma_u64_clear_above(x, (k + 1) as u64);
    }
    assert(!u64_bits(x)[k as int]);
    lemma_u64_clear_step(x, k);
}

/// Words whose XOR is zero are equal.
proof fn lemma_u64_xor_clear(a: u64, b: u64)
    by (bit_vector)
    requires
        (a ^ b) >> 0 == 0,
    ensures
        a == b,
{
}

/// The bits of zero are all clear, and of one only the lowest is set.
pub proof fn lemma_u64_bits_constants()
    ensures
        u64_bits(0) == zero_bits(64),
        u64_bits(1) == one_bits(64),
{
    assert forall|i: int| 0 <= i < 64 implies !#[trigger] u64_bits(0)[i] by {
        lemma_u64_bit_logic(0, 0, i as u64);
    }
    assert forall|i: int| 0 <= i < 64 implies #[trigger] u64_bits(1)[i] == (i == 0) by {
        lemma_u64_bit_logic(0, 0, i as u64);
    }
    assert(u64_bits(0) =~= zero_bits(64));
    assert(u64_bits(1) =~= one_bits(64));
}

/// The bits of an AND, OR or XOR of two words are those of their bits.
pub proof fn lemma_u64_bits_logic(a: u64, b: u64)
    ensures
        u64_bits(a & b) == and_bits(u64_bits(a), u64_bits(b)),
        u64_bits(a | b) == or_bits(u64_bits(a), u64_bits(b)),
        u64_bits(a ^ b) == xor_bits(u64_bits(a), u64_bits(b)),
{
    assert forall|i: int| 0 <= i < 64 implies #[trigger] u64_bits(a & b)[i] == (u64_bits(a)[i]
        && u64_bits(b)[i]) by {
        lemma_u64_bit_logic(a, b, i as u64);
    }
    assert forall|i: int| 0 <= i < 64 implies #[trigger] u64_bits(a | b)[i] == (u64_bits(a)[i]
        || u64_bits(b)[i]) by {
        lemma_u64_bit_logic(a, b, i as u64);
    }
    assert forall|i: int| 0 <= i < 64 implies #[trigger] u64_bits(a ^ b)[i] == (u64_bits(a)[i]
        != u64_bits(b)[i]) by {
        lemma_u64_bit_logic(a, b, i as u64);
    }
    assert(u64_bits(a & b) =~= and_bits(u64_bits(a), u64_bits(b)));
    assert(u64_bits(a | b) =~= or_bits(u64_bits(a), u64_bits(b)));
    assert(u64_bits(a ^ b) =~= xor_bits(u64_bits(a), u64_bits(b)));
}

/// The bits of a word shifted by less than its width are its bits shifted.
pub proof fn lemma_u64_bits_shift(a: u64, n: u64)
    requires
        n < 64,
    ensures
        u64_bits(a << n) == shl_bits(u64_bits(a), n as nat),
        u64_bits(a >> n) == shr_bits(u64_bits(a), n as nat),
{
    assert forall|i: int| 0 <= i < 64 implies #[trigger] u64_bits(a << n)[i] == (i >= n
        && u64_bits(a)[i - n]) by {
        lemma_u64_bit_shift(a, n, i as u64);
    }
    assert forall|i: int| 0 <= i < 64 implies #[trigger] u64_bits(a >> n)[i] == (i + n < 64
        && u64_bits(a)[i + n]) by {
        lemma_u64_bit_shift(a, n, i as u64);
    }
    assert(u64_bits(a << n) =~= shl_bits(u64_bits(a), n as nat));
    assert(u64_bits(a >> n) =~= shr_bits(u64_bits(a), n as nat));
}

/// A 64-bit word is determined by its bits.
pub proof fn lemma_u64_bits_injective(a: u64, b: u64)
    requires
        u64_bits(a) == u64_bits(b),
    ensures
        a == b,
{
    lemma_u64_bits_logic(a, b);
    lemma_u64_clear_above(a ^ b, 0);
    lemma_u64_xor_clear(a, b);
}

impl SimHashBits for u64 {
    open spec fn width() -> nat {
        64
    }

    open spec fn bits(&self) -> Seq<bool> {
        u64_bits(*self)
    }

    proof fn lemma_bits_len(&self) {
    }

    proof fn lemma_bits_injective(&self, other: &Self) {
        lemma_u64_bits_injective(*self, *other);
    }

    fn bit_length() -> (n: usize) {
        64
    }

    fn zero() -> (z: Self) {
        proof {
            lemma_u64_bits_constants();
        }
        0
    }

    fn one() -> (o: Self) {
        proof {
            lemma_u64_bits_constants();
        }
        1
    }

    fn bit_and(self, rhs: Self) -> (r: Self) {
        proof {
            lemma_u64_bits_logic(self, rhs);
        }
        self & rhs
    }

    fn bit_or(self, rhs: Self) -> (r: Self) {
        proof {
            lemma_u64_bits_logic(self, rhs);
        }
        self | rhs
    }

    fn bit_xor(self, rhs: Self) -> (r: Self) {
        proof {
            lemma_u64_bits_logic(self, rhs);
        }
        self ^ rhs
    }

    fn shift_left(self, n: usize) -> (r: Self) {
        if n >= 64 {
            proof {
                lemma_u64_bits_constants();
                assert(zero_bits(64) =~= shl_bits(u64_bits(self), n as nat));
            }
            0
        } else {
            proof {
                lemma_u64_bits_shift(self, n as u64);
            }
            self << n
        }
    }

    fn shift_right(self, n: usize) -> (r: Self) {
        if n >= 64 {
            proof {
                lemma_u64_bits_constants();
                assert(zero_bits(64) =~= shr_bits(u64_bits(self), n as nat));
            }
            0
        } else {
            proof {
                lemma_u64_bits_shift(self, n as u64);
            }
            self >> n
        }
    }

    fn equals(&self, rhs: &Self) -> (same: bool) {
        proof {
            if u64_bits(*self) == u64_bits(*rhs) {
                lemma_u64_bits_injective(*self, *rhs);
            }
        }
        *self == *rhs
    }

    fn hamming_distance(&self, rhs: &Self) -> (d: usize) {
        proof {
            lemma_u64_bits_logic(*self, *rhs);
            lemma_popcount_bound(u64_bits(*self ^ *rhs));
        }
        (*self ^ *rhs).count_ones() as usize
    }
}

} // verus!
