//! 128-bit words as signatures.

use vstd::prelude::*;
use super::bit_model::{
    and_bits, lemma_popcount_bound, one_bits, or_bits, popcount, shl_bits, shr_bits, xor_bits,
    zero_bits,
};
use super::bits::SimHashBits;

verus! {

/// Bit `i` of a 128-bit word, for `i < 128`.
pub open spec fn u128_bit(x: u128, i: u128) -> bool {
    (x >> i) & 1 == 1
}

/// The 128 bits of a word, least significant first.
pub open spec fn u128_bits(x: u128) -> Seq<bool> {
    Seq::new(128, |i: int| u128_bit(x, i as u128))
}

/// `u128::count_ones` of the standard library: the number of ones in the binary
/// representation of the argument, as its documentation says. Taken on trust.
pub assume_specification[ u128::count_ones ](x: u128) -> (r: u32)
    ensures
        r == popcount(u128_bits(x)),
;

/// How single bits of a word behave under AND, OR and XOR, and the bits of
/// zero and one.
pub proof fn lemma_u128_bit_logic(a: u128, b: u128, i: u128)
    by (bit_vector)
    requires
        i < 128,
    ensures
        u128_bit(a & b, i) == (u128_bit(a, i) && u128_bit(b, i)),
        u128_bit(a | b, i) == (u128_bit(a, i) || u128_bit(b, i)),
        u128_bit(a ^ b, i) == (u128_bit(a, i) != u128_bit(b, i)),
        !u128_bit(0, i),
        u128_bit(1, i) == (i == 0),
{
}

/// How single bits of a word move under a shift by less than the width.
pub proof fn lemma_u128_bit_shift(a: u128, n: u128, i: u128)
    by (bit_vector)
    requires
        n < 128,
        i < 128,
    ensures
        u128_bit(a << n, i) == (i >= n && u128_bit(a, (i - n) as u128)),
        u128_bit(a >> n, i) == (i + n < 128 && u128_bit(a, (i + n) as u128)),
{
}

/// A word with nothing above bit `k` and bit `k` clear has nothing from bit `k`
/// up.
proof fn lemma_u128_clear_step(x: u128, k: u128)
    by (bit_vector)
    requires
        k < 128,
        k == 127 || x >> ((k + 1) as u128) == 0,
        !u128_bit(x, k),
    ensures
        x >> k == 0,
{
}

/// A word with every bit clear has nothing from bit `k` up.
proof fn lemma_u128_clear_above(x: u128, k: u128)
    requires
        k < 128,
        forall|i: int| 0 <= i < 128 ==> !#[trigger] u128_bits(x)[i],
    ensures
        x >> k == 0,
    decreases 128 - k,
{
    if k < 127 {
        lemma_u128_clear_above(x, (k + 1) as u128);
    }
    assert(!u128_bits(x)[k as int]);
    lemma_u128_clear_step(x, k);
}

/// Words whose XOR is zero are equal.
proof fn lemma_u128_xor_clear(a: u128, b: u128)
    by (bit_vector)
    requires
        (a ^ b) >> 0 == 0,
    ensures
        a == b,
{
}

/// The bits of zero are all clear, and of one only the lowest is set.
pub proof fn lemma_u128_bits_constants()
    ensures
        u128_bits(0) == zero_bits(128),
        u128_bits(1) == one_bits(128),
{
    assert forall|i: int| 0 <= i < 128 implies !#[trigger] u128_bits(0)[i] by {
        lemma_u128_bit_logic(0, 0, i as u128);
    }
    assert forall|i: int| 0 <= i < 128 implies #[trigger] u128_bits(1)[i] == (i == 0) by {
        lemma_u128_bit_logic(0, 0, i as u128);
    }
    assert(u128_bits(0) =~= zero_bits(128));
    assert(u128_bits(1) =~= one_bits(128));
}

/// The bits of an AND, OR or XOR of two words are those of their bits.
pub proof fn lemma_u128_bits_logic(a: u128, b: u128)
    ensures
        u128_bits(a & b) == and_bits(u128_bits(a), u128_bits(b)),
        u128_bits(a | b) == or_bits(u128_bits(a), u128_bits(b)),
        u128_bits(a ^ b) == xor_bits(u128_bits(a), u128_bits(b)),
{
    assert forall|i: int| 0 <= i < 128 implies #[trigger] u128_bits(a & b)[i] == (u128_bits(a)[i]
        && u128_bits(b)[i]) by {
        lemma_u128_bit_logic(a, b, i as u128);
    }
    assert forall|i: int| 0 <= i < 128 implies #[trigger] u128_bits(a | b)[i] == (u128_bits(a)[i]
        || u128_bits(b)[i]) by {
        lemma_u128_bit_logic(a, b, i as u128);
    }
    assert forall|i: int| 0 <= i < 128 implies #[trigger] u128_bits(a ^ b)[i] == (u128_bits(a)[i]
        != u128_bits(b)[i]) by {
        lemma_u128_bit_logic(a, b, i as u128);
    }
    assert(u128_bits(a & b) =~= and_bits(u128_bits(a), u128_bits(b)));
    assert(u128_bits(a | b) =~= or_bits(u128_bits(a), u128_bits(b)));
    assert(u128_bits(a ^ b) =~= xor_bits(u128_bits(a), u128_bits(b)));
}

/// The bits of a word shifted by less than its width are its bits shifted.
pub proof fn lemma_u128_bits_shift(a: u128, n: u128)
    requires
        n < 128,
    ensures
        u128_bits(a << n) == shl_bits(u128_bits(a), n as nat),
        u128_bits(a >> n) == shr_bits(u128_bits(a), n as nat),
{
    assert forall|i: int| 0 <= i < 128 implies #[trigger] u128_bits(a << n)[i] == (i >= n
        && u128_bits(a)[i - n]) by {
        lemma_u128_bit_shift(a, n, i as u128);
    }
    assert forall|i: int| 0 <= i < 128 implies #[trigger] u128_bits(a >> n)[i] == (i + n < 128
        && u128_bits(a)[i + n]) by {
        lemma_u128_bit_shift(a, n, i as u128);
    }
    assert(u128_bits(a << n) =~= shl_bits(u128_bits(a), n as nat));
    assert(u128_bits(a >> n) =~= shr_bits(u128_bits(a), n as nat));
}

/// A 128-bit word is determined by its bits.
pub proof fn lemma_u128_bits_injective(a: u128, b: u128)
    requires
        u128_bits(a) == u128_bits(b),
    ensures
        a == b,
{
    lemma_u128_bits_logic(a, b);
    lemma_u128_clear_above(a ^ b, 0);
    lemma_u128_xor_clear(a, b);
}

impl SimHashBits for u128 {
    open spec fn width() -> nat {
        128
    }

    open spec fn bits(&self) -> Seq<bool> {
        u128_bits(*self)
    }

    proof fn lemma_bits_len(&self) {
    }

    proof fn lemma_bits_injective(&self, other: &Self) {
        lemma_u128_bits_injective(*self, *other);
    }

    fn bit_length() -> (n: usize) {
        128
    }

    fn zero() -> (z: Self) {
        proof {
            lemma_u128_bits_constants();
        }
        0
    }

    fn one() -> (o: Self) {
        proof {
            lemma_u128_bits_constants();
        }
        1
    }

    fn bit_and(self, rhs: Self) -> (r: Self) {
        proof {
            lemma_u128_bits_logic(self, rhs);
        }
        self & rhs
    }

    fn bit_or(self, rhs: Self) -> (r: Self) {
        proof {
            lemma_u128_bits_logic(self, rhs);
        }
        self | rhs
    }

    fn bit_xor(self, rhs: Self) -> (r: Self) {
        proof {
            lemma_u128_bits_logic(self, rhs);
        }
        self ^ rhs
    }

    fn shift_left(self, n: usize) -> (r: Self) {
        if n >= 128 {
            proof {
                lemma_u128_bits_constants();
                assert(zero_bits(128) =~= shl_bits(u128_bits(self), n as nat));
            }
            0
        } else {
            proof {
                lemma_u128_bits_shift(self, n as u128);
            }
            self << n
        }
    }

    fn shift_right(self, n: usize) -> (r: Self) {
        if n >= 128 {
            proof {
                lemma_u128_bits_constants();
                assert(zero_bits(128) =~= shr_bits(u128_bits(self), n as nat));
            }
            0
        } else {
            proof {
                lemma_u128_bits_shift(self, n as u128);
            }
            self >> n
        }
    }

    fn equals(&self, rhs: &Self) -> (same: bool) {
        proof {
            if u128_bits(*self) == u128_bits(*rhs) {
                lemma_u128_bits_injective(*self, *rhs);
            }
        }
        *self == *rhs
    }

    fn hamming_distance(&self, rhs: &Self) -> (d: usize) {
        proof {
            lemma_u128_bits_logic(*self, *rhs);
            lemma_popcount_bound(u128_bits(*self ^ *rhs));
        }
        (*self ^ *rhs).count_ones() as usize
    }
}

} // verus!
