//! The capability set of a signature type, and its two machine-word instances.

use vstd::prelude::*;
use super::bit_model::{
    and_bits, hamming, lemma_hamming_symmetric, lemma_hamming_zero_iff_equal, one_bits, or_bits,
    shl_bits, shr_bits, xor_bits, zero_bits,
};

verus! {

/// A fixed-width unsigned value that can carry a signature.
///
/// Every value stands for the bit string [`bits`](SimHashBits::bits), whose
/// length is [`width`](SimHashBits::width) and whose index 0 is the least
/// significant bit. Shifts are total: a bit shifted past either end is lost, and
/// a shift by the whole width or more leaves zero.
pub trait SimHashBits: Sized + Copy {
    /// Number of bits in a value of this type.
    spec fn width() -> nat;

    /// The value as a bit string, least significant bit first.
    spec fn bits(&self) -> Seq<bool>;

    /// Every value has exactly `width()` bits.
    proof fn lemma_bits_len(&self)
        ensures
            self.bits().len() == Self::width(),
    ;

    /// A value is determined by its bits.
    proof fn lemma_bits_injective(&self, other: &Self)
        requires
            self.bits() == other.bits(),
        ensures
            *self == *other,
    ;

    /// The width as a machine integer.
    fn bit_length() -> (n: usize)
        requires
            Self::width() <= usize::MAX,
        ensures
            n == Self::width(),
    ;

    /// The value with every bit clear.
    fn zero() -> (z: Self)
        ensures
            z.bits() == zero_bits(Self::width()),
    ;

    /// The value with only the least significant bit set.
    fn one() -> (o: Self)
        ensures
            o.bits() == one_bits(Self::width()),
    ;

    /// Bitwise AND.
    fn bit_and(self, rhs: Self) -> (r: Self)
        ensures
            r.bits() == and_bits(self.bits(), rhs.bits()),
    ;

    /// Bitwise OR.
    fn bit_or(self, rhs: Self) -> (r: Self)
        ensures
            r.bits() == or_bits(self.bits(), rhs.bits()),
    ;

    /// Bitwise XOR.
    fn bit_xor(self, rhs: Self) -> (r: Self)
        ensures
            r.bits() == xor_bits(self.bits(), rhs.bits()),
    ;

    /// Shift towards the most significant end by `n` bits.
    fn shift_left(self, n: usize) -> (r: Self)
        ensures
            r.bits() == shl_bits(self.bits(), n as nat),
    ;

    /// Shift towards the least significant end by `n` bits.
    fn shift_right(self, n: usize) -> (r: Self)
        ensures
            r.bits() == shr_bits(self.bits(), n as nat),
    ;

    /// Whether two values are bit-identical.
    fn equals(&self, rhs: &Self) -> (same: bool)
        ensures
            same == (self.bits() == rhs.bits()),
    ;

    /// Number of bit positions at which the two values differ.
    fn hamming_distance(&self, rhs: &Self) -> (d: usize)
        requires
            Self::width() <= usize::MAX,
        ensures
            d == hamming(self.bits(), rhs.bits()),
    ;
}

/// The Hamming distance between two values is the same in both directions.
pub proof fn lemma_distance_symmetric<S: SimHashBits>(a: S, b: S)
    ensures
        hamming(a.bits(), b.bits()) == hamming(b.bits(), a.bits()),
{
    a.lemma_bits_len();
    b.lemma_bits_len();
    lemma_hamming_symmetric(a.bits(), b.bits());
}

/// Two values are at Hamming distance zero exactly when they are the same
/// value.
pub proof fn lemma_distance_zero_iff_identical<S: SimHashBits>(a: S, b: S)
    ensures
        hamming(a.bits(), b.bits()) == 0 <==> a == b,
{
    a.lemma_bits_len();
    b.lemma_bits_len();
    lemma_hamming_zero_iff_equal(a.bits(), b.bits());
    if a.bits() == b.bits() {
        a.lemma_bits_injective(&b);
    }
}

} // verus!
