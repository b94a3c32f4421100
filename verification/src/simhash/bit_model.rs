//! Bit strings as mathematical sequences, least significant bit first.
//!
//! Every signature type is described by the `Seq<bool>` it stands for; the
//! operations of the types are stated against the functions defined here.

use vstd::prelude::*;

verus! {

/// The bit string of the given width with every bit clear.
pub open spec fn zero_bits(width: nat) -> Seq<bool> {
    Seq::new(width, |i: int| false)
}

/// The bit string of the given width with only bit 0 set.
pub open spec fn one_bits(width: nat) -> Seq<bool> {
    Seq::new(width, |i: int| i == 0)
}

/// Bitwise AND, position by position, at the width of `a`.
pub open spec fn and_bits(a: Seq<bool>, b: Seq<bool>) -> Seq<bool> {
    Seq::new(a.len(), |i: int| a[i] && b[i])
}

/// Bitwise OR, position by position, at the width of `a`.
pub open spec fn or_bits(a: Seq<bool>, b: Seq<bool>) -> Seq<bool> {
    Seq::new(a.len(), |i: int| a[i] || b[i])
}

/// Bitwise XOR, position by position, at the width of `a`.
pub open spec fn xor_bits(a: Seq<bool>, b: Seq<bool>) -> Seq<bool> {
    Seq::new(a.len(), |i: int| a[i] != b[i])
}

/// Shift towards the high end by `n` positions: bit `i` of the result is bit
/// `i - n` of `a`, the low `n` bits are clear, and what leaves the width is lost.
pub open spec fn shl_bits(a: Seq<bool>, n: nat) -> Seq<bool> {
    Seq::new(a.len(), |i: int| i >= n && a[i - n])
}

/// Shift towards the low end by `n` positions: bit `i` of the result is bit
/// `i + n` of `a`, and the high `n` bits are clear.
pub open spec fn shr_bits(a: Seq<bool>, n: nat) -> Seq<bool> {
    Seq::new(a.len(), |i: int| i + n < a.len() && a[i + n])
}

/// `a` with bit `i` set; unchanged where `i` lies outside the width.
pub open spec fn with_bit(a: Seq<bool>, i: nat) -> Seq<bool> {
    Seq::new(a.len(), |j: int| a[j] || j == i)
}

/// Number of set bits.
pub open spec fn popcount(a: Seq<bool>) -> nat
    decreases a.len(),
{
    if a.len() == 0 {
        0
    } else {
        popcount(a.drop_last()) + if a.last() { 1nat } else { 0nat }
    }
}

/// Hamming distance: the number of positions at which `a` and `b` differ.
pub open spec fn hamming(a: Seq<bool>, b: Seq<bool>) -> nat {
    popcount(xor_bits(a, b))
}

/// A bit string has at most as many set bits as it has bits.
pub proof fn lemma_popcount_bound(a: Seq<bool>)
    ensures
        popcount(a) <= a.len(),
    decreases a.len(),
{
    if a.len() > 0 {
        lemma_popcount_bound(a.drop_last());
    }
}

/// The set bits of a concatenation are those of its two parts.
pub proof fn lemma_popcount_concat(a: Seq<bool>, b: Seq<bool>)
    ensures
        popcount(a + b) == popcount(a) + popcount(b),
    decreases b.len(),
{
    if b.len() == 0 {
        assert(a + b =~= a);
    } else {
        lemma_popcount_concat(a, b.drop_last());
        assert((a + b).drop_last() =~= a + b.drop_last());
        assert((a + b).last() == b.last());
    }
}

/// No bit is counted exactly when no bit is set.
pub proof fn lemma_popcount_zero(a: Seq<bool>)
    ensures
        popcount(a) == 0 <==> (forall|i: int| 0 <= i < a.len() ==> !a[i]),
    decreases a.len(),
{
    if a.len() > 0 {
        let init = a.drop_last();
        lemma_popcount_zero(init);
        if popcount(a) == 0 {
            assert forall|i: int| 0 <= i < a.len() implies !a[i] by {
                if i < a.len() - 1 {
                    assert(a[i] == init[i]);
                }
            }
        }
        if forall|i: int| 0 <= i < a.len() ==> !a[i] {
            assert forall|i: int| 0 <= i < init.len() implies !init[i] by {
                assert(init[i] == a[i]);
            }
            assert(!a.last());
        }
    }
}

/// OR with a one shifted to position `i` sets bit `i` and changes no other
/// bit.
pub proof fn lemma_or_shifted_one(a: Seq<bool>, i: nat)
    ensures
        or_bits(a, shl_bits(one_bits(a.len()), i)) == with_bit(a, i),
{
    assert(or_bits(a, shl_bits(one_bits(a.len()), i)) =~= with_bit(a, i));
}

/// The Hamming distance does not depend on the order of its operands.
pub proof fn lemma_hamming_symmetric(a: Seq<bool>, b: Seq<bool>)
    requires
        a.len() == b.len(),
    ensures
        hamming(a, b) == hamming(b, a),
{
    assert(xor_bits(a, b) =~= xor_bits(b, a));
}

/// Two bit strings of one width are at distance zero exactly when they are
/// the same string.
pub proof fn lemma_hamming_zero_iff_equal(a: Seq<bool>, b: Seq<bool>)
    requires
        a.len() == b.len(),
    ensures
        hamming(a, b) == 0 <==> a == b,
{
    let x = xor_bits(a, b);
    lemma_popcount_zero(x);
    if hamming(a, b) == 0 {
        assert forall|i: int| 0 <= i < a.len() implies a[i] == b[i] by {
            assert(!x[i]);
        }
        assert(a =~= b);
    }
}

} // verus!
