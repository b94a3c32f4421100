//! What holds of the SimHash engine on every input.

use vstd::prelude::*;
use super::bits::SimHashBits;
use super::sim_hash::SimHash;
use super::votes::{centroid_bits, ones_at, signature_bits, tally, vote};
use super::sim_hasher::SimHasher;

verus! {

/// A signature is a function of the hasher and the items in their order: two
/// signatures computed by one engine from the same items are the same value.
pub proof fn lemma_signature_deterministic<H, S, const L: usize>(
    engine: SimHash<H, S, L>,
    items: Seq<Seq<u8>>,
    first: S,
    second: S,
) where H: SimHasher<T = S>, S: SimHashBits
    requires
        first.bits() == signature_bits(engine.hashes(items), L as nat),
        second.bits() == signature_bits(engine.hashes(items), L as nat),
    ensures
        first == second,
{
    first.lemma_bits_injective(&second);
}

/// Votes can be counted group by group: the tally of two groups of hashes taken
/// together is the sum of their tallies.
pub proof fn lemma_tally_concat<S: SimHashBits>(a: Seq<S>, b: Seq<S>, i: int)
    ensures
        tally(a + b, i) == tally(a, i) + tally(b, i),
    decreases b.len(),
{
    if b.len() == 0 {
        assert(a + b =~= a);
    } else {
        lemma_tally_concat(a, b.drop_last(), i);
        assert((a + b).drop_last() =~= a + b.drop_last());
        assert((a + b).last() == b.last());
    }
}

/// Taking one hash out of a sequence takes exactly its vote out of the tally.
pub proof fn lemma_tally_remove<S: SimHashBits>(hashes: Seq<S>, k: int, i: int)
    requires
        0 <= k < hashes.len(),
    ensures
        tally(hashes, i) == tally(hashes.remove(k), i) + vote(hashes[k], i),
    decreases hashes.len(),
{
    if k == hashes.len() - 1 {
        assert(hashes.remove(k) =~= hashes.drop_last());
    } else {
        lemma_tally_remove(hashes.drop_last(), k, i);
        assert(hashes.remove(k).drop_last() =~= hashes.drop_last().remove(k));
        assert(hashes.remove(k).last() == hashes.last());
    }
}

/// The tally at a bit position is a commutative sum: it is the same for two
/// sequences that hold the same hashes the same number of times, in any order.
pub proof fn lemma_tally_permutation<S: SimHashBits>(a: Seq<S>, b: Seq<S>, i: int)
    requires
        a.to_multiset() == b.to_multiset(),
    ensures
        tally(a, i) == tally(b, i),
    decreases a.len(),
{
    a.to_multiset_ensures();
    b.to_multiset_ensures();
    if a.len() > 0 {
        let x = a.last();
        let rest = a.drop_last();
        rest.to_multiset_ensures();
        assert(a =~= rest.push(x));
        assert(a.to_multiset().count(x) > 0);
        assert(b.contains(x));
        let k = choose|k: int| 0 <= k < b.len() && b[k] == x;
        let others = b.remove(k);
        assert(rest.to_multiset() =~= a.to_multiset().remove(x));
        assert(others.to_multiset() =~= rest.to_multiset());
        lemma_tally_permutation(rest, others, i);
        lemma_tally_remove(b, k, i);
    } else {
        assert(b.len() == 0);
    }
}

/// Reordering the items reorders their hashes: two sequences that hold the same
/// items the same number of times have hash sequences that do so too.
pub proof fn lemma_hashes_permutation<H, S, const L: usize>(
    engine: SimHash<H, S, L>,
    a: Seq<Seq<u8>>,
    b: Seq<Seq<u8>>,
) where H: SimHasher<T = S>, S: SimHashBits
    requires
        a.to_multiset() == b.to_multiset(),
    ensures
        engine.hashes(a).to_multiset() == engine.hashes(b).to_multiset(),
    decreases a.len(),
{
    a.to_multiset_ensures();
    b.to_multiset_ensures();
    let ha = engine.hashes(a);
    let hb = engine.hashes(b);
    if a.len() > 0 {
        let x = a.last();
        let rest = a.drop_last();
        rest.to_multiset_ensures();
        assert(a =~= rest.push(x));
        assert(a.to_multiset().count(x) > 0);
        assert(b.contains(x));
        let k = choose|k: int| 0 <= k < b.len() && b[k] == x;
        let others = b.remove(k);
        assert(rest.to_multiset() =~= a.to_multiset().remove(x));
        assert(others.to_multiset() =~= rest.to_multiset());
        lemma_hashes_permutation(engine, rest, others);
        let hx = engine.spec_hasher().spec_hash(x);
        let hrest = engine.hashes(rest);
        let hothers = engine.hashes(others);
        hrest.to_multiset_ensures();
        hb.to_multiset_ensures();
        assert(ha =~= hrest.push(hx));
        assert(hb.remove(k) =~= hothers);
        assert(hb[k] == hx);
        assert(hothers.to_multiset() =~= hb.to_multiset().remove(hx));
        assert(hb.to_multiset().count(hx) > 0) by {
            assert(hb.contains(hx));
        }
        assert(hb.to_multiset() =~= hothers.to_multiset().insert(hx));
        assert(ha.to_multiset() =~= hb.to_multiset());
    } else {
        assert(b.len() == 0);
        assert(ha =~= hb);
    }
}

/// The signature of a sequence of hashes does not depend on their order.
pub proof fn lemma_signature_order_independent<S: SimHashBits>(a: Seq<S>, b: Seq<S>, len: nat)
    requires
        a.to_multiset() == b.to_multiset(),
    ensures
        signature_bits(a, len) == signature_bits(b, len),
{
    assert forall|i: int| 0 <= i < S::width() implies tally(a, i) == tally(b, i) by {
        lemma_tally_permutation(a, b, i);
    }
    assert(signature_bits(a, len) =~= signature_bits(b, len));
}

/// The signature that an engine computes does not depend on the order of the
/// items: any rearrangement of the items gives the same signature.
pub proof fn lemma_create_signature_order_independent<H, S, const L: usize>(
    engine: SimHash<H, S, L>,
    a: Seq<Seq<u8>>,
    b: Seq<Seq<u8>>,
    first: S,
    second: S,
) where H: SimHasher<T = S>, S: SimHashBits
    requires
        a.to_multiset() == b.to_multiset(),
        first.bits() == signature_bits(engine.hashes(a), L as nat),
        second.bits() == signature_bits(engine.hashes(b), L as nat),
    ensures
        first == second,
{
    lemma_hashes_permutation(engine, a, b);
    lemma_signature_order_independent(engine.hashes(a), engine.hashes(b), L as nat);
    first.lemma_bits_injective(&second);
}

/// The centroid of a batch of one signature is that signature, provided the
/// signature has no bit set at or above the number of bits voted on.
pub proof fn lemma_centroid_of_one<S: SimHashBits>(signature: S, centroid: S, len: nat)
    requires
        centroid.bits() == centroid_bits(seq![signature], len),
        forall|i: int| len <= i < S::width() ==> !signature.bits()[i],
    ensures
        centroid == signature,
{
    signature.lemma_bits_len();
    let batch = seq![signature];
    assert(batch.drop_last() =~= Seq::<S>::empty());
    assert forall|i: int| 0 <= i < S::width() implies centroid_bits(batch, len)[i]
        == signature.bits()[i] by {
        assert(ones_at(batch.drop_last(), i) == 0);
        assert(batch.last() == signature);
    }
    assert(centroid.bits() =~= signature.bits());
    centroid.lemma_bits_injective(&signature);
}

/// The centroid is a strict majority vote: a bit position that is voted on is
/// set in the centroid when more than half of the batch have it set, and clear
/// when exactly half or fewer do.
pub proof fn lemma_centroid_strict_majority<S: SimHashBits>(signatures: Seq<S>, len: nat, i: int)
    requires
        0 <= i < len,
        i < S::width(),
    ensures
        2 * ones_at(signatures, i) > signatures.len() ==> centroid_bits(signatures, len)[i],
        2 * ones_at(signatures, i) <= signatures.len() ==> !centroid_bits(signatures, len)[i],
{
}

} // verus!
