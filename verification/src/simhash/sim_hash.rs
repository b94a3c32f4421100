//! The classic SimHash engine: bit-wise majority votes over hashed items, and
//! the majority centroid of a batch of signatures.

use std::marker::PhantomData;
use vstd::prelude::*;
use super::bits::SimHashBits;
use super::sim_hasher::SimHasher;
use super::votes::{centroid_bits, signature_bits, CentroidCounter, VoteCounter};

verus! {

/// A SimHash engine producing signatures of type `S` from the hasher `H`,
/// voting on the low `L` bits.
#[verifier::reject_recursive_types(H)]
#[verifier::reject_recursive_types(S)]
pub struct SimHash<H, S, const L: usize> where H: SimHasher<T = S>, S: SimHashBits {
    hasher: H,
    marker: PhantomData<(S, H)>,
}

impl<H, S, const L: usize> SimHash<H, S, L> where H: SimHasher<T = S>, S: SimHashBits {
    /// The hasher that the engine owns.
    pub closed spec fn spec_hasher(&self) -> H {
        self.hasher
    }

    /// The hashes of the items, in order.
    pub open spec fn hashes(&self, items: Seq<Seq<u8>>) -> Seq<S> {
        Seq::new(items.len(), |k: int| self.spec_hasher().spec_hash(items[k]))
    }

    /// An engine around the given hasher.
    pub fn new(hasher: H) -> (engine: Self)
        ensures
            engine.spec_hasher() == hasher,
    {
        SimHash { hasher, marker: PhantomData }
    }

    /// The hasher that the engine owns.
    pub fn hasher(&self) -> (hasher: &H)
        ensures
            *hasher == self.spec_hasher(),
    {
        &self.hasher
    }

    /// Computes the signature of a sequence of items, each given as its bytes:
    /// every item is hashed, and bit `i < L` of the signature is set exactly when
    /// more hashes have bit `i` clear than have it set. No items give the
    /// all-clear signature.
    pub fn create_signature(&self, items: &[Vec<u8>]) -> (sig: S)
        ensures
            sig.bits() == signature_bits(self.hashes(items.deep_view()), L as nat),
    {
        let mut counter = VoteCounter::<S, L>::new();
        let n = items.len();
        let ghost hashes = self.hashes(items.deep_view());
        for k in 0..n
            invariant
                n == items.len(),
                hashes == self.hashes(items.deep_view()),
                counter.hashes() == hashes.take(k as int),
        {
            let hash = self.hasher.hash(items[k].as_slice());
            assert(items.deep_view()[k as int] == items@[k as int]@);
            counter.add(hash);
            assert(hashes.take(k as int).push(hash) =~= hashes.take(k + 1));
        }
        assert(hashes.take(n as int) =~= hashes);
        counter.signature()
    }

    /// Computes the majority centroid of a batch of signatures: bit `i < L` is
    /// set exactly when the number of signatures with bit `i` set exceeds half
    /// the size of the batch, rounded down; a tie leaves the bit clear. The empty
    /// batch gives the all-clear signature.
    pub fn create_centroid(&self, signatures: &[S]) -> (centroid: S)
        ensures
            centroid.bits() == centroid_bits(signatures@, L as nat),
    {
        let mut counter = CentroidCounter::<S, L>::new();
        let n = signatures.len();
        for k in 0..n
            invariant
                n == signatures.len(),
                counter.signatures() == signatures@.take(k as int),
        {
            counter.add(signatures[k]);
            assert(signatures@.take(k as int).push(signatures@[k as int]) =~= signatures@.take(
                k + 1,
            ));
        }
        assert(signatures@.take(n as int) =~= signatures@);
        counter.centroid()
    }
}

} // verus!
