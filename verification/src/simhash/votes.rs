//! Bit-wise voting: the counters behind a signature and behind a centroid.

use vstd::prelude::*;
use super::bit_model::{lemma_or_shifted_one, one_bits, shr_bits, with_bit, zero_bits};
use super::bits::SimHashBits;

verus! {

/// The vote that one hash casts at bit position `i`: `+1` where its bit is
/// clear, `-1` where it is set.
pub open spec fn vote<S: SimHashBits>(hash: S, i: int) -> int {
    if hash.bits()[i] {
        -1
    } else {
        1
    }
}

/// The sum of the votes that the hashes cast at bit position `i`.
pub open spec fn tally<S: SimHashBits>(hashes: Seq<S>, i: int) -> int
    decreases hashes.len(),
{
    if hashes.len() == 0 {
        0
    } else {
        tally(hashes.drop_last(), i) + vote(hashes.last(), i)
    }
}

/// The signature of a sequence of hashes, of which the low `len` bits are
/// voted on: bit `i` is set exactly when the votes at `i` sum to more than zero.
/// Bits at `len` and above are clear.
pub open spec fn signature_bits<S: SimHashBits>(hashes: Seq<S>, len: nat) -> Seq<bool> {
    Seq::new(S::width(), |i: int| i < len && tally(hashes, i) > 0)
}

/// How many of the signatures have bit `i` set.
pub open spec fn ones_at<S: SimHashBits>(signatures: Seq<S>, i: int) -> nat
    decreases signatures.len(),
{
    if signatures.len() == 0 {
        0
    } else {
        ones_at(signatures.drop_last(), i) + if signatures.last().bits()[i] {
            1nat
        } else {
            0nat
        }
    }
}

/// The majority centroid of a batch of signatures over the low `len` bits: bit
/// `i` is set exactly when more than half of the batch, rounded down, have it
/// set. Bits at `len` and above are clear.
pub open spec fn centroid_bits<S: SimHashBits>(signatures: Seq<S>, len: nat) -> Seq<bool> {
    Seq::new(S::width(), |i: int| i < len && ones_at(signatures, i) > signatures.len() / 2)
}

/// The bit string of the given width whose bit `i` is `flags[i]`, and clear
/// where `flags` has no entry.
pub open spec fn packed_bits(flags: Seq<bool>, width: nat) -> Seq<bool> {
    Seq::new(width, |i: int| i < flags.len() && flags[i])
}

/// Sets bit `i` of a value; a position outside the width changes nothing.
pub fn set_bit<S: SimHashBits>(value: S, i: usize) -> (r: S)
    ensures
        r.bits() == with_bit(value.bits(), i as nat),
{
    proof {
        value.lemma_bits_len();
        lemma_or_shifted_one(value.bits(), i as nat);
    }
    value.bit_or(S::one().shift_left(i))
}

/// Whether bit `i` of a value is set; `false` for a position outside the width.
pub fn bit_at<S: SimHashBits>(value: S, i: usize) -> (b: bool)
    ensures
        b == (i < S::width() && value.bits()[i as int]),
{
    let low = value.shift_right(i).bit_and(S::one());
    let clear = low.equals(&S::zero());
    proof {
        value.lemma_bits_len();
        let shifted = shr_bits(value.bits(), i as nat);
        if S::width() > 0 {
            assert(low.bits()[0] == (shifted[0] && one_bits(S::width())[0]));
            assert(!zero_bits(S::width())[0]);
            if !low.bits()[0] {
                assert(low.bits() =~= zero_bits(S::width()));
            }
        } else {
            assert(low.bits() =~= zero_bits(S::width()));
        }
    }
    !clear
}

/// Builds the signature whose bit `i` is `flags[i]`. Flags beyond the width of
/// the signature type are ignored, and bits without a flag are clear.
pub fn pack_bits<S: SimHashBits>(flags: &[bool]) -> (sig: S)
    ensures
        sig.bits() == packed_bits(flags@, S::width()),
{
    let mut sig = S::zero();
    let n = flags.len();
    for i in 0..n
        invariant
            n == flags.len(),
            sig.bits() == packed_bits(flags@.take(i as int), S::width()),
    {
        if flags[i] {
            sig = set_bit(sig, i);
        }
        assert(sig.bits() =~= packed_bits(flags@.take(i + 1), S::width()));
    }
    assert(flags@.take(n as int) =~= flags@);
    sig
}

/// The per-bit vote counters of one signature computation over the low `L`
/// bits: hashes are added one at a time, and the signature can be read off at
/// any point.
#[verifier::reject_recursive_types(S)]
pub struct VoteCounter<S: SimHashBits, const L: usize> {
    counts: [i128; L],
    cast: usize,
    seen: Ghost<Seq<S>>,
}

impl<S: SimHashBits, const L: usize> VoteCounter<S, L> {
    #[verifier::type_invariant]
    spec fn well_formed(&self) -> bool {
        &&& self.cast == self.seen@.len()
        &&& forall|i: int| 0 <= i < L ==> -self.cast <= #[trigger] self.counts@[i] <= self.cast
        &&& forall|i: int|
            0 <= i < L && i < S::width() ==> #[trigger] self.counts@[i] == tally(self.seen@, i)
    }

    /// The hashes added so far, in the order they were added.
    pub closed spec fn hashes(&self) -> Seq<S> {
        self.seen@
    }

    /// A counter to which no hash has been added.
    pub fn new() -> (counter: Self)
        ensures
            counter.hashes() == Seq::<S>::empty(),
    {
        VoteCounter { counts: [0i128;L], cast: 0, seen: Ghost(Seq::empty()) }
    }

    /// The number of hashes added so far.
    pub fn count(&self) -> (n: usize)
        ensures
            n == self.hashes().len(),
    {
        proof {
            use_type_invariant(self);
        }
        self.cast
    }

    /// Adds the votes of one more hash: at every bit position the counter
    /// gains one where the bit of the hash is clear and loses one where it is
    /// set.
    pub fn add(&mut self, hash: S)
        requires
            old(self).hashes().len() < usize::MAX,
        ensures
            final(self).hashes() == old(self).hashes().push(hash),
    {
        proof {
            use_type_invariant(&*self);
        }
        let ghost before = self.seen@;
        let ghost after = before.push(hash);
        assert(after.drop_last() =~= before);
        let cast = self.cast;
        let mut counts = self.counts;
        for i in 0..L
            invariant
                cast < usize::MAX,
                after.len() > 0,
                after.drop_last() == before,
                after.last() == hash,
                forall|j: int| 0 <= j < i ==> -cast - 1 <= #[trigger] counts@[j] <= cast + 1,
                forall|j: int| i <= j < L ==> -cast <= #[trigger] counts@[j] <= cast,
                forall|j: int|
                    0 <= j < i && j < S::width() ==> #[trigger] counts@[j] == tally(after, j),
                forall|j: int|
                    i <= j < L && j < S::width() ==> #[trigger] counts@[j] == tally(before, j),
        {
            if bit_at(hash, i) {
                counts[i] = counts[i] - 1;
            } else {
                counts[i] = counts[i] + 1;
            }
        }
        *self = VoteCounter { counts, cast: cast + 1, seen: Ghost(after) };
    }

    /// The signature of the hashes added so far: bit `i < L` is set exactly
    /// when more of them have bit `i` clear than have it set.
    pub fn signature(&self) -> (sig: S)
        ensures
            sig.bits() == signature_bits(self.hashes(), L as nat),
    {
        proof {
            use_type_invariant(self);
        }
        let mut sig = S::zero();
        for i in 0..L
            invariant
                forall|j: int|
                    0 <= j < L && j < S::width() ==> #[trigger] self.counts@[j] == tally(
                        self.seen@,
                        j,
                    ),
                sig.bits() == signature_bits(self.seen@, i as nat),
        {
            if self.counts[i] > 0 {
                sig = set_bit(sig, i);
            }
            assert(sig.bits() =~= signature_bits(self.seen@, (i + 1) as nat));
        }
        sig
    }
}

/// The per-bit counters of one centroid computation over the low `L` bits:
/// signatures are added one at a time, and the centroid can be read off at any
/// point.
#[verifier::reject_recursive_types(S)]
pub struct CentroidCounter<S: SimHashBits, const L: usize> {
    counts: [u64; L],
    len: u64,
    seen: Ghost<Seq<S>>,
}

impl<S: SimHashBits, const L: usize> CentroidCounter<S, L> {
    #[verifier::type_invariant]
    spec fn well_formed(&self) -> bool {
        &&& self.len == self.seen@.len()
        &&& forall|i: int| 0 <= i < L ==> #[trigger] self.counts@[i] <= self.len
        &&& forall|i: int|
            0 <= i < L && i < S::width() ==> #[trigger] self.counts@[i] == ones_at(self.seen@, i)
    }

    /// The signatures added so far, in the order they were added.
    pub closed spec fn signatures(&self) -> Seq<S> {
        self.seen@
    }

    /// A counter to which no signature has been added.
    pub fn new() -> (counter: Self)
        ensures
            counter.signatures() == Seq::<S>::empty(),
    {
        CentroidCounter { counts: [0u64;L], len: 0, seen: Ghost(Seq::empty()) }
    }

    /// The number of signatures added so far.
    pub fn count(&self) -> (n: u64)
        ensures
            n == self.signatures().len(),
    {
        proof {
            use_type_invariant(self);
        }
        self.len
    }

    /// Adds one more signature to the batch: the counter of every bit position
    /// at which the signature has a set bit gains one.
    pub fn add(&mut self, signature: S)
        requires
            old(self).signatures().len() < u64::MAX,
        ensures
            final(self).signatures() == old(self).signatures().push(signature),
    {
        proof {
            use_type_invariant(&*self);
        }
        let ghost before = self.seen@;
        let ghost after = before.push(signature);
        assert(after.drop_last() =~= before);
        let len = self.len;
        let mut counts = self.counts;
        for i in 0..L
            invariant
                len < u64::MAX,
                after.len() > 0,
                after.drop_last() == before,
                after.last() == signature,
                forall|j: int| 0 <= j < i ==> #[trigger] counts@[j] <= len + 1,
                forall|j: int| i <= j < L ==> #[trigger] counts@[j] <= len,
                forall|j: int|
                    0 <= j < i && j < S::width() ==> #[trigger] counts@[j] == ones_at(after, j),
                forall|j: int|
                    i <= j < L && j < S::width() ==> #[trigger] counts@[j] == ones_at(before, j),
        {
            if bit_at(signature, i) {
                counts[i] = counts[i] + 1;
            }
        }
        *self = CentroidCounter { counts, len: len + 1, seen: Ghost(after) };
    }

    /// The majority centroid of the signatures added so far: bit `i < L` is set
    /// exactly when the number of them with bit `i` set exceeds half their
    /// number, rounded down.
    pub fn centroid(&self) -> (centroid: S)
        ensures
            centroid.bits() == centroid_bits(self.signatures(), L as nat),
    {
        proof {
            use_type_invariant(self);
        }
        let mut centroid = S::zero();
        for i in 0..L
            invariant
                self.len == self.seen@.len(),
                forall|j: int|
                    0 <= j < L && j < S::width() ==> #[trigger] self.counts@[j] == ones_at(
                        self.seen@,
                        j,
                    ),
                centroid.bits() == centroid_bits(self.seen@, i as nat),
        {
            if self.counts[i] > self.len / 2 {
                centroid = set_bit(centroid, i);
            }
            assert(centroid.bits() =~= centroid_bits(self.seen@, (i + 1) as nat));
        }
        centroid
    }
}

/// Computes the signature of a sequence of hashes over the low `L` bits: the
/// bit-wise majority vote in which a clear hash bit votes for a set signature
/// bit. The empty sequence gives the all-clear signature.
pub fn signature_from_hashes<S: SimHashBits, const L: usize>(hashes: &[S]) -> (sig: S)
    ensures
        sig.bits() == signature_bits(hashes@, L as nat),
{
    let mut counter = VoteCounter::<S, L>::new();
    let n = hashes.len();
    for k in 0..n
        invariant
            n == hashes.len(),
            counter.hashes() == hashes@.take(k as int),
    {
        counter.add(hashes[k]);
        assert(hashes@.take(k as int).push(hashes@[k as int]) =~= hashes@.take(k + 1));
    }
    assert(hashes@.take(n as int) =~= hashes@);
    counter.signature()
}

} // verus!
