//! The hash primitives that turn one item into one fixed-width value.

use vstd::prelude::*;

verus! {

/// A hash primitive: a deterministic map from an item, given as its bytes, to
/// a fixed-width value.
///
/// An instance may be keyed; for one instance the value depends on the bytes
/// alone, which `spec_hash` records.
pub trait SimHasher: Sized {
    /// The fixed-width value that the primitive produces.
    type T;

    /// The value that this instance assigns to an item.
    spec fn spec_hash(&self, item: Seq<u8>) -> Self::T;

    /// Hashes one item.
    fn hash(&self, item: &[u8]) -> (h: Self::T)
        ensures
            h == self.spec_hash(item@),
    ;
}

/// The SipHash-2-4 value of a byte string under the key `(key0, key1)`.
pub uninterp spec fn siphash24_64(key0: u64, key1: u64, bytes: Seq<u8>) -> u64;

/// The 128-bit SipHash-2-4 value of a byte string under the key
/// `(key0, key1)`, its first output word in the low 64 bits.
pub uninterp spec fn siphash24_128(key0: u64, key1: u64, bytes: Seq<u8>) -> u128;

/// The unseeded 64-bit XXH3 value of a byte string.
pub uninterp spec fn xxh3_digest64(bytes: Seq<u8>) -> u64;

/// The unseeded 128-bit XXH3 value of a byte string.
pub uninterp spec fn xxh3_digest128(bytes: Seq<u8>) -> u128;

/// Calls `siphasher::sip::SipHasher::hash` on a hasher keyed with
/// `new_with_keys(key0, key1)`. Taken on trust: the value is a function of the
/// two keys and the bytes. Nothing else is claimed of it; it is known here only
/// under its name.
#[verifier::external_body]
fn sip_hash64(key0: u64, key1: u64, bytes: &[u8]) -> (h: u64)
    ensures
        h == siphash24_64(key0, key1, bytes@),
{
    siphasher::sip::SipHasher::new_with_keys(key0, key1).hash(bytes)
}

/// Calls `siphasher::sip128::SipHasher::hash` on a hasher keyed with
/// `new_with_keys(key0, key1)` and joins the two output words, the first one
/// low. Taken on trust: the value is a function of the two keys and the bytes.
/// Nothing else is claimed of it; it is known here only under its name.
#[verifier::external_body]
fn sip_hash128(key0: u64, key1: u64, bytes: &[u8]) -> (h: u128)
    ensures
        h == siphash24_128(key0, key1, bytes@),
{
    u128::from(siphasher::sip128::SipHasher::new_with_keys(key0, key1).hash(bytes))
}

/// Calls `xxhash_rust::xxh3::xxh3_64`. Taken on trust: the value is a function
/// of the bytes. Nothing else is claimed of it; it is known here only under its
/// name.
#[verifier::external_body]
fn xxh3_hash64(bytes: &[u8]) -> (h: u64)
    ensures
        h == xxh3_digest64(bytes@),
{
    xxhash_rust::xxh3::xxh3_64(bytes)
}

/// Calls `xxhash_rust::xxh3::xxh3_128`. Taken on trust: the value is a
/// function of the bytes. Nothing else is claimed of it; it is known here only
/// under its name.
#[verifier::external_body]
fn xxh3_hash128(bytes: &[u8]) -> (h: u128)
    ensures
        h == xxh3_digest128(bytes@),
{
    xxhash_rust::xxh3::xxh3_128(bytes)
}

/// SipHash-2-4 with a 128-bit key, producing 64-bit values.
pub struct SimSipHasher64 {
    key1: u64,
    key2: u64,
}

impl SimSipHasher64 {
    /// The two halves of the key.
    pub closed spec fn keys(&self) -> (u64, u64) {
        (self.key1, self.key2)
    }

    /// A hasher keyed with `(key1, key2)`.
    pub fn new(key1: u64, key2: u64) -> (hasher: Self)
        ensures
            hasher.keys() == (key1, key2),
    {
        SimSipHasher64 { key1, key2 }
    }
}

impl SimHasher for SimSipHasher64 {
    type T = u64;

    open spec fn spec_hash(&self, item: Seq<u8>) -> u64 {
        siphash24_64(self.keys().0, self.keys().1, item)
    }

    fn hash(&self, item: &[u8]) -> (h: u64) {
        sip_hash64(self.key1, self.key2, item)
    }
}

/// SipHash-2-4 with a 128-bit key, producing 128-bit values.
pub struct SimSipHasher128 {
    key1: u64,
    key2: u64,
}

impl SimSipHasher128 {
    /// The two halves of the key.
    pub closed spec fn keys(&self) -> (u64, u64) {
        (self.key1, self.key2)
    }

    /// A hasher keyed with `(key1, key2)`.
    pub fn new(key1: u64, key2: u64) -> (hasher: Self)
        ensures
            hasher.keys() == (key1, key2),
    {
        SimSipHasher128 { key1, key2 }
    }
}

impl SimHasher for SimSipHasher128 {
    type T = u128;

    open spec fn spec_hash(&self, item: Seq<u8>) -> u128 {
        siphash24_128(self.keys().0, self.keys().1, item)
    }

    fn hash(&self, item: &[u8]) -> (h: u128) {
        sip_hash128(self.key1, self.key2, item)
    }
}

/// Unkeyed XXH3, producing 64-bit values.
pub struct Xxh3Hasher64 {}

impl Xxh3Hasher64 {
    /// The hasher; all its instances are alike.
    pub fn new() -> (hasher: Self) {
        Xxh3Hasher64 {  }
    }
}

impl SimHasher for Xxh3Hasher64 {
    type T = u64;

    open spec fn spec_hash(&self, item: Seq<u8>) -> u64 {
        xxh3_digest64(item)
    }

    fn hash(&self, item: &[u8]) -> (h: u64) {
        xxh3_hash64(item)
    }
}

/// Unkeyed XXH3, producing 128-bit values.
pub struct Xxh3Hasher128 {}

impl Xxh3Hasher128 {
    /// The hasher; all its instances are alike.
    pub fn new() -> (hasher: Self) {
        Xxh3Hasher128 {  }
    }
}

impl SimHasher for Xxh3Hasher128 {
    type T = u128;

    open spec fn spec_hash(&self, item: Seq<u8>) -> u128 {
        xxh3_digest128(item)
    }

    fn hash(&self, item: &[u8]) -> (h: u128) {
        xxh3_hash128(item)
    }
}

} // verus!
