//! SimHash and Super-Bit signatures: fixed-width bit vectors whose Hamming
//! distance tracks the angular dissimilarity of the hashed feature sets.
//!
//! A signature type implements [`SimHashBits`]; a hash primitive implements
//! [`SimHasher`]. [`SimHash`] turns a sequence of items into a signature by a
//! bit-wise majority vote and aggregates signatures into a centroid.
//! [`SuperBitLayout`] is the exact, integer part of the Super-Bit variant: block
//! structure, seeds, pseudo-random draws and sign vectors.

pub mod simhash;

pub use simhash::bit_array::BitArray;
pub use simhash::bits::SimHashBits;
pub use simhash::sim_hash::SimHash;
pub use simhash::sim_hasher::{
    SimHasher, SimSipHasher128, SimSipHasher64, Xxh3Hasher128, Xxh3Hasher64,
};
pub use simhash::votes::{
    bit_at, pack_bits, set_bit, signature_from_hashes, CentroidCounter, VoteCounter,
};
pub use simhash::superbit::{
    draw_from_hash, gaussian_draws, splitmix64, uniform_bits, ConfigError, SuperBitLayout,
};
