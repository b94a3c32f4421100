//! Signature types, hashers and the two signature engines.

pub mod bit_model;
pub mod bit_array;
pub mod bits;
pub mod laws;
pub mod sim_hash;
pub mod sim_hasher;
pub mod superbit;
pub mod votes;
pub mod word128;
pub mod word64;
