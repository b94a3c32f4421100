use std::hash::{Hash, Hasher};

use siphasher::sip128::Hasher128;
use superbit::{SimHasher, SimSipHasher128, SimSipHasher64, Xxh3Hasher128, Xxh3Hasher64};

struct ByteSink(Vec<u8>);

impl Hasher for ByteSink {
    fn finish(&self) -> u64 {
        0
    }

    fn write(&mut self, bytes: &[u8]) {
        self.0.extend_from_slice(bytes);
    }
}

fn bytes_of<U: Hash>(item: U) -> Vec<u8> {
    let mut sink = ByteSink(Vec::new());
    item.hash(&mut sink);
    sink.0
}

const K0: u64 = 0x0706_0504_0302_0100;
const K1: u64 = 0x0f0e_0d0c_0b0a_0908;

#[test]
fn siphash64_reference_vectors() {
    let hasher = SimSipHasher64::new(K0, K1);
    assert_eq!(hasher.hash(&[]), 0x726f_db47_dd0e_0e31);
    assert_eq!(hasher.hash(&[0]), 0x74f8_39c5_93dc_67fd);
    assert_eq!(hasher.hash(&[0, 1]), 0x0d6c_8009_d9a9_4f5a);
    assert_eq!(hasher.hash(&[0, 1, 2, 3, 4, 5, 6, 7]), 0x93f5_f579_9a93_2462);
}

#[test]
fn siphash128_reference_vector() {
    let hasher = SimSipHasher128::new(K0, K1);
    assert_eq!(hasher.hash(&[]), 0x9302_55c7_1472_f66d_e6a8_25ba_047f_81a3);
}

#[test]
fn xxh3_of_the_empty_input() {
    assert_eq!(Xxh3Hasher64::new().hash(&[]), 0x2d06_8005_38d3_94c2);
    assert_eq!(Xxh3Hasher128::new().hash(&[]), 0x99aa_06d3_0147_98d8_6001_c324_468d_497f);
}

#[test]
fn siphash_depends_on_the_key() {
    let item = bytes_of("feature");
    assert_ne!(SimSipHasher64::new(1, 2).hash(&item), SimSipHasher64::new(2, 1).hash(&item));
    assert_ne!(SimSipHasher128::new(1, 2).hash(&item), SimSipHasher128::new(1, 3).hash(&item));
    assert_eq!(SimSipHasher64::new(1, 2).hash(&item), SimSipHasher64::new(1, 2).hash(&item));
}

#[test]
fn hashing_the_fed_bytes_is_hashing_the_item() {
    for word in ["", "a", "SimHash", "locality sensitive hashing", "0123456789abcdef0123456789abcdef"] {
        let bytes = bytes_of(word);

        let mut sip = siphasher::sip::SipHasher::new_with_keys(1, 2);
        word.hash(&mut sip);
        assert_eq!(SimSipHasher64::new(1, 2).hash(&bytes), sip.finish());

        let mut sip128 = siphasher::sip128::SipHasher::new_with_keys(1, 2);
        word.hash(&mut sip128);
        assert_eq!(SimSipHasher128::new(1, 2).hash(&bytes), sip128.finish128().as_u128());

        let mut xxh = xxhash_rust::xxh3::Xxh3::new();
        word.hash(&mut xxh);
        assert_eq!(Xxh3Hasher64::new().hash(&bytes), xxh.finish());
        assert_eq!(Xxh3Hasher128::new().hash(&bytes), xxh.digest128());
    }
    let pair = (123_456_789u64, 1u8);
    let mut xxh = xxhash_rust::xxh3::Xxh3::new();
    pair.hash(&mut xxh);
    assert_eq!(Xxh3Hasher128::new().hash(&bytes_of(pair)), xxh.digest128());
}

#[test]
fn hashers_separate_items() {
    let a = bytes_of("used");
    let b = bytes_of("utilized");
    assert_ne!(Xxh3Hasher64::new().hash(&a), Xxh3Hasher64::new().hash(&b));
    assert_ne!(Xxh3Hasher128::new().hash(&a), Xxh3Hasher128::new().hash(&b));
    assert_ne!(SimSipHasher64::new(1, 2).hash(&a), SimSipHasher64::new(1, 2).hash(&b));
    assert_ne!(SimSipHasher128::new(1, 2).hash(&a), SimSipHasher128::new(1, 2).hash(&b));
}
