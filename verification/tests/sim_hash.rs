use std::hash::{Hash, Hasher};

use rand::rngs::StdRng;
use rand::{Rng, SeedableRng};
use superbit::{
    signature_from_hashes, SimHash, SimHashBits, SimSipHasher128, SimSipHasher64, Xxh3Hasher128,
    Xxh3Hasher64,
};

/// Collects the bytes that an item feeds to a hasher.
struct ByteSink(Vec<u8>);

impl Hasher for ByteSink {
    fn finish(&self) -> u64 {
        0
    }

    fn write(&mut self, bytes: &[u8]) {
        self.0.extend_from_slice(bytes);
    }
}

fn bytes_of<U: Hash>(item: U) -> Vec<u8> {
    let mut sink = ByteSink(Vec::new());
    item.hash(&mut sink);
    sink.0
}

fn whitespace_split(s: &str) -> Vec<Vec<u8>> {
    s.split_whitespace().map(bytes_of).collect()
}

const S1: &str = "SimHash is a technique used for detecting near-duplicates or for locality sensitive hashing. It was developed by Moses Charikar and is often used in large-scale applications to reduce the dimensionality of high-dimensional data, making it easier to process";
const S2: &str = "SimHash is a technique used for detecting near-duplicates or for locality sensitive hashing. It was developed by Moses Charikar and is often utilized in large-scale applications to reduce the dimensionality of high-dimensional data, making it easier to analyze";

#[test]
pub fn test_sim_hash_sip64() {
    let sim_hash = SimHash::<SimSipHasher64, u64, 64>::new(SimSipHasher64::new(1, 2));
    let s1 = sim_hash.create_signature(&whitespace_split(S1));
    let s2 = sim_hash.create_signature(&whitespace_split(S2));
    assert!(s1.hamming_distance(&s2) < 20);
}

#[test]
pub fn test_sim_hash_sip128() {
    let sim_hash = SimHash::<SimSipHasher128, u128, 128>::new(SimSipHasher128::new(1, 2));
    let s1 = sim_hash.create_signature(&whitespace_split(S1));
    let s2 = sim_hash.create_signature(&whitespace_split(S2));
    assert!(s1.hamming_distance(&s2) < 40);
}

#[test]
pub fn test_sim_hash_xxh3_64() {
    let sim_hash = SimHash::<Xxh3Hasher64, u64, 64>::new(Xxh3Hasher64::new());
    let s1 = sim_hash.create_signature(&whitespace_split(S1));
    let s2 = sim_hash.create_signature(&whitespace_split(S2));
    assert!(s1.hamming_distance(&s2) < 20);
}

#[test]
pub fn test_sim_hash_xxh3_128() {
    let sim_hash = SimHash::<Xxh3Hasher128, u128, 128>::new(Xxh3Hasher128::new());
    let s1 = sim_hash.create_signature(&whitespace_split(S1));
    let s2 = sim_hash.create_signature(&whitespace_split(S2));
    assert!(s1.hamming_distance(&s2) < 40);
}

#[test]
fn simhash_large() {
    const N: usize = 100_000;
    let mut rng = StdRng::seed_from_u64(42);

    // Make two vectors that differ in ~25% of bits.
    let data1: Vec<u8> = (0..N).map(|_| rng.gen_range(0..2)).collect();
    let mut data2 = data1.clone();
    for i in (0..N).step_by(4) {
        data2[i] = 1 - data2[i];
    }

    let sim_hash = SimHash::<Xxh3Hasher128, u128, 128>::new(Xxh3Hasher128::new());
    let items1: Vec<Vec<u8>> = (0..N).map(|i| bytes_of((i as u64, data1[i]))).collect();
    let items2: Vec<Vec<u8>> = (0..N).map(|i| bytes_of((i as u64, data2[i]))).collect();
    let h1 = sim_hash.create_signature(&items1);
    let h2 = sim_hash.create_signature(&items2);
    let hd = h1.hamming_distance(&h2);

    // ~12-13% of 128 is 15-17 in expectation; allow slack
    assert!(hd < 40);
}

#[test]
fn empty_input_gives_the_zero_signature() {
    let sim_hash = SimHash::<Xxh3Hasher64, u64, 64>::new(Xxh3Hasher64::new());
    assert_eq!(sim_hash.create_signature(&[]), 0);
    assert_eq!(sim_hash.create_centroid(&[]), 0);
    assert_eq!(signature_from_hashes::<u64, 64>(&[]), 0);
}

#[test]
fn signature_is_deterministic() {
    let sim_hash = SimHash::<SimSipHasher64, u64, 64>::new(SimSipHasher64::new(7, 9));
    let items = whitespace_split(S1);
    let first = sim_hash.create_signature(&items);
    let second = sim_hash.create_signature(&items);
    assert_eq!(first, second);
    let again = SimHash::<SimSipHasher64, u64, 64>::new(SimSipHasher64::new(7, 9));
    assert_eq!(again.create_signature(&items), first);
}

#[test]
fn signature_ignores_item_order() {
    let sim_hash = SimHash::<Xxh3Hasher128, u128, 128>::new(Xxh3Hasher128::new());
    let items = whitespace_split(S1);
    let mut reversed = items.clone();
    reversed.reverse();
    let mut rotated = items.clone();
    rotated.rotate_left(5);
    let sig = sim_hash.create_signature(&items);
    assert_eq!(sim_hash.create_signature(&reversed), sig);
    assert_eq!(sim_hash.create_signature(&rotated), sig);
}

#[test]
fn signature_is_the_vote_of_the_hashes() {
    let sim_hash = SimHash::<Xxh3Hasher64, u64, 64>::new(Xxh3Hasher64::new());
    let items = whitespace_split(S2);
    let hashes: Vec<u64> = items.iter().map(|item| xxhash_rust::xxh3::xxh3_64(item)).collect();
    assert_eq!(sim_hash.create_signature(&items), signature_from_hashes::<u64, 64>(&hashes));
}

#[test]
fn one_hash_gives_its_complement() {
    // A clear hash bit votes +1, so a single hash sets exactly its clear bits.
    assert_eq!(signature_from_hashes::<u64, 64>(&[0x0f0f_0000_ffff_1234]), !0x0f0f_0000_ffff_1234u64);
    assert_eq!(signature_from_hashes::<u64, 64>(&[u64::MAX]), 0);
    assert_eq!(signature_from_hashes::<u64, 64>(&[0]), u64::MAX);
    assert_eq!(signature_from_hashes::<u128, 128>(&[1u128 << 100]), !(1u128 << 100));
}

#[test]
fn votes_are_a_strict_majority_of_clear_bits() {
    // bit 0: clear in 2 of 3; bit 1: clear in 1 of 3; bit 2: clear in 3; bit 3: clear in 0.
    let hashes = [0b1010u64, 0b1011, 0b1000 | 0b0010];
    let sig = signature_from_hashes::<u64, 4>(&hashes);
    assert_eq!(sig, 0b0101);
    // a tie (one clear, one set) leaves the bit clear
    assert_eq!(signature_from_hashes::<u64, 2>(&[0b01u64, 0b10]), 0);
}

#[test]
fn only_the_low_bits_are_voted_on() {
    assert_eq!(signature_from_hashes::<u64, 8>(&[0]), 0xff);
    assert_eq!(signature_from_hashes::<u64, 0>(&[0]), 0);
    assert_eq!(signature_from_hashes::<u128, 64>(&[0]), u64::MAX as u128);
}

#[test]
fn centroid_of_one_signature_is_that_signature() {
    let sim_hash = SimHash::<Xxh3Hasher64, u64, 64>::new(Xxh3Hasher64::new());
    for s in [0u64, 1, u64::MAX, 0xdead_beef_0123_4567, 1 << 63] {
        assert_eq!(sim_hash.create_centroid(&[s]), s);
    }
    let wide = SimHash::<Xxh3Hasher128, u128, 128>::new(Xxh3Hasher128::new());
    assert_eq!(wide.create_centroid(&[u128::MAX - 5]), u128::MAX - 5);
}

#[test]
fn centroid_drops_bits_that_are_not_voted_on() {
    let narrow = SimHash::<Xxh3Hasher64, u64, 8>::new(Xxh3Hasher64::new());
    assert_eq!(narrow.create_centroid(&[0x1ff]), 0xff);
}

#[test]
fn centroid_is_a_strict_majority() {
    let sim_hash = SimHash::<Xxh3Hasher64, u64, 64>::new(Xxh3Hasher64::new());
    // bit 0 in 3 of 3, bit 1 in 2 of 3, bit 2 in 1 of 3, bit 3 in none
    assert_eq!(sim_hash.create_centroid(&[0b0111, 0b0011, 0b0001]), 0b0011);
    // ties are not a majority: 1 of 2, 2 of 4
    assert_eq!(sim_hash.create_centroid(&[0b01, 0b10]), 0);
    assert_eq!(sim_hash.create_centroid(&[0b11, 0b01, 0b10, 0b00]), 0);
    assert_eq!(sim_hash.create_centroid(&[0b11, 0b01, 0b11, 0b00]), 0b01);
    // 3 of 5 is a majority, 2 of 5 is not
    assert_eq!(sim_hash.create_centroid(&[0b01, 0b01, 0b11, 0b10, 0b00]), 0b01);
}

#[test]
fn centroid_of_equal_signatures_is_that_signature() {
    let sim_hash = SimHash::<Xxh3Hasher64, u64, 64>::new(Xxh3Hasher64::new());
    let s = 0x0123_4567_89ab_cdefu64;
    assert_eq!(sim_hash.create_centroid(&[s, s, s, s]), s);
}

#[test]
fn flipped_items_stay_within_the_statistical_bound() {
    // 4000 numbered features, a quarter of them replaced: the signatures of the
    // two sets stay far below the distance of unrelated signatures.
    let sim_hash = SimHash::<Xxh3Hasher128, u128, 128>::new(Xxh3Hasher128::new());
    let items1: Vec<Vec<u8>> = (0..4000u64).map(|i| bytes_of((i, 0u8))).collect();
    let items2: Vec<Vec<u8>> =
        (0..4000u64).map(|i| bytes_of((i, if i % 4 == 0 { 1u8 } else { 0u8 }))).collect();
    let h1 = sim_hash.create_signature(&items1);
    let h2 = sim_hash.create_signature(&items2);
    assert!(h1.hamming_distance(&h2) < 40);
}
