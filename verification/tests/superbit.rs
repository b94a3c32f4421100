use std::hash::Hasher;

use superbit::{gaussian_draws, splitmix64, uniform_bits, ConfigError, SuperBitLayout};

#[test]
fn splitmix64_known_values() {
    assert_eq!(splitmix64(0), 0xe220_a839_7b1d_cdaf);
    assert_eq!(splitmix64(0x9e37_79b9_7f4a_7c15), 0x6e78_9e6a_a1b9_65f4);
    assert_eq!(splitmix64(0x3c6e_f372_fe94_f82a), 0x06c4_5d18_8009_454f);
}

#[test]
fn layout_accepts_exactly_the_divisors() {
    for r in 0..=70usize {
        let layout = SuperBitLayout::<64>::new(r, 1);
        assert_eq!(layout.is_ok(), r > 0 && 64 % r == 0, "r = {}", r);
    }
    assert!(SuperBitLayout::<1024>::new(32, 0xdead_beef).is_ok());
    assert!(SuperBitLayout::<1024>::new(0, 0xdead_beef).is_err());
    assert!(SuperBitLayout::<1024>::new(48, 0xdead_beef).is_err());
    assert!(SuperBitLayout::<1024>::new(2048, 0xdead_beef).is_err());
    assert!(SuperBitLayout::<0>::new(0, 0).is_err());
    assert!(SuperBitLayout::<0>::new(5, 0).is_ok());
}

#[test]
fn layout_reports_its_parameters() {
    let layout = match SuperBitLayout::<1024>::new(32, 0xdead_beef) {
        Ok(layout) => layout,
        Err(_) => panic!("32 divides 1024"),
    };
    assert_eq!(layout.block_size(), 32);
    assert_eq!(layout.block_count(), 32);
    assert_eq!(layout.seed(), 0xdead_beef);
    let whole = match SuperBitLayout::<64>::new(64, 3) {
        Ok(layout) => layout,
        Err(_) => panic!("64 divides 64"),
    };
    assert_eq!(whole.block_count(), 1);
    let single = match SuperBitLayout::<64>::new(1, 3) {
        Ok(layout) => layout,
        Err(_) => panic!("1 divides 64"),
    };
    assert_eq!(single.block_count(), 64);
}

#[test]
fn configuration_error_names_the_parameters() {
    match SuperBitLayout::<64>::new(0, 9) {
        Ok(_) => panic!("a block size of zero is refused"),
        Err(e) => {
            assert_eq!(e, ConfigError { bit_length: 64, block_size: 0 });
            assert_eq!(e.message(), "r must divide L");
        }
    }
    match SuperBitLayout::<64>::new(5, 9) {
        Ok(_) => panic!("5 does not divide 64"),
        Err(e) => assert_eq!(e, ConfigError { bit_length: 64, block_size: 5 }),
    }
}

#[test]
fn block_seeds_mix_the_block_index_into_the_seed() {
    let layout = match SuperBitLayout::<64>::new(8, 0xdead_beef) {
        Ok(layout) => layout,
        Err(_) => panic!("8 divides 64"),
    };
    assert_eq!(layout.block_seed(0), 0xdead_beef);
    assert_eq!(layout.block_seed(1), 0xdead_beef ^ 0x9e37_79b9);
    assert_eq!(layout.block_seed(2), 0xdead_beef ^ 0x1_3c6e_f372);
    assert_eq!(layout.block_seed(7), 0xdead_beef ^ (7 * 0x9e37_79b9));
}

#[test]
fn counter_index_is_row_major() {
    let layout = match SuperBitLayout::<64>::new(8, 0) {
        Ok(layout) => layout,
        Err(_) => panic!("8 divides 64"),
    };
    assert_eq!(layout.counter_index(0, 0), 0);
    assert_eq!(layout.counter_index(0, 7), 7);
    assert_eq!(layout.counter_index(1, 0), 8);
    assert_eq!(layout.counter_index(7, 7), 63);
}

#[test]
fn signs_follow_the_splitmix_stream() {
    let layout = match SuperBitLayout::<64>::new(16, 0xdead_beef) {
        Ok(layout) => layout,
        Err(_) => panic!("16 divides 64"),
    };
    for (base, b) in [(0u64, 0usize), (0x1234_5678_9abc_def0, 3), (u64::MAX, 2)] {
        let mut signs = vec![0i8; 16];
        layout.fill_signs(base, b, &mut signs);
        let mut s = 0xdead_beefu64 ^ base ^ ((b as u64) << 32) ^ 0x9e37_79b9_7f4a_7c15;
        for j in 0..16 {
            s = splitmix64(s);
            assert_eq!(signs[j], if s >> 63 == 0 { 1 } else { -1 }, "entry {}", j);
        }
        assert_eq!(signs.len(), 16);
    }
}

#[test]
fn first_signs_of_the_zero_item() {
    // seed 0, hash 0, block 0: the stream starts at the golden-ratio constant
    let layout = match SuperBitLayout::<4>::new(2, 0) {
        Ok(layout) => layout,
        Err(_) => panic!("2 divides 4"),
    };
    let mut signs = vec![0i8; 2];
    layout.fill_signs(0, 0, &mut signs);
    // splitmix64(0x9e3779b97f4a7c15) = 0x6e789e6aa1b965f4, top bit clear
    assert_eq!(signs[0], 1);
    let second = splitmix64(0x6e78_9e6a_a1b9_65f4);
    assert_eq!(signs[1], if second >> 63 == 0 { 1 } else { -1 });
}

#[test]
fn signs_differ_between_blocks_and_items() {
    let layout = match SuperBitLayout::<128>::new(64, 7) {
        Ok(layout) => layout,
        Err(_) => panic!("64 divides 128"),
    };
    let mut a = vec![0i8; 64];
    let mut b = vec![0i8; 64];
    let mut c = vec![0i8; 64];
    layout.fill_signs(11, 0, &mut a);
    layout.fill_signs(11, 1, &mut b);
    layout.fill_signs(12, 0, &mut c);
    assert_ne!(a, b);
    assert_ne!(a, c);
    assert!(a.iter().all(|s| *s == 1 || *s == -1));
    assert!(a.iter().any(|s| *s == 1) && a.iter().any(|s| *s == -1));
}

#[test]
fn uniform_bits_are_the_top_bits_of_the_seeded_hash() {
    for (seed, x) in [(0u64, 0u64), (1, 0), (0, 1), (0xdead_beef, 0x0001_0002), (u64::MAX, u64::MAX)] {
        let v = uniform_bits(seed, x);
        assert_eq!(v, xxhash_rust::xxh3::xxh3_64_with_seed(&x.to_le_bytes(), seed) >> 11);
        assert!(v < (1u64 << 53));
    }
    assert_ne!(uniform_bits(1, 5), uniform_bits(2, 5));
    assert_ne!(uniform_bits(1, 5), uniform_bits(1, 6));
    assert_eq!(uniform_bits(1, 5), uniform_bits(1, 5));
}

#[test]
fn uniform_bits_match_the_streaming_hasher() {
    for (seed, x) in [(0u64, 7u64), (3, 7), (0xdead_beef ^ 0x9e37_79b9, 0x0002_0001)] {
        let mut h = xxhash_rust::xxh3::Xxh3::with_seed(seed);
        h.update(&x.to_le_bytes());
        assert_eq!(uniform_bits(seed, x), h.finish() >> 11);
    }
}

#[test]
fn gaussian_draws_cover_the_matrix_in_row_major_order() {
    let r = 5usize;
    let seed = 0xdead_beefu64;
    let draws = gaussian_draws(r, seed);
    assert_eq!(draws.len(), 25);
    let mut k = 0u64;
    for i in 0..r {
        for j in 0..r {
            let first = uniform_bits(seed, k ^ ((i as u64) << 16) ^ (j as u64));
            let second = uniform_bits(seed, k.wrapping_mul(0x9e37_79b9_7f4a_7c15) ^ 0xbf58_476d);
            assert_eq!(draws[i * r + j], (first, second), "cell {} {}", i, j);
            k = k.wrapping_add(1);
        }
    }
    assert_eq!(gaussian_draws(r, seed), draws);
    assert_ne!(gaussian_draws(r, seed + 1), draws);
    assert_eq!(gaussian_draws(0, seed).len(), 0);
    assert_eq!(gaussian_draws(1, seed).len(), 1);
}
