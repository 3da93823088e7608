use fnv::FnvHasher;
use rand::{RngCore, SeedableRng};
use rand_xoshiro::Xoshiro256StarStar;
use splitting_rng::hash::{keys_for, shuffle_key};
use splitting_rng::order::order_by_keys;
use splitting_rng::{BooleanList, SplittingRng};
use std::hash::Hasher;

type Rng = SplittingRng<Xoshiro256StarStar>;

#[test]
fn test_shuffle_uniformity() {
    // Some fraction of seeds would fail this, but with a fixed seed it holds.
    let mut rng = SplittingRng::<Xoshiro256StarStar>::new(12345);
    let input: Vec<_> = (0..100).collect();
    let mut acc = 0;
    let iter = 1000;
    for _ in 0..iter {
        acc += rng.shuffle(&input)[8];
    }
    let avg = acc as f64 / iter as f64;
    println!("Avg {}", avg);
    assert!(avg > 49.5);
    assert!(avg < 50.5);
}

#[test]
fn fresh_generators_agree() {
    let mut a = Rng::new(42);
    let mut b = Rng::new(42);
    for _ in 0..1000 {
        assert_eq!(a.get_u64(), b.get_u64());
    }
    let mut c = Rng::new(43);
    let mut d = Rng::new(42);
    let same = (0..10).filter(|_| c.get_u64() == d.get_u64()).count();
    assert!(same < 10);
}

#[test]
fn get_u64_draws_the_stream_after_the_pool_word() {
    let mut source = Xoshiro256StarStar::seed_from_u64(7);
    let pool_word = source.next_u64();
    let mut rng = Rng::new(7);
    assert_eq!(rng.to_raw(), (7, 0, pool_word, 0));
    for k in 1..=5u64 {
        assert_eq!(rng.get_u64(), source.next_u64());
        assert_eq!(rng.to_raw().1, k);
    }
}

#[test]
fn get_u32_takes_the_high_half() {
    let mut source = Xoshiro256StarStar::seed_from_u64(99);
    source.next_u64();
    let mut rng = Rng::new(99);
    for _ in 0..10 {
        let w = source.next_u64();
        assert_eq!(rng.get_u32(), (w >> 32) as u32);
    }
    assert_eq!(rng.to_raw().1, 10);
}

#[test]
fn round_trip_replays_the_same_words() {
    let mut g = Rng::new(2024);
    for _ in 0..37 {
        g.get_u64();
    }
    for _ in 0..5 {
        g.get_bool();
    }
    let raw = g.to_raw();
    let mut restored = Rng::from_raw(raw);
    assert_eq!(restored.to_raw(), raw);
    for _ in 0..100 {
        assert_eq!(restored.get_u64(), g.get_u64());
    }
    for _ in 0..200 {
        assert_eq!(restored.get_bool(), g.get_bool());
    }
}

#[test]
fn from_raw_restores_pool_position() {
    let g = Rng::from_raw((5, 3, 0xdead_beef, 17));
    assert_eq!(g.to_raw(), (5, 3, 0xdead_beef, 17));
}

#[test]
fn split_children_differ_and_replay() {
    let mut g = Rng::new(31337);
    g.get_u64();
    let snapshot = g.to_raw();
    let mut c1 = g.split();
    let mut c2 = g.split();
    assert_ne!(c1.to_raw().0, c2.to_raw().0);
    assert_eq!(c1.to_raw().1, 0);
    assert_eq!(g.to_raw().1, snapshot.1 + 2);

    let mut r = Rng::from_raw(snapshot);
    let mut d1 = r.split();
    let mut d2 = r.split();
    assert_eq!(d1.to_raw(), c1.to_raw());
    assert_eq!(d2.to_raw(), c2.to_raw());
    for _ in 0..20 {
        assert_eq!(d1.get_u64(), c1.get_u64());
        assert_eq!(d2.get_u64(), c2.get_u64());
    }
}

#[test]
fn split_child_is_seeded_with_next_word() {
    let mut g = Rng::new(8);
    let mut h = Rng::new(8);
    let w = h.get_u64();
    let child = g.split();
    assert_eq!(child.to_raw(), Rng::new(w).to_raw());
}

#[test]
fn bool_pool_serves_sixty_one_per_word() {
    let mut rng = Rng::new(555);
    let start = rng.to_raw();
    for k in 1..=61u8 {
        rng.get_bool();
        assert_eq!(rng.to_raw().1, 0);
        assert_eq!(rng.to_raw().3, k);
    }
    rng.get_bool();
    assert_eq!(rng.to_raw().1, 1);
    assert_eq!(rng.to_raw().3, 1);
    assert_ne!(rng.to_raw().2, start.2);
}

#[test]
fn get_bool_reads_the_pool_bits() {
    let mut rng = Rng::new(1);
    let word = rng.to_raw().2;
    for k in 0..61u32 {
        let expected = (0x1000u64.checked_shl(k).unwrap() & word) == 0;
        assert_eq!(rng.get_bool(), expected);
    }
}

#[test]
fn boolean_list_draws_then_runs_out() {
    let mut all_set = BooleanList::new(u64::MAX);
    for _ in 0..52 {
        assert_eq!(all_set.next(), Some(false));
    }
    for _ in 52..61 {
        assert_eq!(all_set.next(), Some(true));
    }
    assert_eq!(all_set.next(), None);
    assert_eq!(all_set.last, 61);

    let mut clear = BooleanList::new(0);
    assert_eq!(clear.next(), Some(true));
    let mut one_bit = BooleanList::new(0x1000);
    assert_eq!(one_bit.next(), Some(false));
    assert_eq!(one_bit.next(), Some(true));
}

#[test]
fn zero_sided_rolls_are_zero_and_free() {
    let mut rng = Rng::new(3);
    let before = rng.to_raw();
    assert_eq!(rng.biased_roll(0), 0);
    assert_eq!(rng.fair_roll(0), 0);
    assert_eq!(rng.to_raw(), before);
}

#[test]
fn biased_roll_is_in_range_and_exact() {
    let mut source = Xoshiro256StarStar::seed_from_u64(77);
    source.next_u64();
    let mut rng = Rng::new(77);
    for sides in [1u32, 2, 3, 6, 7, 100, 1 << 20, u32::MAX] {
        let w = source.next_u64();
        let r = rng.biased_roll(sides);
        assert!(r < sides);
        assert_eq!(r as u64, (w >> 3) % sides as u64);
    }
    assert_eq!(rng.to_raw().1, 8);
}

#[test]
fn fair_roll_draws_one_word() {
    let mut source = Xoshiro256StarStar::seed_from_u64(78);
    source.next_u64();
    let mut rng = Rng::new(78);
    for sides in [1u32, 5, 100, u32::MAX] {
        let w = source.next_u64();
        let r = rng.fair_roll(sides);
        assert!(r < sides);
        assert_eq!(r as u64, (w >> 3) % sides as u64);
    }
    assert_eq!(rng.to_raw().1, 4);
}

#[test]
fn fair_roll_is_uniform() {
    let mut rng = Rng::new(4242);
    let samples = 100_000u32;
    for sides in [1u32, 2, 3, 7, 100] {
        let mut counts = vec![0u64; sides as usize];
        for _ in 0..samples {
            let r = rng.fair_roll(sides);
            assert!(r < sides);
            counts[r as usize] += 1;
        }
        let expected = samples as f64 / sides as f64;
        let chi2: f64 = counts
            .iter()
            .map(|&c| {
                let d = c as f64 - expected;
                d * d / expected
            })
            .sum();
        // Far above the 99.9th percentile for up to 99 degrees of freedom.
        let dof = (sides - 1) as f64;
        assert!(chi2 <= dof + 6.0 * (2.0 * dof).sqrt() + 15.0, "sides {} chi2 {}", sides, chi2);
    }
}

#[test]
fn shuffle_is_a_permutation() {
    let mut rng = Rng::new(11);
    let input: Vec<u32> = vec![5, 3, 3, 9, 0, 5, 5, 1, 2, 8, 8];
    for _ in 0..50 {
        let mut out = rng.shuffle(&input);
        assert_eq!(out.len(), input.len());
        out.sort();
        let mut sorted = input.clone();
        sorted.sort();
        assert_eq!(out, sorted);
    }
    let empty: Vec<u32> = Vec::new();
    assert!(rng.shuffle(&empty).is_empty());
    assert_eq!(rng.shuffle(&[7u8]), vec![7u8]);
}

#[test]
fn shuffle_takes_two_steps() {
    let mut rng = Rng::new(12);
    rng.shuffle(&[1, 2, 3]);
    assert_eq!(rng.to_raw().1, 2);
    rng.shuffle::<u8>(&[]);
    assert_eq!(rng.to_raw().1, 4);
}

#[test]
fn shuffle_matches_keyed_order() {
    let mut probe = Rng::new(21);
    let salt = probe.get_u64();
    let key = probe.get_u64();
    let input: Vec<u16> = (0..40).collect();
    let keys = keys_for(key, salt, input.len());
    let expected = order_by_keys(&keys, &input);
    let mut rng = Rng::new(21);
    assert_eq!(rng.shuffle(&input), expected);
}

#[test]
fn keys_follow_the_keyed_fnv_hash() {
    let key = 0x0123_4567_89ab_cdef;
    let salt = u64::MAX - 1;
    let n = 5usize;
    let keys = keys_for(key, salt, n);
    let mut hasher = FnvHasher::with_key(key);
    for (i, k) in keys.iter().enumerate() {
        hasher.write_u64(salt.wrapping_add(i as u64));
        let h = hasher.finish();
        assert_eq!(*k, ((h & 0xffff_ffff) | (h >> 32)) % n as u64);
        assert!(*k < n as u64);
    }
}

#[test]
fn fnv_hash_changes_the_state() {
    // A hash that handed its state back would give key 1000 % 3 == 1.
    let keys = keys_for(1000, 0, 3);
    let mut hasher = FnvHasher::with_key(1000);
    hasher.write_u64(0);
    let h = hasher.finish();
    assert_ne!(h, 1000);
    assert_eq!(keys[0], ((h & 0xffff_ffff) | (h >> 32)) % 3);
}

#[test]
fn shuffle_key_folds_and_reduces() {
    assert_eq!(shuffle_key(0x1234_5678_0000_00ff, 1000), 31);
    assert_eq!(shuffle_key(0, 7), 0);
    assert_eq!(shuffle_key(u64::MAX, 10), 0xffff_ffffu64 % 10);
    assert_eq!(shuffle_key(0xffff_ffff_0000_0000, 1), 0);
}

#[test]
fn order_by_keys_is_stable() {
    assert_eq!(order_by_keys(&[1, 0, 1], &[10, 20, 30]), vec![20, 10, 30]);
    assert_eq!(order_by_keys(&[3, 3, 3], &['a', 'b', 'c']), vec!['a', 'b', 'c']);
    assert_eq!(order_by_keys(&[2, 1, 0], &[1u8, 2, 3]), vec![3, 2, 1]);
    let empty: [u8; 0] = [];
    assert!(order_by_keys(&[], &empty).is_empty());
}

#[test]
fn steps_count_every_draw() {
    let mut rng = Rng::new(64);
    rng.get_u64();
    assert_eq!(rng.to_raw().1, 1);
    rng.get_u32();
    assert_eq!(rng.to_raw().1, 2);
    rng.biased_roll(6);
    assert_eq!(rng.to_raw().1, 3);
    rng.fair_roll(6);
    assert_eq!(rng.to_raw().1, 4);
    rng.split();
    assert_eq!(rng.to_raw().1, 5);
    rng.shuffle(&[1, 2]);
    assert_eq!(rng.to_raw().1, 7);
    rng.get_bool();
    assert_eq!(rng.to_raw().1, 7);
}

#[test]
fn exhausted_restored_pool_refills() {
    let mut rng = Rng::from_raw((9, 4, 0, 200));
    let mut twin = Rng::from_raw((9, 4, 0, 0));
    let w = twin.get_u64();
    let b = rng.get_bool();
    assert_eq!(rng.to_raw(), (9, 5, w, 1));
    assert_eq!(b, (0x1000 & w) == 0);
}
