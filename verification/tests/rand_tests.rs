use p2pg::rand::{Rng, RNG_MODULUS};

/// One million draws from seed 1028 average out to one half: the
/// generator covers the unit interval evenly.
#[test]
fn evenly_distributed() {
    let mut avg = 0f64;
    let mut rng = Rng::new(1028);
    let count = 1000000u32;
    for _ in 0..count {
        let numerator = rng.next_numerator();
        avg += numerator as f64 / RNG_MODULUS as f64;
    }
    let epsilon = 0.001f64;
    avg /= count as f64;
    assert!(0.5 - epsilon < avg && avg < 0.5 + epsilon);
}

#[test]
fn first_transition_is_the_multiplier() {
    let mut rng = Rng::new(1);
    assert_eq!(rng.next_numerator(), 48_271);
    let mut rng = Rng::default();
    assert_eq!(rng.next_numerator(), 48_271 * 1024);
}

#[test]
fn same_seed_same_stream() {
    let mut a = Rng::new(777);
    let mut b = Rng::new(777);
    for _ in 0..1000 {
        assert_eq!(a.next_numerator(), b.next_numerator());
    }
    let mut c = Rng::new(778);
    let mut diverged = false;
    let mut a = Rng::new(777);
    for _ in 0..10 {
        if a.next_numerator() != c.next_numerator() {
            diverged = true;
        }
    }
    assert!(diverged);
}

#[test]
fn next_usize_stays_in_range() {
    let mut rng = Rng::new(99);
    for _ in 0..10000 {
        let v = rng.next_usize(3, 17);
        assert!(3 <= v && v < 17);
    }
    assert_eq!(rng.next_usize(5, 5), 5);
}

#[test]
fn next_i32_stays_in_range() {
    let mut rng = Rng::new(4242);
    for _ in 0..10000 {
        let v = rng.next_i32(-50, 50);
        assert!(-50 <= v && v < 50);
    }
    assert_eq!(rng.next_i32(-3, -3), -3);
}

/// Removing a random element leaves one element fewer and returns an
/// element of the original vector.
#[test]
fn extract_random_shrinks_by_one() {
    let mut rng = Rng::new(1028);
    let original = vec![10u64, 20, 30, 40, 50, 60, 70];
    let mut v = original.clone();
    let taken = rng.extract_random(&mut v);
    assert_eq!(v.len(), original.len() - 1);
    assert!(original.contains(&taken));
    let mut rebuilt = v.clone();
    rebuilt.push(taken);
    rebuilt.sort();
    assert_eq!(rebuilt, original);
}

/// Extracting from a single-element vector returns it and empties the
/// vector, while still advancing the generator.
#[test]
fn extract_random_takes_the_last_element() {
    let mut rng = Rng::new(44);
    let before = rng;
    let mut v = vec![99u8];
    assert_eq!(rng.extract_random(&mut v), 99);
    assert!(v.is_empty());
    let mut advanced = before;
    advanced.next_numerator();
    assert_eq!(rng, advanced);
}

/// Over many trials every original index is chosen with roughly equal
/// frequency.
#[test]
fn extract_random_is_uniform() {
    let mut rng = Rng::new(1028);
    let trials = 100000usize;
    let k = 5usize;
    let mut counts = [0usize; 5];
    for _ in 0..trials {
        let mut v: Vec<usize> = (0..k).collect();
        let taken = rng.extract_random(&mut v);
        counts[taken] += 1;
    }
    let expected = trials / k;
    for &c in counts.iter() {
        assert!(c > expected - expected / 10);
        assert!(c < expected + expected / 10);
    }
}

#[test]
fn scaling_matches_the_transition_formula() {
    let mut rng = Rng::new(12345);
    let numerator = rng.next_numerator();
    let expected_state = (48_271u64 * 12345) % RNG_MODULUS;
    assert_eq!(numerator, expected_state);
    let mut rng = Rng::new(12345);
    let drawn = rng.next_usize(0, 10);
    assert_eq!(drawn as u64, expected_state * 10 / RNG_MODULUS);
}
