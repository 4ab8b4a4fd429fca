use torchlight::pseudo_rand::XorShift8;

#[test]
fn rand8_follows_the_xorshift_sequence() {
    let mut rng = XorShift8::new(1);
    let expected: [i8; 12] = [27, 71, -124, -21, -46, -64, 66, -16, -107, 68, -87, 34];
    for want in expected {
        assert_eq!(rng.rand8(), want);
    }
}

#[test]
fn rand8_first_draw_of_several_seeds() {
    assert_eq!(XorShift8::new(2).rand8(), 54);
    assert_eq!(XorShift8::new(3).rand8(), 45);
    assert_eq!(XorShift8::new(5).rand8(), 116);
    assert_eq!(XorShift8::new(100).rand8(), -54);
    assert_eq!(XorShift8::new(-100).rand8(), -127);
    assert_eq!(XorShift8::new(-1).rand8(), 9);
    assert_eq!(XorShift8::new(127).rand8(), -115);
    assert_eq!(XorShift8::new(-128).rand8(), -124);
}

#[test]
fn rand8_shifts_right_with_the_sign() {
    // A logical right shift would give 123 here.
    assert_eq!(XorShift8::new(-128).rand8(), -124);
}

#[test]
fn zero_seed_yields_only_zeros() {
    let mut rng = XorShift8::new(0);
    for _ in 0..1000 {
        assert_eq!(rng.rand8(), 0);
    }
}

#[test]
fn seed_minus_57_falls_to_zero() {
    let mut rng = XorShift8::new(-57);
    for _ in 0..1000 {
        assert_eq!(rng.rand8(), 0);
    }
}

#[test]
fn every_other_seed_never_yields_zero() {
    for seed in i8::MIN..=i8::MAX {
        if seed == 0 || seed == -57 {
            continue;
        }
        let mut rng = XorShift8::new(seed);
        for _ in 0..1000 {
            let r = rng.rand8();
            assert_ne!(r, 0);
            assert_ne!(r, -57);
            assert_ne!(r, i8::MIN);
        }
    }
}

#[test]
fn generator_comes_round_after_127_draws() {
    let mut rng = XorShift8::new(1);
    let first = rng.rand8();
    let mut seen = vec![first];
    for _ in 0..126 {
        let r = rng.rand8();
        assert!(!seen.contains(&r));
        seen.push(r);
    }
    assert_eq!(rng.rand8(), first);
}

#[test]
fn random_between_gives_the_mapped_draws() {
    let mut rng = XorShift8::new(1);
    let expected: [i8; 8] = [-13, 31, 3, -19, 6, 24, 26, -24];
    for want in expected {
        assert_eq!(rng.random_between(-40, 40), want);
    }
    let mut rng = XorShift8::new(5);
    let expected: [i8; 8] = [17, 27, 7, 6, 97, 92, 10, 30];
    for want in expected {
        assert_eq!(rng.random_between(1, 100), want);
    }
}

#[test]
fn random_between_is_min_plus_magnitude_mod_width() {
    // The draw after seed 1 is 27, the one after that 71, then -124.
    let mut rng = XorShift8::new(1);
    assert_eq!(rng.random_between(0, 9), 27 % 10);
    assert_eq!(rng.random_between(10, 19), 10 + 71 % 10);
    assert_eq!(rng.random_between(-5, 5), -5 + 124 % 11);
}

#[test]
fn random_between_advances_the_generator_once() {
    let mut a = XorShift8::new(33);
    let mut b = XorShift8::new(33);
    a.random_between(-40, 40);
    b.rand8();
    assert_eq!(a.rand8(), b.rand8());
}

#[test]
fn random_between_stays_in_range_over_100000_draws() {
    for seed in i8::MIN..=i8::MAX {
        let mut rng = XorShift8::new(seed);
        for _ in 0..100_000 {
            let v = rng.random_between(-40, 40);
            assert!((-40..=40).contains(&v));
        }
    }
}

#[test]
fn random_between_stays_in_range_for_many_ranges() {
    let ranges: [(i8, i8); 8] =
        [(1, 100), (0, 0), (7, 7), (-128, 127), (-128, -128), (127, 127), (-1, 1), (0, 127)];
    for (min, max) in ranges {
        for seed in [1i8, -1, 42, 127, -128, 0, -57] {
            let mut rng = XorShift8::new(seed);
            for _ in 0..1000 {
                let v = rng.random_between(min, max);
                assert!(min <= v && v <= max);
            }
        }
    }
}

#[test]
fn random_between_over_the_widest_range_is_the_shifted_magnitude() {
    let mut rng = XorShift8::new(1);
    // Draws 27, 71, -124: magnitudes 27, 71, 124, counted up from -128.
    assert_eq!(rng.random_between(-128, 127), -101);
    assert_eq!(rng.random_between(-128, 127), -57);
    assert_eq!(rng.random_between(-128, 127), -4);
}

#[test]
fn only_zero_and_minus_57_do_not_cycle() {
    for seed in i8::MIN..=i8::MAX {
        let mut rng = XorShift8::new(seed);
        assert_eq!(rng.is_cycling(), seed != 0 && seed != -57);
        let first = rng.rand8();
        assert_eq!(first != 0, seed != 0 && seed != -57);
        assert_eq!(rng.is_cycling(), first != 0);
    }
}
