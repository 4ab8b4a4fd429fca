use torchlight::brightness::{Band, BrightnessCurve, Segment, FULL_DUTY, MINUTE, T30, T45, T50};
use torchlight::error::ConfigError;

fn band(baseline: u8, floor: u8, ceiling: u8) -> Band {
    Band { baseline, floor, ceiling }
}

fn segment(until: u32, baseline: u8, floor: u8, ceiling: u8) -> Segment {
    Segment { until, band: band(baseline, floor, ceiling) }
}

#[test]
fn breakpoints_of_the_one_hour_table() {
    assert_eq!(MINUTE, 60);
    assert_eq!(T30, 1800);
    assert_eq!(T45, 2700);
    assert_eq!(T50, 3000);
    assert_eq!(FULL_DUTY, 100);
}

#[test]
fn baseline_at_time_zero_is_that_of_the_first_segment() {
    let curve = BrightnessCurve::one_hour();
    assert_eq!(curve.baseline(0), 95);
    assert_eq!(curve.flick_torch(0, 0), 95);
}

#[test]
fn baseline_changes_exactly_at_each_breakpoint() {
    let curve = BrightnessCurve::one_hour();
    assert_eq!(curve.baseline(T30 - 1), 95);
    assert_eq!(curve.baseline(T30), 70);
    assert_eq!(curve.baseline(T30 + 1), 70);
    assert_eq!(curve.baseline(T45 - 1), 70);
    assert_eq!(curve.baseline(T45), 40);
    assert_eq!(curve.baseline(T45 + 1), 40);
    assert_eq!(curve.baseline(T50 - 1), 40);
    assert_eq!(curve.baseline(T50), 20);
    assert_eq!(curve.baseline(T50 + 1), 20);
    assert_eq!(curve.baseline(u32::MAX), 20);
}

#[test]
fn duty_without_flicker_steps_down_at_thirty_minutes() {
    let curve = BrightnessCurve::one_hour();
    assert_eq!(curve.flick_torch(1799, 0), 95);
    assert_eq!(curve.flick_torch(1800, 0), 70);
    assert_eq!(curve.flick_torch(2699, 0), 70);
    assert_eq!(curve.flick_torch(2700, 0), 40);
    assert_eq!(curve.flick_torch(2999, 0), 40);
    assert_eq!(curve.flick_torch(3000, 0), 20);
}

#[test]
fn band_of_each_phase_of_the_one_hour_table() {
    let curve = BrightnessCurve::one_hour();
    assert_eq!(curve.band(0), band(95, 5, 99));
    assert_eq!(curve.band(1799), band(95, 5, 99));
    assert_eq!(curve.band(1800), band(70, 5, 99));
    assert_eq!(curve.band(2699), band(70, 5, 99));
    assert_eq!(curve.band(2700), band(40, 5, 99));
    assert_eq!(curve.band(2999), band(40, 5, 99));
    assert_eq!(curve.band(3000), band(20, 5, 20));
}

#[test]
fn apply_flicker_adds_the_delta() {
    assert_eq!(BrightnessCurve::apply_flicker(95, 0), 95);
    assert_eq!(BrightnessCurve::apply_flicker(95, -40), 55);
    assert_eq!(BrightnessCurve::apply_flicker(95, 40), 135);
    assert_eq!(BrightnessCurve::apply_flicker(20, -20), 0);
    assert_eq!(BrightnessCurve::apply_flicker(0, 127), 127);
}

#[test]
fn apply_flicker_stops_at_the_ends_of_the_range() {
    assert_eq!(BrightnessCurve::apply_flicker(20, -21), 0);
    assert_eq!(BrightnessCurve::apply_flicker(0, -128), 0);
    assert_eq!(BrightnessCurve::apply_flicker(127, -128), 0);
    assert_eq!(BrightnessCurve::apply_flicker(128, -128), 0);
    assert_eq!(BrightnessCurve::apply_flicker(129, -128), 1);
    assert_eq!(BrightnessCurve::apply_flicker(128, 127), 255);
    assert_eq!(BrightnessCurve::apply_flicker(129, 127), 255);
    assert_eq!(BrightnessCurve::apply_flicker(255, 127), 255);
    assert_eq!(BrightnessCurve::apply_flicker(255, 1), 255);
    assert_eq!(BrightnessCurve::apply_flicker(255, -1), 254);
}

#[test]
fn apply_flicker_agrees_with_saturating_add_signed() {
    for value in 0..=u8::MAX {
        for delta in i8::MIN..=i8::MAX {
            assert_eq!(
                BrightnessCurve::apply_flicker(value, delta),
                value.saturating_add_signed(delta)
            );
        }
    }
}

#[test]
fn clamp_holds_values_within_the_band() {
    let curve = BrightnessCurve::one_hour();
    assert_eq!(curve.clamp(100, 0), 99);
    assert_eq!(curve.clamp(255, 0), 99);
    assert_eq!(curve.clamp(99, 0), 99);
    assert_eq!(curve.clamp(50, 0), 50);
    assert_eq!(curve.clamp(5, 0), 5);
    assert_eq!(curve.clamp(4, 0), 5);
    assert_eq!(curve.clamp(0, 0), 5);
    assert_eq!(curve.clamp(21, T50 - 1), 21);
    assert_eq!(curve.clamp(21, T50), 20);
    assert_eq!(curve.clamp(20, T50), 20);
    assert_eq!(curve.clamp(255, T50), 20);
    assert_eq!(curve.clamp(3, T50), 5);
}

#[test]
fn flick_torch_shifts_and_clamps() {
    let curve = BrightnessCurve::one_hour();
    assert_eq!(curve.flick_torch(0, -40), 55);
    assert_eq!(curve.flick_torch(0, 4), 99);
    assert_eq!(curve.flick_torch(0, 5), 99);
    assert_eq!(curve.flick_torch(1800, 10), 80);
    assert_eq!(curve.flick_torch(2700, -36), 5);
    assert_eq!(curve.flick_torch(2700, -35), 5);
    assert_eq!(curve.flick_torch(2700, -34), 6);
    assert_eq!(curve.flick_torch(3000, -10), 10);
    assert_eq!(curve.flick_torch(3000, 0), 20);
    assert_eq!(curve.flick_torch(3000, 40), 20);
}

#[test]
fn extreme_deltas_stay_within_the_band() {
    let curve = BrightnessCurve::one_hour();
    let times = [0, 1, T30 - 1, T30, T45 - 1, T45, T50 - 1, T50, 100_000, u32::MAX];
    for elapsed in times {
        let band = curve.band(elapsed);
        for delta in i8::MIN..=i8::MAX {
            let duty = curve.flick_torch(elapsed, delta);
            assert!(band.floor <= duty && duty <= band.ceiling);
            assert!(duty <= 100);
        }
        assert_eq!(curve.flick_torch(elapsed, -128), 5);
        assert_eq!(curve.flick_torch(elapsed, 127), band.ceiling);
    }
    assert_eq!(curve.flick_torch(T50 - 1, 127), 99);
    assert_eq!(curve.flick_torch(T50, 127), 20);
}

#[test]
fn table_of_two_segments() {
    let curve =
        BrightnessCurve::new(vec![segment(600, 100, 20, 100)], band(50, 10, 100)).unwrap();
    assert_eq!(curve.baseline(599), 100);
    assert_eq!(curve.baseline(600), 50);
    assert_eq!(curve.flick_torch(0, -128), 20);
    assert_eq!(curve.flick_torch(600, -128), 10);
    assert_eq!(curve.flick_torch(600, 127), 100);
}

#[test]
fn table_without_segments_is_its_tail() {
    let curve = BrightnessCurve::new(Vec::new(), band(30, 10, 60)).unwrap();
    assert_eq!(curve.baseline(0), 30);
    assert_eq!(curve.baseline(u32::MAX), 30);
    assert_eq!(curve.flick_torch(5, 50), 60);
}

#[test]
fn tail_holds_at_the_last_moment_at_least() {
    let curve =
        BrightnessCurve::new(vec![segment(u32::MAX, 80, 10, 90)], band(20, 5, 20)).unwrap();
    assert_eq!(curve.baseline(0), 80);
    assert_eq!(curve.baseline(u32::MAX - 1), 80);
    assert_eq!(curve.baseline(u32::MAX), 20);
}

#[test]
fn segment_of_one_instant_holds_at_time_zero_only() {
    let curve = BrightnessCurve::new(vec![segment(1, 80, 10, 90)], band(20, 5, 20)).unwrap();
    assert_eq!(curve.baseline(0), 80);
    assert_eq!(curve.baseline(1), 20);
}

#[test]
fn rebuilt_one_hour_table_is_accepted() {
    let curve = BrightnessCurve::new(
        vec![segment(T30, 95, 5, 99), segment(T45, 70, 5, 99), segment(T50, 40, 5, 99)],
        band(20, 5, 20),
    )
    .unwrap();
    let preset = BrightnessCurve::one_hour();
    for elapsed in (0..4000).step_by(7) {
        for delta in [-128i8, -40, -1, 0, 1, 40, 127] {
            assert_eq!(curve.flick_torch(elapsed, delta), preset.flick_torch(elapsed, delta));
        }
    }
}

#[test]
fn band_with_its_baseline_outside_its_limits_is_refused() {
    let r = BrightnessCurve::new(Vec::new(), band(4, 5, 99));
    assert_eq!(r.err(), Some(ConfigError::InvalidBand));
    let r = BrightnessCurve::new(Vec::new(), band(100, 5, 99));
    assert_eq!(r.err(), Some(ConfigError::InvalidBand));
    let r = BrightnessCurve::new(vec![segment(10, 50, 60, 40)], band(20, 5, 20));
    assert_eq!(r.err(), Some(ConfigError::InvalidBand));
}

#[test]
fn ceiling_above_full_duty_is_refused() {
    let r = BrightnessCurve::new(Vec::new(), band(50, 5, 101));
    assert_eq!(r.err(), Some(ConfigError::InvalidBand));
    let r = BrightnessCurve::new(vec![segment(10, 95, 5, 255)], band(20, 5, 20));
    assert_eq!(r.err(), Some(ConfigError::InvalidBand));
    assert!(BrightnessCurve::new(Vec::new(), band(100, 0, 100)).is_ok());
}

#[test]
fn breakpoints_out_of_order_are_refused() {
    let r = BrightnessCurve::new(
        vec![segment(2700, 95, 5, 99), segment(1800, 70, 5, 99)],
        band(20, 5, 20),
    );
    assert_eq!(r.err(), Some(ConfigError::OverlappingSegments));
    let r = BrightnessCurve::new(
        vec![segment(10, 95, 5, 99), segment(20, 70, 5, 99), segment(15, 40, 5, 99)],
        band(20, 5, 20),
    );
    assert_eq!(r.err(), Some(ConfigError::OverlappingSegments));
}

#[test]
fn breakpoint_at_zero_is_refused() {
    let r = BrightnessCurve::new(vec![segment(0, 95, 5, 99)], band(20, 5, 20));
    assert_eq!(r.err(), Some(ConfigError::OverlappingSegments));
    let r = BrightnessCurve::new(
        vec![segment(0, 95, 5, 99), segment(10, 70, 5, 99)],
        band(20, 5, 20),
    );
    assert_eq!(r.err(), Some(ConfigError::OverlappingSegments));
}

#[test]
fn repeated_breakpoint_is_refused() {
    let r = BrightnessCurve::new(
        vec![segment(1800, 95, 5, 99), segment(1800, 70, 5, 99)],
        band(20, 5, 20),
    );
    assert_eq!(r.err(), Some(ConfigError::OverlappingSegments));
}

#[test]
fn rising_baseline_is_refused() {
    let r = BrightnessCurve::new(
        vec![segment(10, 70, 5, 99), segment(20, 95, 5, 99)],
        band(20, 5, 20),
    );
    assert_eq!(r.err(), Some(ConfigError::RisingProfile));
    let r = BrightnessCurve::new(vec![segment(10, 20, 5, 99)], band(40, 5, 99));
    assert_eq!(r.err(), Some(ConfigError::RisingProfile));
}

#[test]
fn rising_ceiling_is_refused() {
    let r = BrightnessCurve::new(vec![segment(10, 20, 5, 20)], band(20, 5, 99));
    assert_eq!(r.err(), Some(ConfigError::RisingProfile));
    let r = BrightnessCurve::new(
        vec![segment(10, 50, 5, 60), segment(20, 50, 5, 61)],
        band(20, 5, 20),
    );
    assert_eq!(r.err(), Some(ConfigError::RisingProfile));
}

#[test]
fn faults_are_named_in_a_fixed_order() {
    // A bad band anywhere comes before breakpoints out of order.
    let r = BrightnessCurve::new(
        vec![segment(20, 70, 5, 99), segment(10, 95, 5, 99)],
        band(20, 30, 20),
    );
    assert_eq!(r.err(), Some(ConfigError::InvalidBand));
    // Breakpoints out of order come before a rising profile.
    let r = BrightnessCurve::new(
        vec![segment(20, 70, 5, 99), segment(10, 95, 5, 99)],
        band(20, 5, 20),
    );
    assert_eq!(r.err(), Some(ConfigError::OverlappingSegments));
}

#[test]
fn level_profile_is_accepted() {
    let r = BrightnessCurve::new(
        vec![segment(10, 50, 5, 99), segment(20, 50, 5, 99)],
        band(50, 5, 99),
    );
    assert!(r.is_ok());
}

#[test]
fn baseline_never_rises_with_time() {
    let curve = BrightnessCurve::one_hour();
    let mut last = curve.baseline(0);
    for elapsed in 1..4000 {
        let now = curve.baseline(elapsed);
        assert!(now <= last);
        last = now;
    }
}

fn flick_torch_by_hand(seconds: u32, delta: i8) -> u8 {
    let baseline: u8 = match seconds {
        0..=1799 => 95,
        1800..=2699 => 70,
        2700..=2999 => 40,
        _ => 20,
    };
    let duty = baseline.saturating_add_signed(delta);
    if seconds >= 3000 && duty > 20 {
        20
    } else if duty > 99 {
        99
    } else if duty < 5 {
        5
    } else {
        duty
    }
}

#[test]
fn one_hour_table_against_the_rules_written_out() {
    let curve = BrightnessCurve::one_hour();
    for seconds in 0..3700 {
        for delta in i8::MIN..=i8::MAX {
            assert_eq!(curve.flick_torch(seconds, delta), flick_torch_by_hand(seconds, delta));
        }
    }
}
