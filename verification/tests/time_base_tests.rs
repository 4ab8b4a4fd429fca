use torchlight::error::ConfigError;
use torchlight::time_base::TimeBase;

#[test]
fn time_starts_at_zero() {
    let time = TimeBase::new(100, 1000).unwrap();
    assert_eq!(time.elapsed(), 0);
}

#[test]
fn ten_ticks_of_100_ms_make_a_second() {
    let mut time = TimeBase::new(100, 1000).unwrap();
    for _ in 0..9 {
        time.on_tick();
    }
    assert_eq!(time.elapsed(), 0);
    time.on_tick();
    assert_eq!(time.elapsed(), 1);
    for _ in 0..600 {
        time.on_tick();
    }
    assert_eq!(time.elapsed(), 61);
}

#[test]
fn ticks_of_33_ms_add_up() {
    let mut time = TimeBase::new(33, 1000).unwrap();
    for _ in 0..31 {
        time.on_tick();
    }
    assert_eq!(time.elapsed(), 1);
    let mut raw = TimeBase::new(33, 1).unwrap();
    for _ in 0..31 {
        raw.on_tick();
    }
    assert_eq!(raw.elapsed(), 1023);
}

#[test]
fn raw_overflow_units_count_one_by_one() {
    let mut time = TimeBase::new(1, 1).unwrap();
    for n in 1..=1000u32 {
        time.on_tick();
        assert_eq!(time.elapsed(), n);
    }
}

#[test]
fn overflow_counts_group_into_cycles() {
    let mut time = TimeBase::new(1, 38).unwrap();
    for _ in 0..37 {
        time.on_tick();
    }
    assert_eq!(time.elapsed(), 0);
    time.on_tick();
    assert_eq!(time.elapsed(), 1);
}

#[test]
fn elapsed_reads_without_changing_anything() {
    let mut time = TimeBase::new(7, 2).unwrap();
    time.on_tick();
    assert_eq!(time.elapsed(), 3);
    assert_eq!(time.elapsed(), 3);
}

#[test]
fn counter_starts_over_at_its_end() {
    let mut time = TimeBase::new(0x8000_0000, 1).unwrap();
    time.on_tick();
    assert_eq!(time.elapsed(), 0x8000_0000);
    time.on_tick();
    assert_eq!(time.elapsed(), 0);
    let mut odd = TimeBase::new(0xFFFF_FFFF, 1).unwrap();
    odd.on_tick();
    odd.on_tick();
    assert_eq!(odd.elapsed(), 0xFFFF_FFFE);
}

#[test]
fn tick_worth_nothing_is_refused() {
    assert_eq!(TimeBase::new(0, 1).err(), Some(ConfigError::ZeroTimeUnit));
    assert!(TimeBase::new(1, 1).is_ok());
    assert!(TimeBase::new(u32::MAX, u32::MAX).is_ok());
}

#[test]
fn zero_time_unit_is_refused() {
    assert_eq!(TimeBase::new(100, 0).err(), Some(ConfigError::ZeroTimeUnit));
    assert_eq!(TimeBase::new(0, 0).err(), Some(ConfigError::ZeroTimeUnit));
}
