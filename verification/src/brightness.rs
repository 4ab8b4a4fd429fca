//! The brightness curve: which duty cycle the torch shows at a given age,
//! before and after the flicker is applied.
//!
//! The time axis is cut into segments. Each segment carries a band: the
//! baseline the torch burns at, and the floor and ceiling that the flicker
//! may not cross. A segment ends at its breakpoint: at the breakpoint itself
//! the next band is in force already. From the last breakpoint on the tail
//! band holds.

use crate::error::ConfigError;
use vstd::prelude::*;

verus! {

/// Upper limit of any duty cycle, in percent.
pub const FULL_DUTY: u8 = 100;

/// Seconds in a minute, for tables whose time unit is the second.
pub const MINUTE: u32 = 60;

/// Age at which the one-hour torch leaves its bright phase, in seconds.
pub const T30: u32 = MINUTE * 30;

/// Age at which the one-hour torch leaves its settled phase, in seconds.
pub const T45: u32 = MINUTE * 45;

/// Age at which the one-hour torch leaves its fading phase, in seconds.
pub const T50: u32 = MINUTE * 50;

/// A baseline percentage with the limits the flickering output is held within.
#[derive(Clone, Copy, Debug, PartialEq, Eq, Structural)]
pub struct Band {
    pub baseline: u8,
    pub floor: u8,
    pub ceiling: u8,
}

/// One stretch of the time axis: `band` holds for every elapsed time below
/// `until` that no earlier segment has claimed. At `until` itself the segment
/// is over.
#[derive(Clone, Copy, Debug, PartialEq, Eq, Structural)]
pub struct Segment {
    pub until: u32,
    pub band: Band,
}

/// The mathematical content of a [`BrightnessCurve`].
pub struct CurveView {
    pub segments: Seq<Segment>,
    pub tail: Band,
}

/// A band is usable when its baseline lies inside its limits and its ceiling
/// is a percentage.
pub open spec fn band_ok(b: Band) -> bool {
    b.floor <= b.baseline && b.baseline <= b.ceiling && b.ceiling <= FULL_DUTY
}

/// Every band of the table is usable.
pub open spec fn bands_ok(c: CurveView) -> bool {
    &&& band_ok(c.tail)
    &&& forall|i: int| 0 <= i < c.segments.len() ==> band_ok(#[trigger] c.segments[i].band)
}

/// Breakpoints strictly increase, starting above zero, so the segments
/// neither overlap nor invert and each of them holds some time.
pub open spec fn ordered(segments: Seq<Segment>) -> bool {
    &&& forall|i: int| 0 <= i < segments.len() ==> (#[trigger] segments[i]).until > 0
    &&& forall|i: int, j: int|
        0 <= i < j < segments.len() ==> #[trigger] segments[i].until < #[trigger] segments[j].until
}

/// `later` burns no brighter than `earlier`, and is capped no higher.
pub open spec fn dimmer(earlier: Band, later: Band) -> bool {
    earlier.baseline >= later.baseline && earlier.ceiling >= later.ceiling
}

/// The profile only steps down: every band is dimmer than the ones before it.
pub open spec fn descending(c: CurveView) -> bool {
    &&& forall|i: int, j: int|
        0 <= i < j < c.segments.len() ==> dimmer(
            #[trigger] c.segments[i].band,
            #[trigger] c.segments[j].band,
        )
    &&& forall|i: int| 0 <= i < c.segments.len() ==> dimmer(#[trigger] c.segments[i].band, c.tail)
}

/// What is wrong with a table, if anything. Bands are judged first, then the
/// order of the breakpoints, then the shape of the profile.
pub open spec fn fault(c: CurveView) -> Option<ConfigError> {
    if !bands_ok(c) {
        Some(ConfigError::InvalidBand)
    } else if !ordered(c.segments) {
        Some(ConfigError::OverlappingSegments)
    } else if !descending(c) {
        Some(ConfigError::RisingProfile)
    } else {
        None
    }
}

/// A table without a fault: the only kind a curve is built from.
pub open spec fn well_shaped(c: CurveView) -> bool {
    bands_ok(c) && ordered(c.segments) && descending(c)
}

/// The band of the first segment at or after index `from` whose breakpoint
/// lies above `elapsed`; the tail band if there is none.
pub open spec fn band_from(c: CurveView, from: int, elapsed: u32) -> Band
    decreases c.segments.len() - from,
{
    if from < 0 || from >= c.segments.len() {
        c.tail
    } else if elapsed < c.segments[from].until {
        c.segments[from].band
    } else {
        band_from(c, from + 1, elapsed)
    }
}

/// The band in force at `elapsed`.
pub open spec fn band_at(c: CurveView, elapsed: u32) -> Band {
    band_from(c, 0, elapsed)
}

/// `value + delta`, held at the ends of the `u8` range instead of wrapping.
pub open spec fn flickered(value: u8, delta: i8) -> u8 {
    if value + delta < 0 {
        0u8
    } else if value + delta > u8::MAX {
        u8::MAX
    } else {
        (value + delta) as u8
    }
}

/// `value`, pulled back into `[band.floor, band.ceiling]`. Should a band have
/// its floor above its ceiling, the ceiling wins.
pub open spec fn clamped(value: u8, band: Band) -> u8 {
    if value > band.ceiling {
        band.ceiling
    } else if value < band.floor {
        band.floor
    } else {
        value
    }
}

/// The duty cycle shown at `elapsed` when the flicker draw is `delta`.
pub open spec fn duty_cycle(c: CurveView, elapsed: u32, delta: i8) -> u8 {
    let band = band_at(c, elapsed);
    clamped(flickered(band.baseline, delta), band)
}

/// The table that `BrightnessCurve::one_hour` builds.
pub open spec fn one_hour_table() -> CurveView {
    CurveView {
        segments: seq![
            Segment { until: T30, band: Band { baseline: 95, floor: 5, ceiling: 99 } },
            Segment { until: T45, band: Band { baseline: 70, floor: 5, ceiling: 99 } },
            Segment { until: T50, band: Band { baseline: 40, floor: 5, ceiling: 99 } },
        ],
        tail: Band { baseline: 20, floor: 5, ceiling: 20 },
    }
}

/// A validated table of segments.
#[derive(Debug)]
pub struct BrightnessCurve {
    segments: Vec<Segment>,
    tail: Band,
}

impl View for BrightnessCurve {
    type V = CurveView;

    closed spec fn view(&self) -> CurveView {
        CurveView { segments: self.segments@, tail: self.tail }
    }
}

fn band_is_ok(b: &Band) -> (r: bool)
    ensures
        r == band_ok(*b),
{
    b.floor <= b.baseline && b.baseline <= b.ceiling && b.ceiling <= FULL_DUTY
}

fn is_dimmer(earlier: &Band, later: &Band) -> (r: bool)
    ensures
        r == dimmer(*earlier, *later),
{
    earlier.baseline >= later.baseline && earlier.ceiling >= later.ceiling
}

fn all_bands_ok(segments: &Vec<Segment>, tail: &Band) -> (r: bool)
    ensures
        r == bands_ok(CurveView { segments: segments@, tail: *tail }),
{
    let ghost c = CurveView { segments: segments@, tail: *tail };
    if !band_is_ok(tail) {
        return false;
    }
    let mut i: usize = 0;
    while i < segments.len()
        invariant
            i <= segments.len(),
            c == (CurveView { segments: segments@, tail: *tail }),
            forall|k: int| 0 <= k < i ==> band_ok(#[trigger] c.segments[k].band),
        decreases segments.len() - i,
    {
        if !band_is_ok(&segments[i].band) {
            assert(!band_ok(c.segments[i as int].band));
            return false;
        }
        i += 1;
    }
    true
}

fn is_ordered(segments: &Vec<Segment>) -> (r: bool)
    ensures
        r == ordered(segments@),
{
    if segments.len() > 0 && segments[0].until == 0 {
        assert(!(segments@[0].until > 0));
        return false;
    }
    let mut i: usize = 1;
    while i < segments.len()
        invariant
            1 <= i,
            segments.len() > 0 ==> segments@[0].until > 0,
            forall|a: int, b: int|
                0 <= a < b < i && b < segments.len() ==> #[trigger] segments@[a].until
                    < #[trigger] segments@[b].until,
        decreases segments.len() - i,
    {
        if segments[i - 1].until >= segments[i].until {
            assert(segments@[i - 1].until >= segments@[i as int].until);
            return false;
        }
        i += 1;
    }
    assert forall|k: int| 0 <= k < segments.len() implies (#[trigger] segments@[k]).until > 0 by {
        if k > 0 {
            assert(segments@[0].until < segments@[k].until);
        }
    }
    true
}

fn is_descending(segments: &Vec<Segment>, tail: &Band) -> (r: bool)
    ensures
        r == descending(CurveView { segments: segments@, tail: *tail }),
{
    let ghost c = CurveView { segments: segments@, tail: *tail };
    let n = segments.len();
    if n == 0 {
        return true;
    }
    let mut i: usize = 1;
    while i < n
        invariant
            1 <= i <= n,
            n == segments.len(),
            c == (CurveView { segments: segments@, tail: *tail }),
            forall|a: int, b: int|
                0 <= a < b < i ==> dimmer(
                    #[trigger] c.segments[a].band,
                    #[trigger] c.segments[b].band,
                ),
        decreases n - i,
    {
        if !is_dimmer(&segments[i - 1].band, &segments[i].band) {
            assert(!dimmer(c.segments[i - 1].band, c.segments[i as int].band));
            return false;
        }
        i += 1;
    }
    if !is_dimmer(&segments[n - 1].band, tail) {
        assert(!dimmer(c.segments[n - 1].band, c.tail));
        return false;
    }
    assert forall|a: int| 0 <= a < n implies dimmer(#[trigger] c.segments[a].band, c.tail) by {
        if a < n - 1 {
            assert(dimmer(c.segments[a].band, c.segments[n - 1].band));
        }
    }
    true
}

impl BrightnessCurve {
    /// Holds of every curve there is.
    #[verifier::type_invariant]
    pub open spec fn is_sound(self) -> bool {
        well_shaped(self@)
    }

    /// Builds a curve from its segments, in the order of their breakpoints,
    /// and the band that holds past the last of them. A table that is not
    /// `well_shaped` is refused, with the first fault that `fault` names.
    pub fn new(segments: Vec<Segment>, tail: Band) -> (r: Result<BrightnessCurve, ConfigError>)
        ensures
            r is Ok <==> well_shaped(CurveView { segments: segments@, tail }),
            r matches Ok(c) ==> c@ == (CurveView { segments: segments@, tail }),
            r matches Err(e) ==> fault(CurveView { segments: segments@, tail }) == Some(e),
    {
        if !all_bands_ok(&segments, &tail) {
            return Err(ConfigError::InvalidBand);
        }
        if !is_ordered(&segments) {
            return Err(ConfigError::OverlappingSegments);
        }
        if !is_descending(&segments, &tail) {
            return Err(ConfigError::RisingProfile);
        }
        Ok(BrightnessCurve { segments, tail })
    }

    /// The table of the one-hour torch, over elapsed seconds: 95% for the
    /// first thirty minutes, 70% from minute 30, 40% from minute 45, all
    /// three held within 5% and 99%; from minute 50 on 20%, held within 5%
    /// and 20%.
    pub fn one_hour() -> (curve: BrightnessCurve)
        ensures
            curve@ == one_hour_table(),
    {
        let mut segments: Vec<Segment> = Vec::new();
        segments.push(Segment { until: T30, band: Band { baseline: 95, floor: 5, ceiling: 99 } });
        segments.push(Segment { until: T45, band: Band { baseline: 70, floor: 5, ceiling: 99 } });
        segments.push(Segment { until: T50, band: Band { baseline: 40, floor: 5, ceiling: 99 } });
        let tail = Band { baseline: 20, floor: 5, ceiling: 20 };
        proof {
            assert(segments@ =~= one_hour_table().segments);
            lemma_one_hour_is_well_shaped();
        }
        BrightnessCurve { segments, tail }
    }

    /// The band in force at `elapsed`: that of the first segment whose
    /// breakpoint `elapsed` has not reached, or the tail band.
    pub fn band(&self, elapsed: u32) -> (b: Band)
        ensures
            b == band_at(self@, elapsed),
            band_ok(b),
    {
        proof {
            use_type_invariant(self);
            lemma_band_is_listed(self@, 0, elapsed);
        }
        let mut i: usize = 0;
        while i < self.segments.len()
            invariant
                i <= self.segments.len(),
                band_at(self@, elapsed) == band_from(self@, i as int, elapsed),
                band_ok(band_at(self@, elapsed)),
            decreases self.segments.len() - i,
        {
            if elapsed < self.segments[i].until {
                return self.segments[i].band;
            }
            i += 1;
        }
        self.tail
    }

    /// The percentage the torch burns at after `elapsed`, before any flicker.
    pub fn baseline(&self, elapsed: u32) -> (percent: u8)
        ensures
            percent == band_at(self@, elapsed).baseline,
            percent <= FULL_DUTY,
    {
        self.band(elapsed).baseline
    }

    /// Adds the flicker draw `delta` to `baseline`. The sum stops at 0 and at
    /// 255 rather than wrapping round.
    pub fn apply_flicker(baseline: u8, delta: i8) -> (percent: u8)
        ensures
            percent == flickered(baseline, delta),
    {
        let sum: i16 = baseline as i16 + delta as i16;
        if sum < 0 {
            0
        } else if sum > 255 {
            255
        } else {
            sum as u8
        }
    }

    /// Holds `value` within the floor and the ceiling of the band in force at
    /// `elapsed`.
    pub fn clamp(&self, value: u8, elapsed: u32) -> (percent: u8)
        ensures
            percent == clamped(value, band_at(self@, elapsed)),
            band_at(self@, elapsed).floor <= percent <= band_at(self@, elapsed).ceiling,
            percent <= FULL_DUTY,
    {
        let band = self.band(elapsed);
        if value > band.ceiling {
            band.ceiling
        } else if value < band.floor {
            band.floor
        } else {
            value
        }
    }

    /// The duty cycle to show after `elapsed` when the flicker draw is
    /// `delta`: the baseline, shifted by `delta`, held within the band.
    pub fn flick_torch(&self, elapsed: u32, delta: i8) -> (percent: u8)
        ensures
            percent == duty_cycle(self@, elapsed, delta),
            band_at(self@, elapsed).floor <= percent <= band_at(self@, elapsed).ceiling,
            percent <= FULL_DUTY,
    {
        let shifted = Self::apply_flicker(self.baseline(elapsed), delta);
        self.clamp(shifted, elapsed)
    }
}

/// The band that `band_from` finds is the tail band or the band of a segment
/// at or after `from`.
pub proof fn lemma_band_is_listed(c: CurveView, from: int, elapsed: u32)
    requires
        0 <= from,
    ensures
        band_from(c, from, elapsed) == c.tail || exists|k: int|
            from <= k < c.segments.len() && band_from(c, from, elapsed)
                == #[trigger] c.segments[k].band,
        bands_ok(c) ==> band_ok(band_from(c, from, elapsed)),
    decreases c.segments.len() - from,
{
    if from < c.segments.len() && elapsed >= c.segments[from].until {
        lemma_band_is_listed(c, from + 1, elapsed);
    }
}

/// The one-hour table passes every check that `BrightnessCurve::new` makes.
pub proof fn lemma_one_hour_is_well_shaped()
    ensures
        well_shaped(one_hour_table()),
{
    let c = one_hour_table();
    assert(c.segments.len() == 3);
    assert(c.segments[0].until == 1800 && c.segments[1].until == 2700 && c.segments[2].until
        == 3000);
}

/// Within the table, the band in force is that of the segment whose stretch
/// holds `elapsed`: the one whose breakpoint `elapsed` has not reached while
/// it has reached the breakpoint before.
pub proof fn lemma_band_in_segment(c: CurveView, i: int, elapsed: u32)
    requires
        ordered(c.segments),
        0 <= i < c.segments.len(),
        elapsed < c.segments[i].until,
        i > 0 ==> c.segments[i - 1].until <= elapsed,
    ensures
        band_at(c, elapsed) == c.segments[i].band,
{
    assert forall|k: int| 0 <= k < i implies (#[trigger] c.segments[k]).until <= elapsed by {
        if k < i - 1 {
            assert(c.segments[k].until < c.segments[i - 1].until);
        }
    }
    lemma_skips_passed_segments(c, 0, i, elapsed);
}

/// From the last breakpoint on the tail band is in force.
pub proof fn lemma_band_past_table(c: CurveView, elapsed: u32)
    requires
        forall|k: int| 0 <= k < c.segments.len() ==> (#[trigger] c.segments[k]).until <= elapsed,
    ensures
        band_at(c, elapsed) == c.tail,
{
    lemma_skips_passed_segments(c, 0, c.segments.len() as int, elapsed);
}

proof fn lemma_skips_passed_segments(c: CurveView, from: int, to: int, elapsed: u32)
    requires
        0 <= from <= to <= c.segments.len(),
        forall|k: int| from <= k < to ==> (#[trigger] c.segments[k]).until <= elapsed,
    ensures
        band_from(c, from, elapsed) == band_from(c, to, elapsed),
    decreases to - from,
{
    if from < to {
        assert(c.segments[from].until <= elapsed);
        lemma_skips_passed_segments(c, from + 1, to, elapsed);
    }
}

/// The band changes exactly at a breakpoint: one unit of time before it
/// segment `i` still holds, and at the breakpoint itself the next band holds,
/// be it that of the next segment or the tail.
pub proof fn lemma_boundary_is_exact(c: CurveView, i: int)
    requires
        ordered(c.segments),
        0 <= i < c.segments.len(),
    ensures
        band_at(c, (c.segments[i].until - 1) as u32) == c.segments[i].band,
        band_at(c, c.segments[i].until) == (if i + 1 < c.segments.len() {
            c.segments[i + 1].band
        } else {
            c.tail
        }),
{
    let at = c.segments[i].until;
    assert(at > 0);
    let before = (at - 1) as u32;
    assert forall|k: int| 0 <= k < i implies (#[trigger] c.segments[k]).until <= before by {
        assert(c.segments[k].until < c.segments[i].until);
    }
    lemma_skips_passed_segments(c, 0, i, before);
    assert forall|k: int| 0 <= k < i + 1 implies (#[trigger] c.segments[k]).until <= at by {
        if k < i {
            assert(c.segments[k].until < c.segments[i].until);
        }
    }
    lemma_skips_passed_segments(c, 0, i + 1, at);
    if i + 1 < c.segments.len() {
        assert(c.segments[i].until < c.segments[i + 1].until);
    }
}

/// At time zero the first band of the table is in force, and with no flicker
/// the torch shows its baseline.
pub proof fn lemma_starts_at_first_baseline(c: CurveView)
    requires
        bands_ok(c),
        ordered(c.segments),
    ensures
        band_at(c, 0) == (if c.segments.len() > 0 {
            c.segments[0].band
        } else {
            c.tail
        }),
        duty_cycle(c, 0, 0) == band_at(c, 0).baseline,
{
    lemma_band_is_listed(c, 0, 0);
    if c.segments.len() > 0 {
        assert(c.segments[0].until > 0);
    }
}

/// Whatever the elapsed time and the flicker draw, the duty cycle stays
/// between the floor and the ceiling of the band in force, and is a
/// percentage.
pub proof fn lemma_duty_within_band(c: CurveView, elapsed: u32, delta: i8)
    requires
        bands_ok(c),
    ensures
        band_at(c, elapsed).floor <= duty_cycle(c, elapsed, delta) <= band_at(c, elapsed).ceiling,
        duty_cycle(c, elapsed, delta) <= FULL_DUTY,
{
    lemma_band_is_listed(c, 0, elapsed);
}

/// The profile steps down and never up: a later time has a baseline and a
/// ceiling no higher than an earlier one.
pub proof fn lemma_profile_never_rises(c: CurveView, earlier: u32, later: u32)
    requires
        descending(c),
        earlier <= later,
    ensures
        dimmer(band_at(c, earlier), band_at(c, later)),
{
    lemma_never_rises_from(c, 0, earlier, later);
}

proof fn lemma_never_rises_from(c: CurveView, from: int, earlier: u32, later: u32)
    requires
        descending(c),
        0 <= from,
        earlier <= later,
    ensures
        dimmer(band_from(c, from, earlier), band_from(c, from, later)),
    decreases c.segments.len() - from,
{
    if from < c.segments.len() {
        if later < c.segments[from].until {
        } else if earlier < c.segments[from].until {
            lemma_band_is_listed(c, from + 1, later);
            let found = band_from(c, from + 1, later);
            if found != c.tail {
                let k = choose|k: int|
                    from + 1 <= k < c.segments.len() && found == #[trigger] c.segments[k].band;
                assert(dimmer(c.segments[from].band, c.segments[k].band));
            } else {
                assert(dimmer(c.segments[from].band, c.tail));
            }
        } else {
            lemma_never_rises_from(c, from + 1, earlier, later);
        }
    }
}

} // verus!
