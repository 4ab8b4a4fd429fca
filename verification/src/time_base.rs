//! The time base: a raw counter that every tick advances by a fixed amount,
//! read as elapsed time in whole units.

use crate::error::ConfigError;
use vstd::arithmetic::div_mod::{
    lemma_add_mod_noop, lemma_basic_div, lemma_div_basics_4, lemma_div_basics_5,
    lemma_div_is_ordered, lemma_mod_twice, lemma_small_mod,
};
use vstd::prelude::*;

verus! {

/// Number of values the raw counter can take before it starts over.
pub open spec fn counter_range() -> int {
    0x1_0000_0000
}

/// The mathematical content of a [`TimeBase`].
pub struct TimeView {
    /// What the ticks so far have added up to, modulo `counter_range()`.
    pub raw: int,
    /// What one tick adds to the raw counter.
    pub per_tick: int,
    /// How much of the raw counter makes one unit of elapsed time.
    pub per_unit: int,
}

/// What holds of the content of every time base: the three numbers fit the
/// counter, and a tick and a unit are each worth something.
pub open spec fn time_ok(t: TimeView) -> bool {
    &&& 0 <= t.raw < counter_range()
    &&& 0 < t.per_tick < counter_range()
    &&& 0 < t.per_unit < counter_range()
}

/// The time base after one more tick. The counter is not held at its end: it
/// starts over, and elapsed time with it.
pub open spec fn ticked(t: TimeView) -> TimeView {
    TimeView { raw: (t.raw + t.per_tick) % counter_range(), ..t }
}

/// The time base after `n` more ticks.
pub open spec fn ticked_times(t: TimeView, n: nat) -> TimeView
    decreases n,
{
    if n == 0 {
        t
    } else {
        ticked(ticked_times(t, (n - 1) as nat))
    }
}

/// Elapsed time in whole units.
pub open spec fn elapsed_of(t: TimeView) -> int {
    t.raw / t.per_unit
}

/// A tick counter with its conversion to elapsed time.
#[derive(Debug)]
pub struct TimeBase {
    raw: u32,
    per_tick: u32,
    per_unit: u32,
}

impl View for TimeBase {
    type V = TimeView;

    closed spec fn view(&self) -> TimeView {
        TimeView {
            raw: self.raw as int,
            per_tick: self.per_tick as int,
            per_unit: self.per_unit as int,
        }
    }
}

impl TimeBase {
    /// Holds of every time base there is.
    #[verifier::type_invariant]
    pub open spec fn is_sound(self) -> bool {
        time_ok(self@)
    }

    /// A time base at zero, in which a tick is worth `per_tick` and a unit of
    /// elapsed time `per_unit` of the raw counter. A tick or a unit worth
    /// nothing is refused: time would stand still, or have no measure.
    pub fn new(per_tick: u32, per_unit: u32) -> (r: Result<TimeBase, ConfigError>)
        ensures
            r is Ok <==> per_tick != 0 && per_unit != 0,
            r matches Err(e) ==> e == ConfigError::ZeroTimeUnit,
            r matches Ok(t) ==> t@ == (TimeView {
                raw: 0,
                per_tick: per_tick as int,
                per_unit: per_unit as int,
            }),
    {
        if per_tick == 0 || per_unit == 0 {
            Err(ConfigError::ZeroTimeUnit)
        } else {
            Ok(TimeBase { raw: 0, per_tick, per_unit })
        }
    }

    /// Takes one tick.
    pub fn on_tick(&mut self)
        ensures
            final(self)@ == ticked(old(self)@),
    {
        proof {
            use_type_invariant(&*self);
            if self.raw + self.per_tick < counter_range() {
                lemma_small_mod((self.raw + self.per_tick) as nat, counter_range() as nat);
            } else {
                lemma_wrapped_once(self.raw as int + self.per_tick as int);
            }
        }
        let raw: u32 = self.raw.wrapping_add(self.per_tick);
        *self = TimeBase { raw, per_tick: self.per_tick, per_unit: self.per_unit };
    }

    /// Elapsed time in whole units. Reading it changes nothing.
    pub fn elapsed(&self) -> (units: u32)
        ensures
            units == elapsed_of(self@),
    {
        proof {
            use_type_invariant(self);
        }
        self.raw / self.per_unit
    }
}

proof fn lemma_wrapped_once(sum: int)
    requires
        counter_range() <= sum < 2 * counter_range(),
    ensures
        sum % counter_range() == sum - counter_range(),
{
}

/// A tick leaves a time base sound, and the time it shows fits the counter.
pub proof fn lemma_tick_keeps_sound(t: TimeView)
    requires
        time_ok(t),
    ensures
        time_ok(ticked(t)),
        0 <= elapsed_of(t) < counter_range(),
{
    lemma_div_basics_4(t.raw, t.per_unit);
    lemma_div_basics_5(t.raw, t.per_unit);
    if t.raw + t.per_tick < counter_range() {
        lemma_small_mod((t.raw + t.per_tick) as nat, counter_range() as nat);
    } else {
        lemma_wrapped_once(t.raw + t.per_tick);
    }
}

/// Short of the end of the counter, a tick adds exactly its worth, so that
/// the counter strictly grows: nothing is skipped and nothing counted twice.
/// Elapsed time does not fall.
pub proof fn lemma_tick_adds_exactly(t: TimeView)
    requires
        time_ok(t),
        t.raw + t.per_tick < counter_range(),
    ensures
        ticked(t).raw == t.raw + t.per_tick,
        ticked(t).raw > t.raw,
        elapsed_of(ticked(t)) >= elapsed_of(t),
{
    lemma_small_mod((t.raw + t.per_tick) as nat, counter_range() as nat);
    lemma_div_is_ordered(t.raw, t.raw + t.per_tick, t.per_unit);
}

/// After `n` ticks from zero the raw counter holds `n` times the worth of a
/// tick, modulo the range of the counter.
pub proof fn lemma_ticks_add_up(t: TimeView, n: nat)
    requires
        t.raw == 0,
        0 <= t.per_tick,
    ensures
        ticked_times(t, n).raw == (n * t.per_tick) % counter_range(),
        ticked_times(t, n).per_tick == t.per_tick,
        ticked_times(t, n).per_unit == t.per_unit,
    decreases n,
{
    if n == 0 {
        assert(0 * t.per_tick == 0) by (nonlinear_arith);
    } else {
        lemma_ticks_add_up(t, (n - 1) as nat);
        let m = (n - 1) * t.per_tick;
        assert(n * t.per_tick == m + t.per_tick) by (nonlinear_arith)
            requires
                m == (n - 1) * t.per_tick,
        ;
        lemma_add_mod_noop(m, t.per_tick, counter_range());
        lemma_add_mod_noop(m % counter_range(), t.per_tick, counter_range());
        lemma_mod_twice(m, counter_range());
    }
}

/// At the end of the counter a tick starts it over: what is left is less than
/// the worth of a tick, and where that is less than a unit, elapsed time is
/// back at zero.
pub proof fn lemma_wrap_starts_over(t: TimeView)
    requires
        time_ok(t),
        t.raw + t.per_tick >= counter_range(),
    ensures
        ticked(t).raw == t.raw + t.per_tick - counter_range(),
        ticked(t).raw < t.per_tick,
        ticked(t).raw < t.per_unit ==> elapsed_of(ticked(t)) == 0,
{
    lemma_wrapped_once(t.raw + t.per_tick);
    if ticked(t).raw < t.per_unit {
        lemma_basic_div(ticked(t).raw, t.per_unit);
    }
}

} // verus!
