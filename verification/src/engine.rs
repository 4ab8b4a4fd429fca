//! The torch engine: what one tick does to the torch, and what it shows.

use crate::brightness::{
    band_at, bands_ok, duty_cycle, lemma_duty_within_band, one_hour_table, well_shaped,
    BrightnessCurve, CurveView, FULL_DUTY, MINUTE,
};
use crate::error::ConfigError;
use crate::extinguish::{
    decision_ok, due, evaluated, fresh, lemma_evaluation_keeps_sound, DecisionView,
    ExtinguishDecision,
};
use crate::pseudo_rand::{bounded, lemma_bounded_in_range, xorshift_step, XorShift8};
use crate::time_base::{
    elapsed_of, lemma_tick_keeps_sound, ticked, time_ok, TimeBase, TimeView,
};
use vstd::prelude::*;

verus! {

/// Lowest roll of an evaluation.
pub const ROLL_MIN: i8 = 1;

/// Highest roll of an evaluation.
pub const ROLL_MAX: i8 = 100;

/// Worth of one tick of the one-hour torch, in milliseconds.
pub const TICK_MILLIS: u32 = 100;

/// Milliseconds in a second.
pub const MILLIS_PER_SECOND: u32 = 1000;

/// Flicker amplitude of the one-hour torch, in percentage points.
pub const FLICKER_AMPLITUDE: i8 = 40;

/// Age from which the one-hour torch may go out, in seconds.
pub const T47: u32 = MINUTE * 47;

/// Percentage points that each evaluation of the one-hour torch adds.
pub const HAZARD_STEP: u8 = 1;

/// What a step shows.
#[derive(Clone, Copy, Debug, PartialEq, Eq, Structural)]
pub enum StepResult {
    /// The torch burns at this duty cycle, in percent.
    Shining(u8),
    /// The torch is out. No later step shows anything else.
    Extinguished,
}

/// The symmetric range that flicker draws are taken from.
#[derive(Debug)]
pub struct Flicker {
    amplitude: i8,
}

impl View for Flicker {
    type V = int;

    closed spec fn view(&self) -> int {
        self.amplitude as int
    }
}

impl Flicker {
    /// Holds of every flicker range there is.
    #[verifier::type_invariant]
    pub open spec fn is_sound(self) -> bool {
        0 <= self@ <= i8::MAX
    }

    /// Flicker within `[-amplitude, amplitude]`. A negative amplitude would
    /// turn the range upside down and is refused.
    pub fn new(amplitude: i8) -> (r: Result<Flicker, ConfigError>)
        ensures
            r is Ok <==> amplitude >= 0,
            r matches Err(e) ==> e == ConfigError::InvertedRange,
            r matches Ok(f) ==> f@ == amplitude,
    {
        if amplitude < 0 {
            Err(ConfigError::InvertedRange)
        } else {
            Ok(Flicker { amplitude })
        }
    }

    /// Takes one draw from `rng`, within the amplitude on either side of
    /// zero.
    pub fn draw(&self, rng: &mut XorShift8) -> (delta: i8)
        ensures
            final(rng)@ == xorshift_step(old(rng)@),
            delta == flicker_of(final(rng)@, self@),
            -self@ <= delta <= self@,
    {
        proof {
            use_type_invariant(self);
        }
        rng.random_between(-self.amplitude, self.amplitude)
    }
}

/// The flicker that the raw draw `r` stands for under `amplitude`.
pub open spec fn flicker_of(r: i8, amplitude: int) -> int {
    bounded(r, (-amplitude) as i8, amplitude as i8)
}

/// The mathematical content of a [`TorchEngine`].
pub struct EngineView {
    pub rng: i8,
    pub time: TimeView,
    pub curve: CurveView,
    pub amplitude: int,
    pub decision: DecisionView,
}

/// What holds of the content of every engine: each of its parts is sound.
pub open spec fn engine_ok(e: EngineView) -> bool {
    &&& time_ok(e.time)
    &&& well_shaped(e.curve)
    &&& 0 <= e.amplitude <= i8::MAX
    &&& decision_ok(e.decision)
}

/// Elapsed time as the step after `e` sees it.
pub open spec fn next_elapsed(e: EngineView) -> int {
    elapsed_of(ticked(e.time))
}

/// The duty cycle that the step after `e` computes: the first draw of the
/// step is the flicker.
pub open spec fn next_duty(e: EngineView) -> u8 {
    duty_cycle(
        e.curve,
        next_elapsed(e) as u32,
        flicker_of(xorshift_step(e.rng), e.amplitude) as i8,
    )
}

/// The engine one step after `e`. A torch that is out is left as it is.
/// Otherwise time moves on by a tick, the generator by one draw for the
/// flicker and, where an evaluation is due, by a second one for the roll.
pub open spec fn stepped(e: EngineView) -> EngineView {
    if e.decision.is_off {
        e
    } else {
        let flicker_draw = xorshift_step(e.rng);
        if due(e.decision, next_elapsed(e)) {
            let roll_draw = xorshift_step(flicker_draw);
            EngineView {
                rng: roll_draw,
                time: ticked(e.time),
                decision: evaluated(
                    e.decision,
                    next_elapsed(e),
                    bounded(roll_draw, ROLL_MIN, ROLL_MAX),
                ),
                ..e
            }
        } else {
            EngineView {
                rng: flicker_draw,
                time: ticked(e.time),
                decision: evaluated(e.decision, next_elapsed(e), 0),
                ..e
            }
        }
    }
}

/// What the step after `e` shows.
pub open spec fn shown(e: EngineView) -> StepResult {
    if stepped(e).decision.is_off {
        StepResult::Extinguished
    } else {
        StepResult::Shining(next_duty(e))
    }
}

/// The engine `n` steps after `e`.
pub open spec fn stepped_times(e: EngineView, n: nat) -> EngineView
    decreases n,
{
    if n == 0 {
        e
    } else {
        stepped(stepped_times(e, (n - 1) as nat))
    }
}

/// What the `n` steps after `e` show, in order.
pub open spec fn trace(e: EngineView, n: nat) -> Seq<StepResult> {
    Seq::new(n, |i: int| shown(stepped_times(e, i as nat)))
}

/// The state that `TorchEngine::one_hour` starts from.
pub open spec fn one_hour_start(seed: i8) -> EngineView {
    EngineView {
        rng: seed,
        time: TimeView {
            raw: 0,
            per_tick: TICK_MILLIS as int,
            per_unit: MILLIS_PER_SECOND as int,
        },
        curve: one_hour_table(),
        amplitude: FLICKER_AMPLITUDE as int,
        decision: fresh(T47 as int, MINUTE as int, HAZARD_STEP as int),
    }
}

/// A torch: generator, time base, brightness curve, flicker and extinguish
/// decision in one owned state.
#[derive(Debug)]
pub struct TorchEngine {
    rng: XorShift8,
    time: TimeBase,
    curve: BrightnessCurve,
    flicker: Flicker,
    decision: ExtinguishDecision,
}

impl View for TorchEngine {
    type V = EngineView;

    closed spec fn view(&self) -> EngineView {
        EngineView {
            rng: self.rng@,
            time: self.time@,
            curve: self.curve@,
            amplitude: self.flicker@,
            decision: self.decision@,
        }
    }
}

impl TorchEngine {
    /// A torch made of the given parts, with its generator started from
    /// `seed`.
    pub fn new(
        seed: i8,
        time: TimeBase,
        curve: BrightnessCurve,
        flicker: Flicker,
        decision: ExtinguishDecision,
    ) -> (engine: TorchEngine)
        ensures
            engine@ == (EngineView {
                rng: seed,
                time: time@,
                curve: curve@,
                amplitude: flicker@,
                decision: decision@,
            }),
            engine_ok(engine@),
    {
        proof {
            use_type_invariant(&time);
            use_type_invariant(&curve);
            use_type_invariant(&flicker);
            use_type_invariant(&decision);
        }
        TorchEngine { rng: XorShift8::new(seed), time, curve, flicker, decision }
    }

    /// Takes one tick. Time moves on, a flicker is drawn and the duty cycle
    /// computed, and the extinguish decision sees the new time. Returns the
    /// duty cycle, or `Extinguished` from the step that puts the torch out
    /// on; a torch that is out is not touched any more.
    pub fn step(&mut self) -> (r: StepResult)
        ensures
            final(self)@ == stepped(old(self)@),
            r == shown(old(self)@),
            r is Extinguished <==> final(self)@.decision.is_off,
            r matches StepResult::Shining(duty) ==> {
                let band = band_at(old(self)@.curve, next_elapsed(old(self)@) as u32);
                band.floor <= duty <= band.ceiling && duty <= FULL_DUTY
            },
            engine_ok(final(self)@),
    {
        proof {
            use_type_invariant(&self.time);
            use_type_invariant(&self.curve);
            use_type_invariant(&self.flicker);
            use_type_invariant(&self.decision);
            lemma_step_keeps_sound(self@);
        }
        if self.decision.is_off() {
            return StepResult::Extinguished;
        }
        self.time.on_tick();
        let elapsed = self.time.elapsed();
        let delta = self.flicker.draw(&mut self.rng);
        let duty = self.curve.flick_torch(elapsed, delta);
        let roll = if self.decision.is_due(elapsed) {
            self.rng.random_between(ROLL_MIN, ROLL_MAX)
        } else {
            0
        };
        if self.decision.evaluate(elapsed, roll) {
            StepResult::Extinguished
        } else {
            StepResult::Shining(duty)
        }
    }

    /// Takes `ticks` steps and returns what each of them showed, in order.
    pub fn run(&mut self, ticks: usize) -> (results: Vec<StepResult>)
        ensures
            final(self)@ == stepped_times(old(self)@, ticks as nat),
            results@ == trace(old(self)@, ticks as nat),
            engine_ok(final(self)@),
    {
        proof {
            use_type_invariant(&self.time);
            use_type_invariant(&self.curve);
            use_type_invariant(&self.flicker);
            use_type_invariant(&self.decision);
        }
        let mut results: Vec<StepResult> = Vec::new();
        let mut done: usize = 0;
        while done < ticks
            invariant
                done <= ticks,
                self@ == stepped_times(old(self)@, done as nat),
                results@ == trace(old(self)@, done as nat),
                engine_ok(self@),
            decreases ticks - done,
        {
            let shown = self.step();
            results.push(shown);
            done += 1;
            assert(results@ =~= trace(old(self)@, done as nat));
        }
        results
    }

    /// The one-hour torch: ticks of 100 ms read as seconds, the one-hour
    /// brightness table, flicker of up to 40 points either way, and from
    /// minute 47 on one evaluation a minute, each a point likelier than the
    /// last to put the torch out.
    pub fn one_hour(seed: i8) -> (engine: TorchEngine)
        ensures
            engine@ == one_hour_start(seed),
            engine_ok(engine@),
    {
        let time = TimeBase::new(TICK_MILLIS, MILLIS_PER_SECOND).unwrap();
        let flicker = Flicker::new(FLICKER_AMPLITUDE).unwrap();
        let decision = ExtinguishDecision::new(T47, MINUTE, HAZARD_STEP).unwrap();
        TorchEngine::new(seed, time, BrightnessCurve::one_hour(), flicker, decision)
    }

    /// Whether the torch is out.
    pub fn is_extinguished(&self) -> (off: bool)
        ensures
            off == self@.decision.is_off,
    {
        self.decision.is_off()
    }

    /// Elapsed time, in units of the time base.
    pub fn elapsed(&self) -> (units: u32)
        ensures
            units == elapsed_of(self@.time),
    {
        self.time.elapsed()
    }
}

/// A step leaves an engine sound.
pub proof fn lemma_step_keeps_sound(e: EngineView)
    requires
        engine_ok(e),
    ensures
        engine_ok(stepped(e)),
{
    if !e.decision.is_off {
        lemma_tick_keeps_sound(e.time);
        lemma_tick_keeps_sound(ticked(e.time));
        let roll_draw = xorshift_step(xorshift_step(e.rng));
        lemma_bounded_in_range(roll_draw, ROLL_MIN, ROLL_MAX);
        lemma_evaluation_keeps_sound(
            e.decision,
            next_elapsed(e),
            bounded(roll_draw, ROLL_MIN, ROLL_MAX),
        );
        lemma_evaluation_keeps_sound(e.decision, next_elapsed(e), 0);
    }
}

/// So does any number of steps.
pub proof fn lemma_steps_keep_sound(e: EngineView, n: nat)
    requires
        engine_ok(e),
    ensures
        engine_ok(stepped_times(e, n)),
    decreases n,
{
    if n > 0 {
        lemma_steps_keep_sound(e, (n - 1) as nat);
        lemma_step_keeps_sound(stepped_times(e, (n - 1) as nat));
    }
}

/// A run is settled by where it starts: two engines that agree on the state
/// of the generator, the time base, the curve, the amplitude and the decision
/// show the same results step for step and end in the same state.
pub proof fn lemma_run_is_reproducible(a: EngineView, b: EngineView, n: nat)
    requires
        a.rng == b.rng,
        a.time == b.time,
        a.curve == b.curve,
        a.amplitude == b.amplitude,
        a.decision == b.decision,
    ensures
        trace(a, n) == trace(b, n),
        stepped_times(a, n) == stepped_times(b, n),
{
}

/// Started again from the same seed, the one-hour torch shows the same
/// results over again.
pub proof fn lemma_same_seed_same_run(first: i8, second: i8, n: nat)
    requires
        first == second,
    ensures
        trace(one_hour_start(first), n) == trace(one_hour_start(second), n),
{
}

/// A run can be taken in two parts: `n` steps and then `m` more show what
/// `n + m` steps show, and end where they end.
pub proof fn lemma_run_in_two_parts(e: EngineView, n: nat, m: nat)
    ensures
        stepped_times(e, n + m) == stepped_times(stepped_times(e, n), m),
        trace(e, n + m) == trace(e, n) + trace(stepped_times(e, n), m),
{
    lemma_steps_add_up(e, n, m);
    assert forall|i: int| 0 <= i < n + m implies #[trigger] trace(e, n + m)[i] == (trace(e, n)
        + trace(stepped_times(e, n), m))[i] by {
        if i >= n {
            lemma_steps_add_up(e, n, (i - n) as nat);
        }
    }
    assert(trace(e, n + m) =~= trace(e, n) + trace(stepped_times(e, n), m));
}

proof fn lemma_steps_add_up(e: EngineView, n: nat, m: nat)
    ensures
        stepped_times(e, n + m) == stepped_times(stepped_times(e, n), m),
    decreases m,
{
    if m > 0 {
        lemma_steps_add_up(e, n, (m - 1) as nat);
        assert((n + m - 1) as nat == n + (m - 1) as nat);
    }
}

/// Once out, out for good: from a torch that is out, no number of steps
/// changes anything, and every one of them shows `Extinguished`.
pub proof fn lemma_out_is_final(e: EngineView, n: nat)
    requires
        e.decision.is_off,
    ensures
        stepped_times(e, n) == e,
        forall|i: int| 0 <= i < n ==> #[trigger] trace(e, n)[i] == StepResult::Extinguished,
    decreases n,
{
    if n > 0 {
        lemma_out_is_final(e, (n - 1) as nat);
        assert forall|i: int| 0 <= i < n implies #[trigger] trace(e, n)[i]
            == StepResult::Extinguished by {
            lemma_out_is_final(e, i as nat);
        }
    }
}

/// In a run, nothing but `Extinguished` follows an `Extinguished`.
pub proof fn lemma_nothing_after_extinguished(e: EngineView, n: nat, i: int, j: int)
    requires
        0 <= i <= j < n,
        trace(e, n)[i] == StepResult::Extinguished,
    ensures
        trace(e, n)[j] == StepResult::Extinguished,
{
    let out = stepped_times(e, (i + 1) as nat);
    assert(out == stepped(stepped_times(e, i as nat)));
    lemma_steps_add_up(e, (i + 1) as nat, (j - i) as nat);
    lemma_out_is_final(out, (j - i) as nat);
    assert(stepped_times(e, (j + 1) as nat) == out);
    assert(stepped_times(e, (j + 1) as nat) == stepped(stepped_times(e, j as nat)));
}

/// Every duty cycle that a step shows lies between the floor and the ceiling
/// of the band in force at the time of the step, and is a percentage.
pub proof fn lemma_shown_duty_within_band(e: EngineView)
    requires
        bands_ok(e.curve),
    ensures
        shown(e) matches StepResult::Shining(duty) ==> {
            let band = band_at(e.curve, next_elapsed(e) as u32);
            band.floor <= duty <= band.ceiling && duty <= FULL_DUTY
        },
{
    lemma_duty_within_band(
        e.curve,
        next_elapsed(e) as u32,
        flicker_of(xorshift_step(e.rng), e.amplitude) as i8,
    );
}

/// The same for every step of a run from a sound engine.
pub proof fn lemma_run_shows_percentages(e: EngineView, n: nat, i: int)
    requires
        engine_ok(e),
        0 <= i < n,
    ensures
        trace(e, n)[i] matches StepResult::Shining(duty) ==> {
            let at = stepped_times(e, i as nat);
            let band = band_at(e.curve, next_elapsed(at) as u32);
            band.floor <= duty <= band.ceiling && duty <= FULL_DUTY
        },
{
    lemma_steps_keep_sound(e, i as nat);
    lemma_steps_keep_parts(e, i as nat);
    lemma_shown_duty_within_band(stepped_times(e, i as nat));
}

/// Steps change neither the curve nor the amplitude, nor what the time base
/// and the decision were set up with.
pub proof fn lemma_steps_keep_parts(e: EngineView, n: nat)
    ensures
        stepped_times(e, n).curve == e.curve,
        stepped_times(e, n).amplitude == e.amplitude,
        stepped_times(e, n).time.per_tick == e.time.per_tick,
        stepped_times(e, n).time.per_unit == e.time.per_unit,
        stepped_times(e, n).decision.threshold == e.decision.threshold,
        stepped_times(e, n).decision.boundary == e.decision.boundary,
        stepped_times(e, n).decision.step == e.decision.step,
    decreases n,
{
    if n > 0 {
        lemma_steps_keep_parts(e, (n - 1) as nat);
    }
}

/// A step puts the torch out only where an evaluation is due: at an elapsed
/// time at or past the threshold, in a boundary period other than the one
/// seen last.
pub proof fn lemma_step_puts_out_only_when_due(e: EngineView)
    requires
        !e.decision.is_off,
        stepped(e).decision.is_off,
    ensures
        due(e.decision, next_elapsed(e)),
        next_elapsed(e) >= e.decision.threshold,
{
}

} // verus!
