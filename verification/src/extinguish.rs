//! The extinguish decision: once the torch is old enough, each new time
//! boundary brings one evaluation, each evaluation is likelier than the last
//! to put the torch out, and a torch that is out stays out.

use crate::error::ConfigError;
use vstd::arithmetic::div_mod::{lemma_div_basics_4, lemma_div_basics_5};
use vstd::prelude::*;
use vstd::set_lib::{lemma_int_range, set_int_range};

verus! {

/// Where the decision stands.
#[derive(Clone, Copy, Debug, PartialEq, Eq, Structural)]
pub enum Phase {
    /// The threshold has not been seen yet.
    Lit,
    /// The threshold has been seen; evaluations take place.
    Evaluating,
    /// The torch is out. Nothing leads out of this phase.
    Off,
}

/// The mathematical content of an [`ExtinguishDecision`].
pub struct DecisionView {
    /// Elapsed time from which evaluations take place.
    pub threshold: int,
    /// Length of a boundary period, in units of elapsed time.
    pub boundary: int,
    /// What each evaluation adds to the accumulated percentage.
    pub step: int,
    /// Whether an elapsed time at or past the threshold has been seen.
    pub threshold_crossed: bool,
    /// Index of the boundary period of the last elapsed time seen.
    pub last_boundary_checked: int,
    /// The percentage that a roll has to stay at or above for the torch to
    /// keep burning.
    pub accumulated_percent: int,
    /// The latch: set by an evaluation, never cleared.
    pub is_off: bool,
}

/// What holds of the content of every decision: its numbers fit their
/// machine types, a boundary period has a length, and while the torch burns
/// the accumulated percentage has not passed the highest roll there is, for
/// every roll so far has stayed at or above it.
pub open spec fn decision_ok(d: DecisionView) -> bool {
    &&& 0 <= d.threshold <= u32::MAX
    &&& 0 < d.boundary <= u32::MAX
    &&& 0 <= d.step <= u8::MAX
    &&& 0 <= d.last_boundary_checked <= u32::MAX
    &&& 0 <= d.accumulated_percent <= i8::MAX + u8::MAX
    &&& !d.is_off ==> d.accumulated_percent <= i8::MAX
}

/// A decision that has seen nothing yet.
pub open spec fn fresh(threshold: int, boundary: int, step: int) -> DecisionView {
    DecisionView {
        threshold,
        boundary,
        step,
        threshold_crossed: false,
        last_boundary_checked: 0,
        accumulated_percent: 0,
        is_off: false,
    }
}

/// Index of the boundary period that `elapsed` falls in.
pub open spec fn boundary_index(d: DecisionView, elapsed: int) -> int {
    elapsed / d.boundary
}

/// Whether seeing `elapsed` brings an evaluation: the torch burns, the
/// threshold is reached, and the boundary period is not the one seen last.
pub open spec fn due(d: DecisionView, elapsed: int) -> bool {
    !d.is_off && elapsed >= d.threshold && boundary_index(d, elapsed) != d.last_boundary_checked
}

/// The decision after it has seen `elapsed`, with `roll` as the draw for the
/// evaluation, should one be due. A decision that is off is left as it is.
pub open spec fn evaluated(d: DecisionView, elapsed: int, roll: int) -> DecisionView {
    if d.is_off {
        d
    } else if due(d, elapsed) {
        DecisionView {
            threshold_crossed: true,
            last_boundary_checked: boundary_index(d, elapsed),
            accumulated_percent: d.accumulated_percent + d.step,
            is_off: roll < d.accumulated_percent + d.step,
            ..d
        }
    } else {
        DecisionView {
            threshold_crossed: d.threshold_crossed || elapsed >= d.threshold,
            last_boundary_checked: boundary_index(d, elapsed),
            ..d
        }
    }
}

pub open spec fn phase_of(d: DecisionView) -> Phase {
    if d.is_off {
        Phase::Off
    } else if d.threshold_crossed {
        Phase::Evaluating
    } else {
        Phase::Lit
    }
}

/// The decision after it has seen, in turn, each elapsed time of `seen` with
/// the roll that stands beside it.
pub open spec fn evaluated_all(d: DecisionView, seen: Seq<(int, int)>) -> DecisionView
    decreases seen.len(),
{
    if seen.len() == 0 {
        d
    } else {
        evaluated(evaluated_all(d, seen.drop_last()), seen.last().0, seen.last().1)
    }
}

/// The state of the extinguish decision.
#[derive(Debug)]
pub struct ExtinguishDecision {
    threshold: u32,
    boundary: u32,
    step: u8,
    threshold_crossed: bool,
    last_boundary_checked: u32,
    accumulated_percent: u16,
    is_off: bool,
}

impl View for ExtinguishDecision {
    type V = DecisionView;

    closed spec fn view(&self) -> DecisionView {
        DecisionView {
            threshold: self.threshold as int,
            boundary: self.boundary as int,
            step: self.step as int,
            threshold_crossed: self.threshold_crossed,
            last_boundary_checked: self.last_boundary_checked as int,
            accumulated_percent: self.accumulated_percent as int,
            is_off: self.is_off,
        }
    }
}

impl ExtinguishDecision {
    /// Holds of every decision there is.
    #[verifier::type_invariant]
    pub open spec fn is_sound(self) -> bool {
        decision_ok(self@)
    }

    /// A decision that evaluates from `threshold` on, once per boundary
    /// period of length `boundary`, adding `step` percentage points each
    /// time. A boundary period of no length is refused.
    pub fn new(threshold: u32, boundary: u32, step: u8) -> (r: Result<
        ExtinguishDecision,
        ConfigError,
    >)
        ensures
            r is Ok <==> boundary != 0,
            r matches Err(e) ==> e == ConfigError::ZeroBoundary,
            r matches Ok(d) ==> d@ == fresh(threshold as int, boundary as int, step as int),
    {
        if boundary == 0 {
            Err(ConfigError::ZeroBoundary)
        } else {
            Ok(
                ExtinguishDecision {
                    threshold,
                    boundary,
                    step,
                    threshold_crossed: false,
                    last_boundary_checked: 0,
                    accumulated_percent: 0,
                    is_off: false,
                },
            )
        }
    }

    /// Whether seeing `elapsed` next would bring an evaluation, and so needs
    /// a roll.
    pub fn is_due(&self, elapsed: u32) -> (r: bool)
        ensures
            r == due(self@, elapsed as int),
    {
        proof {
            use_type_invariant(self);
        }
        !self.is_off && elapsed >= self.threshold && elapsed / self.boundary
            != self.last_boundary_checked
    }

    /// Lets the decision see `elapsed`. Where an evaluation is due, the
    /// accumulated percentage grows by the step and the torch goes out if
    /// `roll` lies below it; where none is due, `roll` is not looked at.
    /// Returns whether the torch is out.
    pub fn evaluate(&mut self, elapsed: u32, roll: i8) -> (off: bool)
        ensures
            final(self)@ == evaluated(old(self)@, elapsed as int, roll as int),
            off == final(self)@.is_off,
    {
        proof {
            use_type_invariant(&*self);
        }
        if self.is_off {
            return true;
        }
        let index: u32 = elapsed / self.boundary;
        if elapsed >= self.threshold && index != self.last_boundary_checked {
            let percent: u16 = self.accumulated_percent + self.step as u16;
            let off: bool = (roll as i16) < (percent as i16);
            *self = ExtinguishDecision {
                threshold: self.threshold,
                boundary: self.boundary,
                step: self.step,
                threshold_crossed: true,
                last_boundary_checked: index,
                accumulated_percent: percent,
                is_off: off,
            };
        } else {
            let crossed: bool = self.threshold_crossed || elapsed >= self.threshold;
            *self = ExtinguishDecision {
                threshold: self.threshold,
                boundary: self.boundary,
                step: self.step,
                threshold_crossed: crossed,
                last_boundary_checked: index,
                accumulated_percent: self.accumulated_percent,
                is_off: false,
            };
        }
        self.is_off
    }

    /// Whether the torch is out.
    pub fn is_off(&self) -> (off: bool)
        ensures
            off == self@.is_off,
    {
        self.is_off
    }

    /// Where the decision stands.
    pub fn phase(&self) -> (p: Phase)
        ensures
            p == phase_of(self@),
    {
        if self.is_off {
            Phase::Off
        } else if self.threshold_crossed {
            Phase::Evaluating
        } else {
            Phase::Lit
        }
    }

    /// The percentage that the next evaluation will add its step to.
    pub fn accumulated_percent(&self) -> (percent: u16)
        ensures
            percent == self@.accumulated_percent,
    {
        self.accumulated_percent
    }
}

/// Seeing an elapsed time and a roll leaves a decision sound.
pub proof fn lemma_evaluation_keeps_sound(d: DecisionView, elapsed: int, roll: int)
    requires
        decision_ok(d),
        0 <= elapsed <= u32::MAX,
        roll <= i8::MAX,
    ensures
        decision_ok(evaluated(d, elapsed, roll)),
{
    lemma_div_basics_4(elapsed, d.boundary);
    lemma_div_basics_5(elapsed, d.boundary);
}

/// Once off, always off: a decision that is off is left exactly as it is by
/// whatever it sees next.
pub proof fn lemma_off_is_final(d: DecisionView, elapsed: int, roll: int)
    requires
        d.is_off,
    ensures
        evaluated(d, elapsed, roll) == d,
{
}

/// The same over any run of elapsed times and rolls: if the decision is off
/// after the first `k` of them, it is off after all of them, in the very
/// state it went out in.
pub proof fn lemma_off_stays_off(d: DecisionView, seen: Seq<(int, int)>, k: int)
    requires
        0 <= k <= seen.len(),
        evaluated_all(d, seen.take(k)).is_off,
    ensures
        evaluated_all(d, seen) == evaluated_all(d, seen.take(k)),
    decreases seen.len(),
{
    if k == seen.len() {
        assert(seen.take(k) =~= seen);
    } else {
        assert(seen.drop_last().take(k) =~= seen.take(k));
        lemma_off_stays_off(d, seen.drop_last(), k);
    }
}

/// The torch can go out only where an evaluation is due: at an elapsed time
/// at or past the threshold, in a boundary period other than the one seen
/// last, and on a roll below the percentage accumulated by then.
pub proof fn lemma_goes_out_only_when_due(d: DecisionView, elapsed: int, roll: int)
    requires
        !d.is_off,
        evaluated(d, elapsed, roll).is_off,
    ensures
        elapsed >= d.threshold,
        boundary_index(d, elapsed) != d.last_boundary_checked,
        roll < d.accumulated_percent + d.step,
{
}

/// Below the threshold nothing happens to the hazard: however long the run,
/// the torch burns on, the percentage stands, and the threshold counts as not
/// crossed.
pub proof fn lemma_burns_on_below_threshold(d: DecisionView, seen: Seq<(int, int)>)
    requires
        !d.is_off,
        forall|i: int| 0 <= i < seen.len() ==> (#[trigger] seen[i]).0 < d.threshold,
    ensures
        !evaluated_all(d, seen).is_off,
        evaluated_all(d, seen).accumulated_percent == d.accumulated_percent,
        evaluated_all(d, seen).threshold_crossed == d.threshold_crossed,
        evaluated_all(d, seen).threshold == d.threshold,
    decreases seen.len(),
{
    if seen.len() > 0 {
        assert forall|i: int| 0 <= i < seen.drop_last().len() implies (#[trigger] seen.drop_last()[i]).0
            < d.threshold by {
            assert(seen.drop_last()[i] == seen[i]);
        }
        lemma_burns_on_below_threshold(d, seen.drop_last());
        assert(seen.last() == seen[seen.len() - 1]);
    }
}

/// The rolls from 1 to 100 that put the torch out at an accumulated
/// percentage of `percent`.
pub open spec fn fatal_rolls(percent: int) -> Set<int> {
    Set::new(|roll: int| 1 <= roll <= 100 && roll < percent)
}

/// At a percentage of `percent`, up to 101, exactly `percent - 1` of the
/// hundred rolls put the torch out: with every boundary survived, one roll
/// more per step is fatal, until all of them are.
pub proof fn lemma_hazard_is_linear(percent: int)
    requires
        1 <= percent <= 101,
    ensures
        fatal_rolls(percent).finite(),
        fatal_rolls(percent).len() == percent - 1,
{
    lemma_int_range(1, percent);
    assert(fatal_rolls(percent) =~= set_int_range(1, percent));
}

/// Each evaluation that the torch survives adds exactly the step to the
/// accumulated percentage, so the hazard grows in a straight line.
pub proof fn lemma_hazard_grows_by_step(d: DecisionView, elapsed: int, roll: int)
    requires
        due(d, elapsed),
    ensures
        evaluated(d, elapsed, roll).accumulated_percent == d.accumulated_percent + d.step,
        evaluated(d, elapsed, roll).is_off <==> roll < d.accumulated_percent + d.step,
        !due(evaluated(d, elapsed, roll), elapsed),
{
}

} // verus!
