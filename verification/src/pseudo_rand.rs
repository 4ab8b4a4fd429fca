//! The pseudo-random source: an 8-bit xorshift generator and the bounded
//! draws taken from it.

use vstd::prelude::*;

verus! {

/// One step of the generator: the state is mixed with itself shifted left by
/// three, then right by five, then left by one. The shifts are those of a
/// signed byte, so the right shift carries the sign bit along.
pub open spec fn xorshift_step(s: i8) -> i8 {
    let a = s ^ (s << 3);
    let b = a ^ (a >> 5);
    b ^ (b << 1)
}

/// The state after `n` steps from `s`.
pub open spec fn xorshift_steps(s: i8, n: nat) -> i8
    decreases n,
{
    if n == 0 {
        s
    } else {
        xorshift_step(xorshift_steps(s, (n - 1) as nat))
    }
}

/// A state from which the generator keeps cycling. The two other states, 0
/// and -57, lead to 0 and stay there.
pub open spec fn cycling(s: i8) -> bool {
    s != 0 && s != -57
}

/// The absolute value of a raw draw.
pub open spec fn magnitude(r: i8) -> int {
    if r < 0 {
        -r
    } else {
        r as int
    }
}

/// The raw draw `r` mapped into `[min, max]`: its magnitude, reduced modulo
/// the width of the range, counted up from `min`. Unless the width divides
/// the number of magnitudes, some values come up more often than others.
pub open spec fn bounded(r: i8, min: i8, max: i8) -> int {
    min + magnitude(r) % (max - min + 1)
}

/// An 8-bit xorshift generator. Every draw replaces the state, so a generator
/// serves one consumer.
#[derive(Debug)]
pub struct XorShift8 {
    state: i8,
}

impl View for XorShift8 {
    type V = i8;

    closed spec fn view(&self) -> i8 {
        self.state
    }
}

impl XorShift8 {
    /// A generator that starts from `seed`. Any seed is taken; one that is
    /// not `cycling` yields nothing but zeros.
    pub fn new(seed: i8) -> (rng: Self)
        ensures
            rng@ == seed,
    {
        Self { state: seed }
    }

    /// Whether the generator is in a state from which it keeps cycling,
    /// rather than one that leads to zero and stays there.
    pub fn is_cycling(&self) -> (r: bool)
        ensures
            r == cycling(self@),
    {
        self.state != 0 && self.state != -57
    }

    /// Advances the generator by one step and returns the new state.
    pub fn rand8(&mut self) -> (r: i8)
        ensures
            final(self)@ == xorshift_step(old(self)@),
            r == final(self)@,
    {
        let a: i8 = self.state ^ (self.state << 3);
        let b: i8 = a ^ (a >> 5);
        self.state = b ^ (b << 1);
        self.state
    }

    /// Advances the generator by one step and maps the draw into the
    /// inclusive range `[min, max]`. A range with `max` below `min` is a
    /// fault of the configuration, which is to be caught where the
    /// configuration is made, before anything draws.
    pub fn random_between(&mut self, min: i8, max: i8) -> (value: i8)
        requires
            min <= max,
        ensures
            final(self)@ == xorshift_step(old(self)@),
            value == bounded(final(self)@, min, max),
            min <= value <= max,
    {
        let r = self.rand8();
        proof {
            lemma_step_is_never_extreme(old(self)@);
            lemma_bounded_in_range(r, min, max);
        }
        let size: i16 = if r < 0 {
            -(r as i16)
        } else {
            r as i16
        };
        let width: i16 = max as i16 - min as i16 + 1;
        let offset: i16 = size % width;
        (min as i16 + offset) as i8
    }
}

/// No step yields -128 or -57: the magnitude of a draw is at most 127, and
/// -57 can only ever be a seed.
pub proof fn lemma_step_is_never_extreme(s: i8)
    ensures
        xorshift_step(s) != i8::MIN,
        xorshift_step(s) != -57,
        magnitude(xorshift_step(s)) <= i8::MAX,
{
    assert(xorshift_step(s) != -128 && xorshift_step(s) != -57) by (bit_vector);
}

/// From a cycling state the generator never reaches zero, nor any other
/// state that would lead there.
pub proof fn lemma_cycling_is_kept(s: i8)
    requires
        cycling(s),
    ensures
        cycling(xorshift_step(s)),
{
    assert(s != 0 && s != -57 ==> xorshift_step(s) != 0 && xorshift_step(s) != -57)
        by (bit_vector);
}

/// The same, for any number of steps.
pub proof fn lemma_cycling_is_kept_for_good(s: i8, n: nat)
    requires
        cycling(s),
    ensures
        cycling(xorshift_steps(s, n)),
    decreases n,
{
    if n > 0 {
        lemma_cycling_is_kept_for_good(s, (n - 1) as nat);
        lemma_cycling_is_kept(xorshift_steps(s, (n - 1) as nat));
    }
}

/// A state that is not cycling is at zero after one step, and zero is a
/// fixed point.
pub proof fn lemma_stuck_at_zero(s: i8)
    requires
        !cycling(s),
    ensures
        xorshift_step(s) == 0,
{
    assert(xorshift_step(0i8) == 0) by (bit_vector);
    assert(xorshift_step((-57i8)) == 0) by (bit_vector);
}

/// Zero is the only fixed point.
pub proof fn lemma_only_zero_stands_still(s: i8)
    requires
        xorshift_step(s) == s,
    ensures
        s == 0,
{
    assert(xorshift_step(s) == s ==> s == 0) by (bit_vector);
}

/// A bounded draw lies in its range, whatever the raw draw was.
pub proof fn lemma_bounded_in_range(r: i8, min: i8, max: i8)
    requires
        min <= max,
    ensures
        min <= bounded(r, min, max) <= max,
{
}

/// However many draws have gone before, the next bounded draw lies in its
/// range.
pub proof fn lemma_every_draw_in_range(seed: i8, n: nat, min: i8, max: i8)
    requires
        min <= max,
    ensures
        min <= bounded(xorshift_steps(seed, n), min, max) <= max,
{
    lemma_bounded_in_range(xorshift_steps(seed, n), min, max);
}

} // verus!
