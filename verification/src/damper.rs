#![verifier::loop_isolation(false)]

//! Anti-click damping: a rate limiter on amplitude changes.

use vstd::prelude::*;
use crate::frame::UNIT;

verus! {

/// Limits how far an amplitude may move per sample, so that abrupt volume
/// changes (mute, drag, overload protection) never produce audible clicks.
pub struct LinearDamper {
    /// Largest permitted change per step, in fixed-point millionths.
    pub max_dif: i64,
    /// The value reached by the last step.
    pub current: i64,
}

/// Where one damping step lands: `input` if it lies within `max_dif` of
/// `current`, else the bound of the permitted band around `current`.
pub open spec fn damper_step(current: int, max_dif: int, input: int) -> int {
    if input > current + max_dif {
        current + max_dif
    } else if input < current - max_dif {
        current - max_dif
    } else {
        input
    }
}

/// The value after `n` damping steps toward a constant `target`.
pub open spec fn damper_iter(start: int, max_dif: int, target: int, n: nat) -> int
    decreases n,
{
    if n == 0 {
        start
    } else {
        damper_iter(damper_step(start, max_dif, target), max_dif, target, (n - 1) as nat)
    }
}

/// Distance of a value from a target.
pub open spec fn dist(a: int, b: int) -> int {
    if a >= b {
        a - b
    } else {
        b - a
    }
}

impl LinearDamper {
    /// A damper is usable when its rate bound is not negative.
    pub open spec fn wf(self) -> bool {
        self.max_dif >= 0
    }

    pub fn new(max_dif: i64, start: i64) -> (r: Self)
        ensures
            r.max_dif == max_dif,
            r.current == start,
    {
        Self { max_dif, current: start }
    }

    /// A damper whose full-range traversal takes about `sample_rate / 20`
    /// samples: changes slower than roughly 20 Hz, below audible perception.
    /// Starts at silence.
    pub fn new_cutoff(sample_rate: u32) -> (r: Self)
        requires
            sample_rate >= 1,
        ensures
            r.current == 0,
            r.max_dif == if 20 * UNIT / (sample_rate as int) >= 1 {
                20 * UNIT / (sample_rate as int)
            } else {
                1
            },
            r.wf(),
            r.max_dif >= 1,
    {
        let per_sample: i64 = 20 * UNIT / (sample_rate as i64);
        Self::new(if per_sample >= 1 { per_sample } else { 1 }, 0)
    }

    /// How many samples the damper needs to traverse one whole unit of
    /// amplitude; free buffer space beyond this is the overload threshold.
    pub fn cutoff_samples(&self) -> (r: i64)
        requires
            self.max_dif >= 1,
        ensures
            r == UNIT as int / self.max_dif as int,
    {
        UNIT / self.max_dif
    }

    /// Advances one step toward `input` and returns the damped amplitude.
    pub fn frame(&mut self, input: i64) -> (r: i64)
        requires
            old(self).wf(),
        ensures
            final(self).max_dif == old(self).max_dif,
            final(self).current == damper_step(
                old(self).current as int,
                old(self).max_dif as int,
                input as int,
            ),
            r == final(self).current,
            final(self).wf(),
    {
        let lo: i128 = self.current as i128 - self.max_dif as i128;
        let hi: i128 = self.current as i128 + self.max_dif as i128;
        let x: i128 = input as i128;
        let next: i128 = if x > hi {
            hi
        } else if x < lo {
            lo
        } else {
            x
        };
        self.current = next as i64;
        self.current
    }
}

/// One damping step toward a constant target shrinks the distance to that
/// target by exactly `max_dif`, stopping at zero.
pub proof fn lemma_damper_step_shrinks(current: int, max_dif: int, target: int)
    requires
        max_dif >= 0,
    ensures
        dist(target, damper_step(current, max_dif, target)) == if dist(target, current) >= max_dif {
            dist(target, current) - max_dif
        } else {
            0
        },
{
}

/// A damper already at its target stays there.
pub proof fn lemma_damper_fixed_point(max_dif: int, target: int)
    requires
        max_dif >= 0,
    ensures
        damper_step(target, max_dif, target) == target,
{
}

/// Fed a constant target, the damper reaches it exactly within
/// `dist(target, start) / max_dif` steps, rounded up, and the distance to the
/// target never grows along the way.
pub proof fn lemma_damper_converges(start: int, max_dif: int, target: int, n: nat)
    requires
        max_dif >= 1,
        n * max_dif >= dist(target, start),
    ensures
        damper_iter(start, max_dif, target, n) == target,
    decreases n,
{
    if n == 0 {
        assert(n * max_dif == 0) by (nonlinear_arith)
            requires n == 0;
    } else {
        let next = damper_step(start, max_dif, target);
        lemma_damper_step_shrinks(start, max_dif, target);
        assert((n - 1) * max_dif == n * max_dif - max_dif) by (nonlinear_arith);
        lemma_damper_converges(next, max_dif, target, (n - 1) as nat);
    }
}

/// The distance to a constant target is monotonically non-increasing over
/// repeated damping steps.
pub proof fn lemma_damper_monotone(start: int, max_dif: int, target: int, n: nat)
    requires
        max_dif >= 0,
    ensures
        dist(target, damper_iter(start, max_dif, target, n + 1))
            <= dist(target, damper_iter(start, max_dif, target, n)),
    decreases n,
{
    let next = damper_step(start, max_dif, target);
    if n == 0 {
        lemma_damper_step_shrinks(start, max_dif, target);
        assert(damper_iter(next, max_dif, target, 0) == next);
        assert(damper_iter(start, max_dif, target, 1) == next);
    } else {
        lemma_damper_monotone(next, max_dif, target, (n - 1) as nat);
        assert(damper_iter(start, max_dif, target, n + 1)
            == damper_iter(next, max_dif, target, ((n - 1) + 1) as nat));
        assert(damper_iter(start, max_dif, target, n)
            == damper_iter(next, max_dif, target, (n - 1) as nat));
    }
}

} // verus!
