//! Low-frequency vibrato modulator.
//!
//! Produces a multiplicative frequency-jump factor per sample from a
//! low-frequency sine. Disabled, the factor is exactly one and the
//! phase does not move, so re-enabling resumes without a stale jump.

use vstd::prelude::*;
use crate::fixed::{
    spec_sine_q16, sine_q16, spec_scale_q16, lemma_mul_bounds, lemma_frac_scale_le,
    ONE_Q16, TURN_Q32, MAX_SAMPLE_RATE,
};

verus! {

/// Vibrato state. The running phase is a sample counter that wraps
/// modulo the sample rate.
pub struct Vibrato {
    /// Modulation rate, Q16 Hz.
    pub rate: u32,
    /// Modulation amount, a Q16 factor.
    pub depth: u32,
    pub sample_rate: u32,
    /// Running phase, in samples; wraps modulo the sample rate.
    pub current_phase: u32,
    pub is_on: bool,
}

impl Vibrato {
    /// The modulator is usable once a device sample rate is set.
    pub open spec fn wf(self) -> bool {
        1 <= self.sample_rate <= MAX_SAMPLE_RATE
    }

    /// The angle of the modulating sine for the current phase, as a
    /// Q32 turn fraction: `rate * phase / sample_rate` turns.
    pub open spec fn spec_angle_q32(self) -> int {
        (self.rate * self.current_phase * (ONE_Q16 as int) / (self.sample_rate as int)) % (
        TURN_Q32 as int)
    }

    /// The factor the modulator emits: exactly one while disabled,
    /// otherwise one plus the depth-scaled sine of the current angle.
    pub open spec fn spec_factor(self) -> int {
        if !self.is_on {
            ONE_Q16 as int
        } else {
            (ONE_Q16 as int) + spec_scale_q16(self.depth as int, spec_sine_q16(self.spec_angle_q32()))
        }
    }

    /// The modulator after one tick: the phase advances by one sample,
    /// wrapping modulo the sample rate; disabled, nothing moves.
    pub open spec fn spec_ticked(self) -> Vibrato {
        if !self.is_on {
            self
        } else {
            Vibrato {
                current_phase: ((self.current_phase + 1) % (self.sample_rate as int)) as u32,
                ..self
            }
        }
    }

    /// A fresh modulator: disabled, phase zero, sample rate unset.
    pub fn new(rate: u32, depth: u32) -> (v: Vibrato)
        ensures
            v.rate == rate,
            v.depth == depth,
            v.sample_rate == 0,
            v.current_phase == 0,
            !v.is_on,
    {
        Vibrato { rate, depth, sample_rate: 0, current_phase: 0, is_on: false }
    }

    pub fn set_state(&mut self, is_on: bool)
        ensures
            *final(self) == (Vibrato { is_on, ..*old(self) }),
    {
        self.is_on = is_on;
    }

    pub fn set_sample_rate(&mut self, sample_rate: u32)
        requires
            1 <= sample_rate <= MAX_SAMPLE_RATE,
        ensures
            *final(self) == (Vibrato { sample_rate, ..*old(self) }),
    {
        self.sample_rate = sample_rate;
    }

    /// Pure setter: the phase is deliberately left alone, so a
    /// parameter change cannot click.
    pub fn set_rate_and_depth(&mut self, rate: u32, depth: u32)
        ensures
            *final(self) == (Vibrato { rate, depth, ..*old(self) }),
    {
        self.rate = rate;
        self.depth = depth;
    }

    /// Emit the factor for the current phase, then advance the phase.
    /// Disabled, the result is exactly one and the state is untouched.
    pub fn tick(&mut self) -> (r: i64)
        requires
            old(self).wf(),
        ensures
            *final(self) == old(self).spec_ticked(),
            final(self).wf(),
            r == old(self).spec_factor(),
            !old(self).is_on ==> r == ONE_Q16 && *final(self) == *old(self),
            ONE_Q16 - old(self).depth <= r <= ONE_Q16 + old(self).depth,
    {
        if !self.is_on {
            return ONE_Q16;
        }
        proof {
            lemma_mul_bounds(
                self.rate as int,
                u32::MAX as int,
                self.current_phase as int,
                u32::MAX as int,
            );
            lemma_mul_bounds(
                (self.rate as int) * (self.current_phase as int),
                (u32::MAX as int) * (u32::MAX as int),
                ONE_Q16 as int,
                ONE_Q16 as int,
            );
        }
        let angle: u128 = ((self.rate as u128) * (self.current_phase as u128) * (ONE_Q16 as u128)
            / (self.sample_rate as u128)) % (TURN_Q32 as u128);
        let modulation: i64 = sine_q16(angle as u32);
        self.current_phase = (((self.current_phase as u64) + 1) % (self.sample_rate as u64)) as u32;
        if modulation >= 0 {
            proof {
                lemma_mul_bounds(self.depth as int, u32::MAX as int, modulation as int, ONE_Q16 as int);
                lemma_frac_scale_le(modulation as int, ONE_Q16 as int, self.depth as int);
                vstd::arithmetic::mul::lemma_mul_is_commutative(self.depth as int, modulation as int);
            }
            let mag: u64 = (self.depth as u64) * (modulation as u64) / (ONE_Q16 as u64);
            ONE_Q16 + (mag as i64)
        } else {
            proof {
                lemma_mul_bounds(self.depth as int, u32::MAX as int, -(modulation as int), ONE_Q16 as int);
                lemma_frac_scale_le(-(modulation as int), ONE_Q16 as int, self.depth as int);
                vstd::arithmetic::mul::lemma_mul_is_commutative(self.depth as int, -(modulation as int));
            }
            let mag: u64 = (self.depth as u64) * ((-modulation) as u64) / (ONE_Q16 as u64);
            ONE_Q16 - (mag as i64)
        }
    }
}

} // verus!
