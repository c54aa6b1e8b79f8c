//! Attack-decay-sustain-release envelope.
//!
//! The envelope emits one unitless gain in `[0, ONE_Q16]` per sample and
//! is driven by press/release/stop transitions. Durations are seconds in
//! Q16; the sustain level is a Q16 gain.

use vstd::prelude::*;
use crate::fixed::{spec_clamp, lemma_frac_scale_le, lemma_frac_scale_lt, lemma_frac_scale_monotone, lemma_mul_bounds, ONE_Q16};

verus! {

/// Lifecycle phase of the envelope.
#[derive(Clone, Copy, PartialEq, Eq, Structural, Debug)]
pub enum AdsrState {
    Pressed,
    Released,
    Off,
}

/// Envelope state. `frame` counts samples since the last phase
/// transition and saturates so it never wraps.
pub struct Adsr {
    pub state: AdsrState,
    pub sample_rate: u32,
    pub frame: u64,
    /// Attack duration, seconds in Q16.
    pub attack: u32,
    /// Decay duration, seconds in Q16.
    pub decay: u32,
    /// Sustain level, a Q16 gain; always at most `ONE_Q16`.
    pub sustain: u32,
    /// Release duration, seconds in Q16.
    pub release: u32,
}

impl Adsr {
    /// The sustain level is a gain, never above one.
    pub open spec fn wf(self) -> bool {
        self.sustain <= ONE_Q16
    }

    /// Attack duration in Q16 frames.
    pub open spec fn spec_attack_frames(self) -> int {
        self.attack * self.sample_rate
    }

    /// Decay duration in Q16 frames.
    pub open spec fn spec_decay_frames(self) -> int {
        self.decay * self.sample_rate
    }

    /// Release duration in Q16 frames.
    pub open spec fn spec_release_frames(self) -> int {
        self.release * self.sample_rate
    }

    /// The gain emitted for a given frame counter, before the final
    /// clamp: zero when off; a linear ramp from zero to one over the
    /// attack, then a ramp from one down to the sustain level over the
    /// decay, then the sustain level; after a release, a ramp from the
    /// sustain level down to zero over the release duration.
    pub open spec fn spec_gain_raw_at(self, frame: int) -> int {
        let fq = frame * ONE_Q16;
        match self.state {
            AdsrState::Off => 0,
            AdsrState::Pressed => {
                let af = self.spec_attack_frames();
                let df = self.spec_decay_frames();
                if fq < af {
                    fq * ONE_Q16 / af
                } else if fq < af + df {
                    spec_clamp(ONE_Q16 - (fq - af) * ONE_Q16 / df, self.sustain as int, ONE_Q16 as int)
                } else {
                    self.sustain as int
                }
            },
            AdsrState::Released => {
                let rf = self.spec_release_frames();
                if fq < rf {
                    (ONE_Q16 - fq * ONE_Q16 / rf) * (self.sustain as int) / (ONE_Q16 as int)
                } else {
                    0
                }
            },
        }
    }

    /// The gain emitted for a given frame counter, clamped to
    /// `[0, ONE_Q16]` whatever the phase arithmetic produced.
    pub open spec fn spec_gain_at(self, frame: int) -> int {
        spec_clamp(self.spec_gain_raw_at(frame), 0, ONE_Q16 as int)
    }

    /// The envelope after one tick: the frame counter advances,
    /// saturating at its maximum; nothing else moves.
    pub open spec fn spec_ticked(self) -> Adsr {
        Adsr {
            frame: if self.frame == u64::MAX {
                u64::MAX
            } else {
                (self.frame + 1) as u64
            },
            ..self
        }
    }

    /// A fresh envelope: off, frame counter zero, sample rate unset.
    /// The sustain level is clamped into `[0, ONE_Q16]`; in this
    /// representation durations are unsigned, hence already nonnegative.
    pub fn new(a: u32, d: u32, s: u32, r: u32) -> (e: Adsr)
        ensures
            e.wf(),
            e.state == AdsrState::Off,
            e.sample_rate == 0,
            e.frame == 0,
            e.attack == a,
            e.decay == d,
            e.sustain == spec_clamp(s as int, 0, ONE_Q16 as int),
            e.release == r,
    {
        Adsr {
            state: AdsrState::Off,
            sample_rate: 0,
            frame: 0,
            attack: a,
            decay: d,
            sustain: if s > ONE_Q16 as u32 {
                ONE_Q16 as u32
            } else {
                s
            },
            release: r,
        }
    }

    pub fn set_sample_rate(&mut self, sample_rate: u32)
        ensures
            *final(self) == (Adsr { sample_rate, ..*old(self) }),
    {
        self.sample_rate = sample_rate;
    }

    /// Enter the pressed phase; the frame counter restarts.
    pub fn press(&mut self)
        ensures
            *final(self) == (Adsr { state: AdsrState::Pressed, frame: 0, ..*old(self) }),
    {
        self.state = AdsrState::Pressed;
        self.frame = 0;
    }

    /// Enter the released phase; the frame counter restarts.
    pub fn release(&mut self)
        ensures
            *final(self) == (Adsr { state: AdsrState::Released, frame: 0, ..*old(self) }),
    {
        self.state = AdsrState::Released;
        self.frame = 0;
    }

    /// Fall silent; the frame counter restarts.
    pub fn stop(&mut self)
        ensures
            *final(self) == (Adsr { state: AdsrState::Off, frame: 0, ..*old(self) }),
    {
        self.state = AdsrState::Off;
        self.frame = 0;
    }

    /// Emit the gain for the current frame, then advance the frame
    /// counter. Off always yields zero, and every gain lies in
    /// `[0, ONE_Q16]`.
    pub fn tick(&mut self) -> (r: u32)
        requires
            old(self).wf(),
        ensures
            *final(self) == old(self).spec_ticked(),
            final(self).wf(),
            r == old(self).spec_gain_at(old(self).frame as int),
            r <= ONE_Q16,
            old(self).state == AdsrState::Off ==> r == 0,
    {
        let cur_frame: u64 = self.frame;
        if self.frame != u64::MAX {
            self.frame = self.frame + 1;
        }
        proof {
            lemma_mul_bounds(cur_frame as int, u64::MAX as int, ONE_Q16 as int, ONE_Q16 as int);
        }
        let fq: u128 = (cur_frame as u128) * (ONE_Q16 as u128);
        let raw: u128 = match self.state {
            AdsrState::Off => 0,
            AdsrState::Pressed => {
                proof {
                    lemma_mul_bounds(self.attack as int, u32::MAX as int, self.sample_rate as int, u32::MAX as int);
                    lemma_mul_bounds(self.decay as int, u32::MAX as int, self.sample_rate as int, u32::MAX as int);
                }
                let af: u128 = (self.attack as u128) * (self.sample_rate as u128);
                let df: u128 = (self.decay as u128) * (self.sample_rate as u128);
                if fq < af {
                    proof {
                        lemma_mul_bounds(fq as int, af as int, ONE_Q16 as int, ONE_Q16 as int);
                        lemma_frac_scale_lt(fq as int, af as int, ONE_Q16 as int);
                    }
                    fq * (ONE_Q16 as u128) / af
                } else if fq < af + df {
                    proof {
                        lemma_mul_bounds((fq - af) as int, df as int, ONE_Q16 as int, ONE_Q16 as int);
                        lemma_frac_scale_lt((fq - af) as int, df as int, ONE_Q16 as int);
                    }
                    let drop_q16: u128 = (fq - af) * (ONE_Q16 as u128) / df;
                    let level: u128 = (ONE_Q16 as u128) - drop_q16;
                    if level < self.sustain as u128 {
                        self.sustain as u128
                    } else {
                        level
                    }
                } else {
                    self.sustain as u128
                }
            },
            AdsrState::Released => {
                proof {
                    lemma_mul_bounds(self.release as int, u32::MAX as int, self.sample_rate as int, u32::MAX as int);
                }
                let rf: u128 = (self.release as u128) * (self.sample_rate as u128);
                if fq < rf {
                    proof {
                        lemma_mul_bounds(fq as int, rf as int, ONE_Q16 as int, ONE_Q16 as int);
                        lemma_frac_scale_lt(fq as int, rf as int, ONE_Q16 as int);
                        lemma_frac_scale_le(
                            ONE_Q16 - fq as int * ONE_Q16 / rf as int,
                            ONE_Q16 as int,
                            self.sustain as int,
                        );
                        vstd::arithmetic::mul::lemma_mul_is_commutative(
                            ONE_Q16 - fq as int * ONE_Q16 / rf as int,
                            self.sustain as int,
                        );
                    }
                    ((ONE_Q16 as u128) - fq * (ONE_Q16 as u128) / rf) * (self.sustain as u128)
                        / (ONE_Q16 as u128)
                } else {
                    0
                }
            },
        };
        if raw > ONE_Q16 as u128 {
            ONE_Q16 as u32
        } else {
            raw as u32
        }
    }
}

/// Law: an envelope that is off emits zero gain, whatever the frame.
pub proof fn lemma_off_silent(e: Adsr, frame: int)
    requires
        e.state == AdsrState::Off,
    ensures
        e.spec_gain_at(frame) == 0,
{
}

/// Law: right after a press the first emitted gain is zero, provided
/// the attack phase is nonempty.
pub proof fn lemma_press_starts_at_zero(e: Adsr)
    requires
        e.state == AdsrState::Pressed,
        e.spec_attack_frames() > 0,
    ensures
        e.spec_gain_at(0) == 0,
{
    let af = e.spec_attack_frames();
    assert(0 * ONE_Q16 == 0);
    vstd::arithmetic::div_mod::lemma_div_of0(af);
}

/// Law: through the attack phase the gain never decreases.
pub proof fn lemma_attack_monotone(e: Adsr, f1: int, f2: int)
    requires
        e.state == AdsrState::Pressed,
        0 <= f1 <= f2,
        f2 * ONE_Q16 < e.spec_attack_frames(),
    ensures
        e.spec_gain_at(f1) <= e.spec_gain_at(f2),
{
    let af = e.spec_attack_frames();
    vstd::arithmetic::mul::lemma_mul_inequality(f1, f2, ONE_Q16 as int);
    lemma_frac_scale_monotone(f1 * ONE_Q16, f2 * ONE_Q16, af, ONE_Q16 as int);
}

/// Law: once the attack and the decay have elapsed, the gain is exactly
/// the sustain level.
pub proof fn lemma_sustain_after_decay(e: Adsr, frame: int)
    requires
        e.wf(),
        e.state == AdsrState::Pressed,
        frame * ONE_Q16 >= e.spec_attack_frames() + e.spec_decay_frames(),
    ensures
        e.spec_gain_at(frame) == e.sustain,
{
    vstd::arithmetic::mul::lemma_mul_nonnegative(e.attack as int, e.sample_rate as int);
    vstd::arithmetic::mul::lemma_mul_nonnegative(e.decay as int, e.sample_rate as int);
}

/// Law: after a release the gain never exceeds the sustain level, never
/// increases from one frame to a later one, and is zero once the
/// release duration has elapsed.
pub proof fn lemma_release_decays(e: Adsr, f1: int, f2: int)
    requires
        e.wf(),
        e.state == AdsrState::Released,
        0 <= f1 <= f2,
    ensures
        e.spec_gain_at(f1) <= e.sustain,
        e.spec_gain_at(f2) <= e.spec_gain_at(f1),
        f1 * ONE_Q16 >= e.spec_release_frames() ==> e.spec_gain_at(f1) == 0,
{
    let rf = e.spec_release_frames();
    let s = e.sustain as int;
    let one = ONE_Q16 as int;
    let fq1 = f1 * one;
    let fq2 = f2 * one;
    vstd::arithmetic::mul::lemma_mul_nonnegative(e.release as int, e.sample_rate as int);
    vstd::arithmetic::mul::lemma_mul_nonnegative(f1, one);
    vstd::arithmetic::mul::lemma_mul_inequality(f1, f2, one);
    if fq1 < rf {
        let q1 = fq1 * one / rf;
        lemma_frac_scale_lt(fq1, rf, one);
        lemma_frac_scale_le(one - q1, one, s);
        if fq2 < rf {
            let q2 = fq2 * one / rf;
            lemma_frac_scale_lt(fq2, rf, one);
            lemma_frac_scale_monotone(fq1, fq2, rf, one);
            lemma_frac_scale_monotone(one - q2, one - q1, one, s);
            lemma_frac_scale_le(one - q2, one, s);
        }
    }
}

} // verus!
