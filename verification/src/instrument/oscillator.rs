//! Band-limited periodic waveform generator.
//!
//! One raw Q16 sample per tick from a phase accumulator and a target
//! frequency. The sine is direct; square, saw and triangle are built by
//! additive synthesis, summing weighted sine harmonics and stopping as
//! soon as a harmonic would cross the Nyquist frequency, so no aliasing
//! foldback is ever synthesized.

use vstd::prelude::*;
use crate::fixed::{
    spec_sine_q16, sine_q16, spec_scale_q16, scale_q16, lemma_mul_bounds, lemma_sine_sign,
    ONE_Q16, TURN_Q32, HALF_TURN_Q32, MAX_SAMPLE_RATE,
};
use crate::instruction::{InstructionKind, Status};

verus! {

/// The waveform kinds a generator can produce.
#[derive(Copy, Clone, Eq, PartialEq, Structural, Debug)]
pub enum Waveform {
    Sine,
    Square,
    Saw,
    Triangle,
}

/// Every sample the generator emits lies in
/// `[-SAMPLE_LIMIT, SAMPLE_LIMIT]`: the harmonic sum has at most
/// `MAX_SAMPLE_RATE * 32768 + 2` terms, each of magnitude at most
/// `ONE_Q16`.
pub const SAMPLE_LIMIT: i64 = 2251799813816320;

/// Frequency of the 440 Hz reference note, Q16.
pub const NOTE_BASE_Q16: u32 = 28835840;

/// One equal-temperament semitone up, `2^(1/12)` in Q16.
pub const SEMITONE_UP_Q16: u64 = 69433;

/// One equal-temperament semitone down, `2^(-1/12)` in Q16.
pub const SEMITONE_DOWN_Q16: u64 = 61858;

/// Phase-accumulator waveform generator. The phase is Q16 samples and
/// is always reduced modulo the Q16 period `sample_rate / frequency`;
/// the per-tick phase increment defaults to one and is overridden each
/// tick when a vibrato drives the generator.
pub struct Oscillator {
    pub sample_rate: u32,
    pub waveform: Waveform,
    /// Phase accumulator, Q16 samples.
    pub current_sample_index: u64,
    /// Per-tick phase increment, Q16.
    pub current_sample_jump: u32,
    /// Target frequency, Q16 Hz; positive while the generator runs.
    pub frequency_hz: u32,
    pub is_on: bool,
}

impl Oscillator {
    /// The generator is usable: the frequency is positive and the
    /// sample rate has been set to something a device can produce.
    pub open spec fn wf(self) -> bool {
        &&& 1 <= self.frequency_hz
        &&& 1 <= self.sample_rate <= MAX_SAMPLE_RATE
    }

    /// Samples per cycle, in Q16: `sample_rate / frequency`.
    pub open spec fn spec_period_q16(self) -> int {
        self.sample_rate * (TURN_Q32 as int) / (self.frequency_hz as int)
    }

    /// Half the sample rate, on the Q16 frequency scale: a frequency
    /// `f` exceeds Nyquist exactly when `f_q16 > sample_rate * 32768`.
    pub open spec fn spec_nyquist_q16(self) -> int {
        (self.sample_rate as int) * 32768
    }

    /// The generator after one phase advance: the accumulator moves by
    /// the per-tick increment, modulo the Q16 period.
    pub open spec fn spec_advanced(self) -> Oscillator {
        Oscillator {
            current_sample_index: ((self.current_sample_index + self.current_sample_jump)
                % self.spec_period_q16()) as u64,
            ..self
        }
    }

    /// The angle of a component at frequency `freq` (Q16 Hz) for the
    /// current phase, as a Q32 turn fraction.
    pub open spec fn spec_angle_q32(self, freq: int) -> int {
        (self.current_sample_index * freq / (self.sample_rate as int)) % (TURN_Q32 as int)
    }

    /// The sine component at frequency `freq` for the current phase.
    pub open spec fn spec_sine_sample(self, freq: int) -> int {
        spec_sine_q16(self.spec_angle_q32(freq))
    }

    /// Q16 weight of harmonic `i`: `1 / i^expo` for exponent one or two.
    pub open spec fn spec_harmonic_gain(expo: int, i: int) -> int {
        if expo == 1 {
            (ONE_Q16 as int) / i
        } else {
            (ONE_Q16 as int) / (i * i)
        }
    }

    /// The contribution of harmonic `i`: the sine at `i` times the
    /// target frequency, weighted by `1 / i^expo`.
    pub open spec fn spec_harmonic_term(self, expo: int, i: int) -> int {
        spec_scale_q16(Self::spec_harmonic_gain(expo, i), self.spec_sine_sample(self.frequency_hz * i))
    }

    /// Additive synthesis: the sum of the harmonics `i, i + step, ...`
    /// of the target frequency, stopping as soon as a harmonic would
    /// exceed the Nyquist frequency.
    pub open spec fn spec_harmonics(self, step: int, expo: int, i: int) -> int
        decreases self.spec_nyquist_q16() + step * self.frequency_hz - self.frequency_hz * i,
        when 1 <= step && 1 <= self.frequency_hz
        via Self::spec_harmonics_decreases
    {
        if self.frequency_hz * i > self.spec_nyquist_q16() {
            0
        } else {
            self.spec_harmonic_term(expo, i) + self.spec_harmonics(step, expo, i + step)
        }
    }

    #[via_fn]
    proof fn spec_harmonics_decreases(self, step: int, expo: int, i: int) {
        if self.frequency_hz * i <= self.spec_nyquist_q16() {
            vstd::arithmetic::mul::lemma_mul_is_distributive_add(self.frequency_hz as int, i, step);
            vstd::arithmetic::mul::lemma_mul_is_commutative(self.frequency_hz as int, step);
            vstd::arithmetic::mul::lemma_mul_strictly_positive(self.frequency_hz as int, step);
        }
    }

    /// The sample the generator emits for its current state: zero when
    /// off, otherwise the selected waveform at the current phase.
    pub open spec fn spec_output(self) -> int {
        if !self.is_on {
            0
        } else {
            match self.waveform {
                Waveform::Sine => self.spec_sine_sample(self.frequency_hz as int),
                Waveform::Square => self.spec_harmonics(2, 1, 1),
                Waveform::Saw => self.spec_harmonics(1, 1, 1),
                Waveform::Triangle => self.spec_harmonics(2, 2, 1),
            }
        }
    }

    /// The fresh generator: sine at 220 Hz, unit phase increment,
    /// gated off, sample rate still unset.
    pub open spec fn spec_default() -> Oscillator {
        Oscillator {
            sample_rate: 0,
            waveform: Waveform::Sine,
            current_sample_index: 0,
            current_sample_jump: ONE_Q16 as u32,
            frequency_hz: (220 * ONE_Q16) as u32,
            is_on: false,
        }
    }

    pub fn default() -> (o: Oscillator)
        ensures
            o == Oscillator::spec_default(),
    {
        Oscillator {
            sample_rate: 0,
            waveform: Waveform::Sine,
            current_sample_index: 0,
            current_sample_jump: ONE_Q16 as u32,
            frequency_hz: 220 * (ONE_Q16 as u32),
            is_on: false,
        }
    }

    pub fn set_waveform(&mut self, waveform: Waveform)
        ensures
            *final(self) == (Oscillator { waveform, ..*old(self) }),
    {
        self.waveform = waveform;
    }

    pub fn set_sample_rate(&mut self, sample_rate: u32)
        requires
            1 <= sample_rate <= MAX_SAMPLE_RATE,
        ensures
            *final(self) == (Oscillator { sample_rate, ..*old(self) }),
    {
        self.sample_rate = sample_rate;
    }

    /// Move the phase accumulator by the per-tick increment, modulo the
    /// Q16 period.
    fn advance_sample(&mut self)
        requires
            old(self).wf(),
        ensures
            *final(self) == old(self).spec_advanced(),
            final(self).wf(),
            final(self).current_sample_index < old(self).spec_period_q16(),
    {
        proof {
            lemma_mul_bounds(
                self.sample_rate as int,
                MAX_SAMPLE_RATE as int,
                TURN_Q32 as int,
                TURN_Q32 as int,
            );
            vstd::arithmetic::div_mod::lemma_div_non_zero(
                (self.sample_rate as int) * (TURN_Q32 as int),
                self.frequency_hz as int,
            );
            vstd::arithmetic::div_mod::lemma_div_nonincreasing(
                (self.sample_rate as int) * (TURN_Q32 as int),
                self.frequency_hz as int,
            );
        }
        let period: u64 = (((self.sample_rate as u128) * (TURN_Q32 as u128))
            / (self.frequency_hz as u128)) as u64;
        self.current_sample_index = (((self.current_sample_index as u128)
            + (self.current_sample_jump as u128)) % (period as u128)) as u64;
    }

    /// Whether harmonic `multiple` of the target frequency lies above
    /// the Nyquist frequency.
    fn is_multiple_of_freq_above_nyquist(&self, multiple: u64) -> (r: bool)
        ensures
            r == ((self.frequency_hz as int) * (multiple as int) > self.spec_nyquist_q16()),
    {
        proof {
            lemma_mul_bounds(
                self.frequency_hz as int,
                u32::MAX as int,
                multiple as int,
                u64::MAX as int,
            );
        }
        (self.frequency_hz as u128) * (multiple as u128)
            > (self.sample_rate as u128) * 32768
    }

    /// The sine component at `freq` (Q16 Hz) for the current phase.
    fn calculate_sine_output_from_freq(&self, freq: u64) -> (r: i64)
        requires
            self.wf(),
        ensures
            r == self.spec_sine_sample(freq as int),
            -ONE_Q16 <= r <= ONE_Q16,
    {
        proof {
            lemma_mul_bounds(
                self.current_sample_index as int,
                u64::MAX as int,
                freq as int,
                u64::MAX as int,
            );
        }
        let angle: u128 = ((self.current_sample_index as u128) * (freq as u128)
            / (self.sample_rate as u128)) % (TURN_Q32 as u128);
        sine_q16(angle as u32)
    }

    fn sine_wave(&self) -> (r: i64)
        requires
            self.wf(),
        ensures
            r == self.spec_sine_sample(self.frequency_hz as int),
            -ONE_Q16 <= r <= ONE_Q16,
    {
        self.calculate_sine_output_from_freq(self.frequency_hz as u64)
    }

    /// Sum the harmonics `1, 1 + step, 1 + 2 step, ...` of the target
    /// frequency, each weighted by `1 / i^expo`, up to Nyquist.
    fn generative_waveform(&self, harmonic_index_increment: u64, gain_exponent: u32) -> (r: i64)
        requires
            self.wf(),
            1 <= harmonic_index_increment <= 2,
            1 <= gain_exponent <= 2,
        ensures
            r == self.spec_harmonics(harmonic_index_increment as int, gain_exponent as int, 1),
            -SAMPLE_LIMIT <= r <= SAMPLE_LIMIT,
    {
        let step: u64 = harmonic_index_increment;
        let ghost nyq = self.spec_nyquist_q16();
        let ghost freq = self.frequency_hz as int;
        let mut output: i128 = 0;
        let mut i: u64 = 1;
        while !self.is_multiple_of_freq_above_nyquist(i)
            invariant
                self.wf(),
                1 <= step <= 2,
                1 <= gain_exponent <= 2,
                nyq == self.spec_nyquist_q16(),
                freq == self.frequency_hz as int,
                1 <= i <= nyq + step,
                -((ONE_Q16 as int) * (i - 1)) <= output <= (ONE_Q16 as int) * (i - 1),
                self.spec_harmonics(step as int, gain_exponent as int, 1) == output
                    + self.spec_harmonics(step as int, gain_exponent as int, i as int),
            decreases nyq + (step as int) * freq - freq * i,
        {
            proof {
                vstd::arithmetic::mul::lemma_mul_increases(freq, i as int);
                if gain_exponent != 1 {
                    lemma_mul_bounds(i as int, u64::MAX as int, i as int, u64::MAX as int);
                    vstd::arithmetic::mul::lemma_mul_increases(i as int, i as int);
                    vstd::arithmetic::div_mod::lemma_div_nonincreasing(
                        ONE_Q16 as int,
                        (i as int) * (i as int),
                    );
                }
                vstd::arithmetic::div_mod::lemma_div_nonincreasing(ONE_Q16 as int, i as int);
            }
            let gain: u64 = if gain_exponent == 1 {
                (ONE_Q16 as u64) / i
            } else {
                ((ONE_Q16 as u128) / ((i as u128) * (i as u128))) as u64
            };
            let h_freq: u64 = (self.frequency_hz as u64) * i;
            let s: i64 = self.calculate_sine_output_from_freq(h_freq);
            let term: i64 = scale_q16(gain, s);
            proof {
                assert((ONE_Q16 as int) * (i - 1) <= SAMPLE_LIMIT - ONE_Q16
                    && (ONE_Q16 as int) * (i + step - 1) >= (ONE_Q16 as int) * (i - 1) + ONE_Q16)
                    by (nonlinear_arith)
                    requires
                        1 <= i <= nyq + step,
                        1 <= step <= 2,
                        nyq <= 34359738368,
                ;
            }
            output = output + (term as i128);
            i = i + step;
            proof {
                vstd::arithmetic::mul::lemma_mul_is_distributive_add(freq, i - step, step as int);
                vstd::arithmetic::mul::lemma_mul_is_commutative(freq, step as int);
                vstd::arithmetic::mul::lemma_mul_strictly_positive(freq, step as int);
            }
        }
        proof {
            assert((ONE_Q16 as int) * (i - 1) <= SAMPLE_LIMIT) by (nonlinear_arith)
                requires
                    1 <= i <= nyq + step,
                    1 <= step <= 2,
                    nyq <= 34359738368,
            ;
        }
        output as i64
    }

    fn square_wave(&self) -> (r: i64)
        requires
            self.wf(),
        ensures
            r == self.spec_harmonics(2, 1, 1),
            -SAMPLE_LIMIT <= r <= SAMPLE_LIMIT,
    {
        self.generative_waveform(2, 1)
    }

    fn saw_wave(&self) -> (r: i64)
        requires
            self.wf(),
        ensures
            r == self.spec_harmonics(1, 1, 1),
            -SAMPLE_LIMIT <= r <= SAMPLE_LIMIT,
    {
        self.generative_waveform(1, 1)
    }

    fn triangle_wave(&self) -> (r: i64)
        requires
            self.wf(),
        ensures
            r == self.spec_harmonics(2, 2, 1),
            -SAMPLE_LIMIT <= r <= SAMPLE_LIMIT,
    {
        self.generative_waveform(2, 2)
    }

    /// Advance the phase, then emit the sample for the new state: zero
    /// when gated off, otherwise the selected waveform. A sine never
    /// leaves `[-ONE_Q16, ONE_Q16]`, and an additive waveform whose
    /// fundamental already exceeds Nyquist is exactly zero.
    pub fn tick(&mut self) -> (r: i64)
        requires
            old(self).wf(),
        ensures
            *final(self) == old(self).spec_advanced(),
            final(self).wf(),
            r == old(self).spec_advanced().spec_output(),
            -SAMPLE_LIMIT <= r <= SAMPLE_LIMIT,
            old(self).waveform == Waveform::Sine ==> -ONE_Q16 <= r <= ONE_Q16,
            old(self).waveform != Waveform::Sine
                && old(self).frequency_hz > old(self).spec_nyquist_q16() ==> r == 0,
    {
        self.advance_sample();
        proof {
            if self.waveform != Waveform::Sine && self.frequency_hz > self.spec_nyquist_q16() {
                lemma_waveform_silent_above_nyquist(*self);
            }
        }
        if !self.is_on {
            return 0;
        }
        match self.waveform {
            Waveform::Sine => self.sine_wave(),
            Waveform::Square => self.square_wave(),
            Waveform::Saw => self.saw_wave(),
            Waveform::Triangle => self.triangle_wave(),
        }
    }
}

/// Frequency after `k` equal-temperament semitone steps up from the
/// 440 Hz reference, Q16 Hz, saturating at the top of the range.
pub open spec fn spec_note_steps_up(k: nat) -> int
    decreases k,
{
    if k == 0 {
        NOTE_BASE_Q16 as int
    } else {
        let v = spec_note_steps_up((k - 1) as nat) * (SEMITONE_UP_Q16 as int) / (ONE_Q16 as int);
        if v > u32::MAX {
            u32::MAX as int
        } else {
            v
        }
    }
}

/// Frequency after `k` equal-temperament semitone steps down from the
/// 440 Hz reference, Q16 Hz.
pub open spec fn spec_note_steps_down(k: nat) -> int
    decreases k,
{
    if k == 0 {
        NOTE_BASE_Q16 as int
    } else {
        spec_note_steps_down((k - 1) as nat) * (SEMITONE_DOWN_Q16 as int) / (ONE_Q16 as int)
    }
}

/// The equal-temperament frequency of a note number, Q16 Hz: note 60
/// is the 440 Hz reference, each semitone scales by `2^(1/12)`. The
/// result saturates at the top of the Q16 range and never falls below
/// one, so a playing generator keeps its positive-frequency invariant.
pub open spec fn spec_note_frequency(n: int) -> int {
    let raw = if n >= 60 {
        spec_note_steps_up((n - 60) as nat)
    } else {
        spec_note_steps_down((60 - n) as nat)
    };
    if raw < 1 {
        1
    } else {
        raw
    }
}

/// Computes `spec_note_frequency` by repeated Q16 semitone scaling.
pub fn note_frequency(note: u16) -> (f: u32)
    ensures
        f == spec_note_frequency(note as int),
        1 <= f,
{
    let mut v: u64 = NOTE_BASE_Q16 as u64;
    if note >= 60 {
        let steps: u16 = note - 60;
        let mut k: u16 = 0;
        while k < steps
            invariant
                k <= steps,
                v == spec_note_steps_up(k as nat),
                v <= u32::MAX,
            decreases steps - k,
        {
            let w: u64 = v * SEMITONE_UP_Q16 / (ONE_Q16 as u64);
            v = if w > u32::MAX as u64 {
                u32::MAX as u64
            } else {
                w
            };
            k = k + 1;
        }
    } else {
        let steps: u16 = 60 - note;
        let mut k: u16 = 0;
        while k < steps
            invariant
                k <= steps,
                v == spec_note_steps_down(k as nat),
                0 <= v <= NOTE_BASE_Q16,
            decreases steps - k,
        {
            v = v * SEMITONE_DOWN_Q16 / (ONE_Q16 as u64);
            k = k + 1;
        }
    }
    if v < 1 {
        1
    } else {
        v as u32
    }
}

impl Oscillator {
    /// Which instructions an oscillator voice accepts: waveform,
    /// frequency, note and gate; the envelope and vibrato instructions
    /// have no behavior here.
    pub open spec fn spec_accepts(instruction: InstructionKind) -> bool {
        match instruction {
            InstructionKind::Waveform(_) => true,
            InstructionKind::Frequency(_) => true,
            InstructionKind::Note(_) => true,
            InstructionKind::State(_) => true,
            _ => false,
        }
    }

    /// The generator after an instruction: an accepted instruction
    /// reconfigures the matching field; a frequency is forced positive
    /// so the generator invariant survives; anything else leaves the
    /// state untouched.
    pub open spec fn spec_applied(self, instruction: InstructionKind) -> Oscillator {
        match instruction {
            InstructionKind::Waveform(w) => Oscillator { waveform: w, ..self },
            InstructionKind::Frequency(f) => Oscillator {
                frequency_hz: if f < 1 {
                    1
                } else {
                    f
                },
                ..self
            },
            InstructionKind::Note(n) => Oscillator {
                frequency_hz: spec_note_frequency(n as int) as u32,
                ..self
            },
            InstructionKind::State(s) => Oscillator { is_on: s is On, ..self },
            _ => self,
        }
    }

    /// Apply one instruction; an unsupported one is reported and leaves
    /// the generator unchanged, never fatal.
    pub fn apply_instruction(&mut self, instruction: InstructionKind) -> (r: Result<
        (),
        &'static str,
    >)
        ensures
            *final(self) == old(self).spec_applied(instruction),
            r is Ok <==> Oscillator::spec_accepts(instruction),
            old(self).wf() ==> final(self).wf(),
            old(self).frequency_hz >= 1 ==> final(self).frequency_hz >= 1,
    {
        match instruction {
            InstructionKind::Waveform(w) => self.waveform = w,
            InstructionKind::Frequency(f) => self.frequency_hz = if f < 1 {
                1
            } else {
                f
            },
            InstructionKind::Note(u) => self.frequency_hz = note_frequency(u),
            InstructionKind::State(s) => match s {
                Status::On => self.is_on = true,
                Status::Off => self.is_on = false,
            },
            _ => {
                return Err("Illegal instruction for 'Oscillator'");
            },
        }
        Ok(())
    }

    /// The generator after `n` pure phase advances.
    pub open spec fn spec_advanced_n(self, n: nat) -> Oscillator
        decreases n,
    {
        if n == 0 {
            self
        } else {
            self.spec_advanced_n((n - 1) as nat).spec_advanced()
        }
    }
}

/// A positive, bounded period: `1 <= period <= sample_rate * 2^32`.
pub proof fn lemma_period_positive(o: Oscillator)
    requires
        o.wf(),
    ensures
        1 <= o.spec_period_q16() <= (MAX_SAMPLE_RATE as int) * (TURN_Q32 as int),
{
    lemma_mul_bounds(o.sample_rate as int, MAX_SAMPLE_RATE as int, TURN_Q32 as int, TURN_Q32 as int);
    vstd::arithmetic::div_mod::lemma_div_non_zero(
        (o.sample_rate as int) * (TURN_Q32 as int),
        o.frequency_hz as int,
    );
    vstd::arithmetic::div_mod::lemma_div_nonincreasing(
        (o.sample_rate as int) * (TURN_Q32 as int),
        o.frequency_hz as int,
    );
}

/// Phase advance is linear: after `n` ticks the accumulator is the
/// initial one plus `n` jumps, reduced modulo the Q16 period; no other
/// field moves.
pub proof fn lemma_advance_linear(o: Oscillator, n: nat)
    requires
        o.wf(),
        o.current_sample_index < o.spec_period_q16(),
    ensures
        o.spec_advanced_n(n) == (Oscillator {
            current_sample_index: ((o.current_sample_index + n * o.current_sample_jump)
                % o.spec_period_q16()) as u64,
            ..o
        }),
    decreases n,
{
    let per = o.spec_period_q16();
    let idx = o.current_sample_index as int;
    let jump = o.current_sample_jump as int;
    lemma_period_positive(o);
    if n == 0 {
        vstd::arithmetic::mul::lemma_mul_basics(jump);
        vstd::arithmetic::div_mod::lemma_small_mod(idx as nat, per as nat);
    } else {
        lemma_advance_linear(o, (n - 1) as nat);
        let a = idx + (n - 1) * jump;
        vstd::arithmetic::mul::lemma_mul_nonnegative(n - 1, jump);
        vstd::arithmetic::div_mod::lemma_mod_bound(a, per);
        vstd::arithmetic::div_mod::lemma_mod_twice(a, per);
        vstd::arithmetic::div_mod::lemma_add_mod_noop(a % per, jump, per);
        vstd::arithmetic::div_mod::lemma_add_mod_noop(a, jump, per);
        vstd::arithmetic::div_mod::lemma_mod_twice(jump, per);
        vstd::arithmetic::mul::lemma_mul_is_distributive_add_other_way(jump, n - 1, 1);
        vstd::arithmetic::mul::lemma_mul_basics(jump);
    }
}

/// Law: with a unit per-tick increment and a whole number of samples
/// per cycle, the generator returns to its exact state after
/// `sample_rate / frequency` samples.
pub proof fn lemma_periodic_cycle(o: Oscillator)
    requires
        o.wf(),
        o.current_sample_jump == ONE_Q16,
        o.current_sample_index < o.spec_period_q16(),
        o.spec_period_q16() % (ONE_Q16 as int) == 0,
    ensures
        o.spec_advanced_n((o.spec_period_q16() / (ONE_Q16 as int)) as nat) == o,
{
    let per = o.spec_period_q16();
    let idx = o.current_sample_index as int;
    let n = per / (ONE_Q16 as int);
    lemma_period_positive(o);
    vstd::arithmetic::div_mod::lemma_div_pos_is_pos(per, ONE_Q16 as int);
    lemma_advance_linear(o, n as nat);
    vstd::arithmetic::div_mod::lemma_fundamental_div_mod(per, ONE_Q16 as int);
    vstd::arithmetic::mul::lemma_mul_is_commutative(n, ONE_Q16 as int);
    vstd::arithmetic::div_mod::lemma_mod_add_multiples_vanish(idx, per);
    vstd::arithmetic::div_mod::lemma_small_mod(idx as nat, per as nat);
}

/// Composing phase advances: `m + n` ticks are `m` ticks then `n`.
pub proof fn lemma_advance_n_add(o: Oscillator, m: nat, n: nat)
    ensures
        o.spec_advanced_n(m + n) == o.spec_advanced_n(m).spec_advanced_n(n),
    decreases n,
{
    if n > 0 {
        lemma_advance_n_add(o, m, (n - 1) as nat);
    }
}

/// Law: under the conditions of `lemma_periodic_cycle` the emitted
/// sample sequence is periodic: the output after `n + sample_rate /
/// frequency` ticks equals the output after `n` ticks, for every `n`.
pub proof fn lemma_output_periodic(o: Oscillator, n: nat)
    requires
        o.wf(),
        o.current_sample_jump == ONE_Q16,
        o.current_sample_index < o.spec_period_q16(),
        o.spec_period_q16() % (ONE_Q16 as int) == 0,
    ensures
        o.spec_advanced_n(n + (o.spec_period_q16() / (ONE_Q16 as int)) as nat).spec_output()
            == o.spec_advanced_n(n).spec_output(),
{
    let cycle = (o.spec_period_q16() / (ONE_Q16 as int)) as nat;
    lemma_periodic_cycle(o);
    lemma_advance_n_add(o, cycle, n);
}

/// Law: a playing sine generator's sample sign follows the half-turn
/// of its angle — nonnegative while the angle `phase * f / sample_rate`
/// lies in the first half of its turn, nonpositive in the second — so
/// the output can cross zero only at half-turn boundaries of the
/// angle. Together with `lemma_output_periodic`, the zero crossings of
/// an emitted sine recur with the period `sample_rate / frequency`
/// samples.
pub proof fn lemma_sine_sign_follows_angle(o: Oscillator)
    requires
        o.wf(),
        o.is_on,
        o.waveform == Waveform::Sine,
    ensures
        o.spec_angle_q32(o.frequency_hz as int) < HALF_TURN_Q32 ==> o.spec_output() >= 0,
        o.spec_angle_q32(o.frequency_hz as int) >= HALF_TURN_Q32 ==> o.spec_output() <= 0,
{
    let angle = o.spec_angle_q32(o.frequency_hz as int);
    vstd::arithmetic::div_mod::lemma_mod_bound(
        o.current_sample_index * (o.frequency_hz as int) / (o.sample_rate as int),
        TURN_Q32 as int,
    );
    lemma_sine_sign(angle);
}

/// Law: above the Nyquist frequency the additive waveforms are silent.
/// The first harmonic already exceeds Nyquist, so the harmonic sum is
/// empty and the output is exactly zero, whatever the phase.
pub proof fn lemma_additive_silent_above_nyquist(o: Oscillator, step: int, expo: int)
    requires
        o.wf(),
        1 <= step,
        o.frequency_hz > o.spec_nyquist_q16(),
    ensures
        o.spec_harmonics(step, expo, 1) == 0,
{
    vstd::arithmetic::mul::lemma_mul_basics(o.frequency_hz as int);
}

/// Law: a generator set to square, saw or triangle whose fundamental
/// exceeds the Nyquist frequency emits exactly zero.
pub proof fn lemma_waveform_silent_above_nyquist(o: Oscillator)
    requires
        o.wf(),
        o.waveform != Waveform::Sine,
        o.frequency_hz > o.spec_nyquist_q16(),
    ensures
        o.spec_output() == 0,
{
    match o.waveform {
        Waveform::Sine => {},
        Waveform::Square => lemma_additive_silent_above_nyquist(o, 2, 1),
        Waveform::Saw => lemma_additive_silent_above_nyquist(o, 1, 1),
        Waveform::Triangle => lemma_additive_silent_above_nyquist(o, 2, 2),
    }
}

} // verus!
