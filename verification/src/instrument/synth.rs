//! The composite synth voice: one generator, one envelope, one vibrato
//! and a fixed stereo volume pair.

use vstd::prelude::*;
use crate::fixed::{spec_scale_q16, scale_q16, spec_clamp, ONE_Q16, MAX_SAMPLE_RATE};
use crate::instruction::{InstructionKind, Status};
use crate::instrument::adsr::{Adsr, AdsrState};
use crate::instrument::oscillator::{Oscillator, Waveform, SAMPLE_LIMIT, spec_note_frequency, note_frequency};
use crate::instrument::vibrato::Vibrato;

verus! {

/// A synth voice. Each tick it pulls the vibrato factor, writes it as
/// the generator's per-tick phase increment, shapes the generator
/// sample by the envelope gain and scales by the volume pair.
pub struct Synth {
    pub oscillator: Oscillator,
    pub adsr: Adsr,
    pub vibrato: Vibrato,
    /// Left and right volume, Q16 gains of at most one.
    pub volume: (u32, u32),
}

impl Synth {
    /// Structural invariant: the generator frequency is positive, the
    /// sustain level is a gain, and the volumes are gains.
    pub open spec fn wf(self) -> bool {
        &&& 1 <= self.oscillator.frequency_hz
        &&& self.adsr.wf()
        &&& self.volume.0 <= ONE_Q16
        &&& self.volume.1 <= ONE_Q16
    }

    /// The voice is playable: well formed, with device sample rates set
    /// on the generator and the vibrato.
    pub open spec fn ready(self) -> bool {
        &&& self.wf()
        &&& self.oscillator.wf()
        &&& self.vibrato.wf()
    }

    /// The per-tick vibrato factor, forced into the range a phase
    /// increment can hold.
    pub open spec fn spec_jump(self) -> u32 {
        spec_clamp(self.vibrato.spec_factor(), 0, u32::MAX as int) as u32
    }

    /// The generator as it is ticked: with the vibrato factor written
    /// as its per-tick phase increment.
    pub open spec fn spec_driven_oscillator(self) -> Oscillator {
        Oscillator { current_sample_jump: self.spec_jump(), ..self.oscillator }
    }

    /// The voice after one tick: the driven generator advances, the
    /// envelope and the vibrato each advance.
    pub open spec fn spec_tick_state(self) -> Synth {
        Synth {
            oscillator: self.spec_driven_oscillator().spec_advanced(),
            adsr: self.adsr.spec_ticked(),
            vibrato: self.vibrato.spec_ticked(),
            ..self
        }
    }

    /// The stereo pair the voice emits: the advanced generator's
    /// sample, shaped by the envelope gain, scaled by each volume.
    pub open spec fn spec_tick_out(self) -> (i64, i64) {
        let shaped = spec_scale_q16(
            self.adsr.spec_gain_at(self.adsr.frame as int),
            self.spec_driven_oscillator().spec_advanced().spec_output(),
        );
        (
            spec_scale_q16(self.volume.0 as int, shaped) as i64,
            spec_scale_q16(self.volume.1 as int, shaped) as i64,
        )
    }

    /// The fresh voice: a triangle generator gated on at 220 Hz, a
    /// 0.1 s / 0.5 s / 0.5 / 0.3 s envelope, a gentle 6 Hz vibrato and
    /// full volume on both channels. Sample rates are still unset.
    pub open spec fn spec_new() -> Synth {
        Synth {
            oscillator: Oscillator {
                waveform: Waveform::Triangle,
                is_on: true,
                ..Oscillator::spec_default()
            },
            adsr: Adsr {
                state: AdsrState::Off,
                sample_rate: 0,
                frame: 0,
                attack: 6554,
                decay: 32768,
                sustain: 32768,
                release: 19661,
            },
            vibrato: Vibrato {
                rate: 393216,
                depth: 655,
                sample_rate: 0,
                current_phase: 0,
                is_on: false,
            },
            volume: ((ONE_Q16 as u32), (ONE_Q16 as u32)),
        }
    }

    pub fn new() -> (s: Synth)
        ensures
            s == Synth::spec_new(),
            s.wf(),
    {
        let mut osc = Oscillator::default();
        osc.is_on = true;
        osc.waveform = Waveform::Triangle;
        Synth {
            oscillator: osc,
            adsr: Adsr::new(6554, 32768, 32768, 19661),
            vibrato: Vibrato::new(393216, 655),
            volume: (ONE_Q16 as u32, ONE_Q16 as u32),
        }
    }

    /// Propagate a device sample rate to every owned component.
    pub fn set_sample_rate(&mut self, sample_rate: u32)
        requires
            1 <= sample_rate <= MAX_SAMPLE_RATE,
        ensures
            *final(self) == (Synth {
                oscillator: Oscillator { sample_rate, ..old(self).oscillator },
                adsr: Adsr { sample_rate, ..old(self).adsr },
                vibrato: Vibrato { sample_rate, ..old(self).vibrato },
                ..*old(self)
            }),
            old(self).wf() ==> final(self).ready(),
    {
        self.oscillator.sample_rate = sample_rate;
        self.adsr.set_sample_rate(sample_rate);
        self.vibrato.set_sample_rate(sample_rate);
    }

    /// One audio tick: vibrato factor into the generator's phase
    /// increment, then the generator sample times the envelope gain,
    /// scaled by the volume pair.
    pub fn tick(&mut self) -> (r: (i64, i64))
        requires
            old(self).ready(),
        ensures
            *final(self) == old(self).spec_tick_state(),
            final(self).ready(),
            r == old(self).spec_tick_out(),
            -SAMPLE_LIMIT <= r.0 <= SAMPLE_LIMIT,
            -SAMPLE_LIMIT <= r.1 <= SAMPLE_LIMIT,
    {
        let factor: i64 = self.vibrato.tick();
        let jump: u32 = if factor < 0 {
            0
        } else if factor > u32::MAX as i64 {
            u32::MAX
        } else {
            factor as u32
        };
        self.oscillator.current_sample_jump = jump;
        let raw: i64 = self.oscillator.tick();
        let gain: u32 = self.adsr.tick();
        let shaped: i64 = scale_q16(gain as u64, raw);
        (scale_q16(self.volume.0 as u64, shaped), scale_q16(self.volume.1 as u64, shaped))
    }

    /// Which voice state an instruction leads to: waveform, frequency
    /// and note retune the oscillator; a state instruction presses or
    /// releases the envelope; the vibrato instructions switch or retune
    /// the vibrato; new envelope parameters replace the envelope
    /// wholesale, an explicit reset that loses its phase, frame and
    /// sample rate.
    pub open spec fn spec_applied(self, instruction: InstructionKind) -> Synth {
        match instruction {
            InstructionKind::Waveform(w) => Synth {
                oscillator: Oscillator { waveform: w, ..self.oscillator },
                ..self
            },
            InstructionKind::State(s) => Synth {
                adsr: Adsr {
                    state: if s is On {
                        AdsrState::Pressed
                    } else {
                        AdsrState::Released
                    },
                    frame: 0,
                    ..self.adsr
                },
                ..self
            },
            InstructionKind::Vibrato(s) => Synth {
                vibrato: Vibrato { is_on: s is On, ..self.vibrato },
                ..self
            },
            InstructionKind::Frequency(f) => Synth {
                oscillator: Oscillator {
                    frequency_hz: if f < 1 {
                        1
                    } else {
                        f
                    },
                    ..self.oscillator
                },
                ..self
            },
            InstructionKind::Note(n) => Synth {
                oscillator: Oscillator {
                    frequency_hz: spec_note_frequency(n as int) as u32,
                    ..self.oscillator
                },
                ..self
            },
            InstructionKind::VibratoSettings { rate, depth } => Synth {
                vibrato: Vibrato { rate, depth, ..self.vibrato },
                ..self
            },
            InstructionKind::AdsrSettings { a, d, s, r } => Synth {
                adsr: Adsr {
                    state: AdsrState::Off,
                    sample_rate: 0,
                    frame: 0,
                    attack: a,
                    decay: d,
                    sustain: spec_clamp(s as int, 0, ONE_Q16 as int) as u32,
                    release: r,
                },
                ..self
            },
        }
    }

    /// Apply one instruction; a synth voice accepts the whole
    /// vocabulary, so this never fails.
    pub fn apply_instruction(&mut self, instruction: InstructionKind) -> (r: Result<
        (),
        &'static str,
    >)
        ensures
            *final(self) == old(self).spec_applied(instruction),
            r is Ok,
            old(self).wf() ==> final(self).wf(),
            old(self).ready() ==> final(self).ready(),
    {
        match instruction {
            InstructionKind::Waveform(w) => self.oscillator.waveform = w,
            InstructionKind::State(s) => match s {
                Status::On => self.adsr.press(),
                Status::Off => self.adsr.release(),
            },
            InstructionKind::Vibrato(s) => match s {
                Status::On => self.vibrato.set_state(true),
                Status::Off => self.vibrato.set_state(false),
            },
            InstructionKind::Frequency(f) => self.oscillator.frequency_hz = if f < 1 {
                1
            } else {
                f
            },
            InstructionKind::Note(u) => self.oscillator.frequency_hz = note_frequency(u),
            InstructionKind::VibratoSettings { rate, depth } => self.vibrato.set_rate_and_depth(
                rate,
                depth,
            ),
            InstructionKind::AdsrSettings { a, d, s, r } => self.adsr = Adsr::new(a, d, s, r),
        }
        Ok(())
    }
}

} // verus!
