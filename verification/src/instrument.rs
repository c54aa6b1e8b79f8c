//! The polymorphic instrument: a closed set of voice kinds, each able
//! to produce one stereo sample per tick, accept a sample rate and
//! accept an instruction. The instruction vocabulary is closed, so a
//! closed variant type gives exhaustive dispatch.

use vstd::prelude::*;

pub mod adsr;
pub mod oscillator;
pub mod synth;
pub mod vibrato;

use crate::fixed::MAX_SAMPLE_RATE;
use crate::instruction::InstructionKind;
use crate::instrument::oscillator::{Oscillator, SAMPLE_LIMIT};
use crate::instrument::synth::Synth;

verus! {

/// One independently ticking sound source: a plain oscillator voice or
/// a composite synth voice.
pub enum Instrument {
    Oscillator(Oscillator),
    Synth(Synth),
}

impl Instrument {
    /// Structural invariant, independent of any sample rate: the voice
    /// never holds a nonpositive frequency or an out-of-range gain.
    pub open spec fn wf(self) -> bool {
        match self {
            Instrument::Oscillator(o) => 1 <= o.frequency_hz,
            Instrument::Synth(s) => s.wf(),
        }
    }

    /// The voice is playable: well formed with its sample rates set.
    pub open spec fn ready(self) -> bool {
        match self {
            Instrument::Oscillator(o) => o.wf(),
            Instrument::Synth(s) => s.ready(),
        }
    }

    /// The voice after one tick.
    pub open spec fn spec_tick_state(self) -> Instrument {
        match self {
            Instrument::Oscillator(o) => Instrument::Oscillator(o.spec_advanced()),
            Instrument::Synth(s) => Instrument::Synth(s.spec_tick_state()),
        }
    }

    /// The stereo pair one tick emits: an oscillator voice duplicates
    /// its mono sample onto both channels.
    pub open spec fn spec_tick_out(self) -> (i64, i64) {
        match self {
            Instrument::Oscillator(o) => {
                let s = o.spec_advanced().spec_output() as i64;
                (s, s)
            },
            Instrument::Synth(s) => s.spec_tick_out(),
        }
    }

    /// The voice after an instruction.
    pub open spec fn spec_applied(self, instruction: InstructionKind) -> Instrument {
        match self {
            Instrument::Oscillator(o) => Instrument::Oscillator(o.spec_applied(instruction)),
            Instrument::Synth(s) => Instrument::Synth(s.spec_applied(instruction)),
        }
    }

    /// Which instructions the voice accepts.
    pub open spec fn spec_accepts(self, instruction: InstructionKind) -> bool {
        match self {
            Instrument::Oscillator(_) => Oscillator::spec_accepts(instruction),
            Instrument::Synth(_) => true,
        }
    }

    /// The voice with a device sample rate set on every component.
    pub open spec fn spec_rated(self, sample_rate: u32) -> Instrument {
        match self {
            Instrument::Oscillator(o) => Instrument::Oscillator(
                oscillator::Oscillator { sample_rate, ..o },
            ),
            Instrument::Synth(s) => Instrument::Synth(
                Synth {
                    oscillator: oscillator::Oscillator { sample_rate, ..s.oscillator },
                    adsr: adsr::Adsr { sample_rate, ..s.adsr },
                    vibrato: vibrato::Vibrato { sample_rate, ..s.vibrato },
                    ..s
                },
            ),
        }
    }

    /// Produce one stereo sample and advance the voice.
    pub fn tick(&mut self) -> (r: (i64, i64))
        requires
            old(self).ready(),
        ensures
            *final(self) == old(self).spec_tick_state(),
            final(self).ready(),
            r == old(self).spec_tick_out(),
            -SAMPLE_LIMIT <= r.0 <= SAMPLE_LIMIT,
            -SAMPLE_LIMIT <= r.1 <= SAMPLE_LIMIT,
    {
        match self {
            Instrument::Oscillator(o) => {
                let x = o.tick();
                (x, x)
            },
            Instrument::Synth(s) => s.tick(),
        }
    }

    /// Propagate a device sample rate; must happen before the first
    /// tick and again whenever the output device changes rate.
    pub fn set_sample_rate(&mut self, sample_rate: u32)
        requires
            1 <= sample_rate <= MAX_SAMPLE_RATE,
        ensures
            *final(self) == old(self).spec_rated(sample_rate),
    {
        match self {
            Instrument::Oscillator(o) => o.set_sample_rate(sample_rate),
            Instrument::Synth(s) => s.set_sample_rate(sample_rate),
        }
    }

    /// Apply one instruction. A voice that has no behavior for the
    /// instruction reports it and stays unchanged; this is never fatal.
    pub fn apply_instruction(&mut self, instruction: InstructionKind) -> (r: Result<
        (),
        &'static str,
    >)
        ensures
            *final(self) == old(self).spec_applied(instruction),
            r is Ok <==> old(self).spec_accepts(instruction),
            old(self).ready() ==> final(self).ready(),
            old(self).wf() ==> final(self).wf(),
    {
        match self {
            Instrument::Oscillator(o) => o.apply_instruction(instruction),
            Instrument::Synth(s) => s.apply_instruction(instruction),
        }
    }

    /// A rated well-formed voice is playable.
    pub proof fn lemma_rated_ready(self, sample_rate: u32)
        requires
            self.wf(),
            1 <= sample_rate <= crate::fixed::MAX_SAMPLE_RATE,
        ensures
            self.spec_rated(sample_rate).ready(),
    {
    }
}

} // verus!
