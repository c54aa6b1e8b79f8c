//! The instruction vocabulary an instrument accepts.
//!
//! Payloads that the source design carries as real numbers are Q16
//! fixed-point values here: frequencies and rates are Q16 Hz, depths
//! and sustain levels are Q16 gains, and envelope durations are Q16
//! seconds. An instruction's identity for scheduling purposes is its
//! tag alone: two instructions of the same tag fill the same slot at a
//! given coordinate, whatever their payloads.

use vstd::prelude::*;
use crate::instrument::oscillator::Waveform;

verus! {

/// A boolean gate signal.
#[derive(Copy, Clone, Eq, PartialEq, Structural, Debug)]
pub enum Status {
    On,
    Off,
}

/// The tag of an instruction: its variant, independent of any payload.
#[derive(Copy, Clone, Eq, PartialEq, Structural, Debug)]
pub enum InstructionTag {
    Waveform,
    Frequency,
    Note,
    State,
    Vibrato,
    VibratoSettings,
    AdsrSettings,
}

/// One instruction for an instrument.
#[derive(Copy, Clone, Eq, PartialEq, Structural, Debug)]
pub enum InstructionKind {
    /// Switch the generator to a waveform kind.
    Waveform(Waveform),
    /// Set the target frequency, Q16 Hz.
    Frequency(u32),
    /// Set the frequency from a note number, in semitones; note 60 is
    /// the 440 Hz reference.
    Note(u16),
    /// Gate the voice on or off.
    State(Status),
    /// Gate the vibrato on or off.
    Vibrato(Status),
    /// Set the vibrato rate (Q16 Hz) and depth (Q16 gain).
    VibratoSettings { rate: u32, depth: u32 },
    /// Replace the envelope parameters: attack, decay and release are
    /// Q16 seconds, sustain is a Q16 gain.
    AdsrSettings { a: u32, d: u32, s: u32, r: u32 },
}

impl InstructionKind {
    /// The variant tag of this instruction.
    pub open spec fn spec_tag(self) -> InstructionTag {
        match self {
            InstructionKind::Waveform(_) => InstructionTag::Waveform,
            InstructionKind::Frequency(_) => InstructionTag::Frequency,
            InstructionKind::Note(_) => InstructionTag::Note,
            InstructionKind::State(_) => InstructionTag::State,
            InstructionKind::Vibrato(_) => InstructionTag::Vibrato,
            InstructionKind::VibratoSettings { .. } => InstructionTag::VibratoSettings,
            InstructionKind::AdsrSettings { .. } => InstructionTag::AdsrSettings,
        }
    }

    /// Two instructions fill the same schedule slot when their tags
    /// agree, whatever their payloads.
    pub open spec fn spec_same_tag(self, other: InstructionKind) -> bool {
        self.spec_tag() == other.spec_tag()
    }

    pub fn tag(&self) -> (t: InstructionTag)
        ensures
            t == self.spec_tag(),
    {
        match self {
            InstructionKind::Waveform(_) => InstructionTag::Waveform,
            InstructionKind::Frequency(_) => InstructionTag::Frequency,
            InstructionKind::Note(_) => InstructionTag::Note,
            InstructionKind::State(_) => InstructionTag::State,
            InstructionKind::Vibrato(_) => InstructionTag::Vibrato,
            InstructionKind::VibratoSettings { .. } => InstructionTag::VibratoSettings,
            InstructionKind::AdsrSettings { .. } => InstructionTag::AdsrSettings,
        }
    }

    pub fn same_tag(&self, other: &InstructionKind) -> (r: bool)
        ensures
            r == self.spec_same_tag(*other),
    {
        self.tag() == other.tag()
    }
}

} // verus!
