//! The sequencer: the ordered instrument list, the instruction
//! scheduler and a monotonic tick counter.
//!
//! Each audio frame, while playing, the sequencer pulls the
//! instructions due at the current tick for every instrument, applies
//! them, advances the tick (saturating, so far-past instructions are
//! never falsely re-triggered by a wrap), ticks every instrument and
//! mixes the outputs into one attenuated stereo pair. Paused, a frame
//! is silence and has no side effect at all.

use vstd::prelude::*;
use crate::fixed::MAX_SAMPLE_RATE;
use crate::instruction::InstructionKind;
use crate::instruction_handler::InstructionHandler;
use crate::instrument::Instrument;
use crate::instrument::oscillator::{Oscillator, SAMPLE_LIMIT};
use crate::instrument::synth::Synth;

verus! {

/// Most instruments a sequencer drives; keeps the mixed sum far from
/// the edge of the sample type.
pub const MAX_INSTRUMENTS: usize = 16;

/// What the executable truncating division by eight computes.
pub open spec fn spec_div8(x: int) -> int {
    if x >= 0 {
        x / 8
    } else {
        -((-x) / 8)
    }
}

/// An instrument after a sequence of instructions, applied in order;
/// an unsupported one leaves it unchanged, exactly as the executable
/// apply loop swallows the error.
pub open spec fn spec_apply_seq(inst: Instrument, s: Seq<InstructionKind>, n: int) -> Instrument
    decreases n,
{
    if n <= 0 {
        inst
    } else {
        spec_apply_seq(inst, s, n - 1).spec_applied(s[n - 1])
    }
}

/// The summed stereo output of the first `n` instruments, each ticked
/// once.
pub open spec fn spec_mix(s: Seq<Instrument>, n: int) -> (int, int)
    decreases n,
{
    if n <= 0 {
        (0, 0)
    } else {
        let prev = spec_mix(s, n - 1);
        let out = s[n - 1].spec_tick_out();
        (prev.0 + out.0, prev.1 + out.1)
    }
}

/// The transport and mixing state for one session.
pub struct App {
    pub instruments: Vec<Instrument>,
    pub instructions: InstructionHandler,
    /// Beat delay in milliseconds; kept for the BPM transform, not yet
    /// consulted by tick advancement, which moves one tick per sample.
    pub delay: u16,
    pub tick: u128,
    pub playing: bool,
}

impl App {
    /// Structural invariant: a well-formed scheduler and a small,
    /// fixed instrument list.
    pub open spec fn wf(self) -> bool {
        &&& self.instructions.wf()
        &&& self.instruments@.len() <= MAX_INSTRUMENTS
        &&& forall|i: int|
            0 <= i < self.instruments@.len() ==> (#[trigger] self.instruments@[i]).wf()
    }

    /// Playable: well formed, with every instrument's sample rates
    /// set.
    pub open spec fn ready(self) -> bool {
        &&& self.wf()
        &&& forall|i: int|
            0 <= i < self.instruments@.len() ==> (#[trigger] self.instruments@[i]).ready()
    }


    /// Every instrument after the instructions due at the current
    /// tick have been applied to it.
    pub open spec fn spec_applied_all(self) -> Seq<Instrument> {
        Seq::new(
            self.instruments@.len(),
            |i: int|
                {
                    let due = self.instructions.pending(i as u128, self.tick);
                    spec_apply_seq(self.instruments@[i], due, due.len() as int)
                },
        )
    }

    /// Every instrument of a list, ticked once.
    pub open spec fn spec_ticked_all(s: Seq<Instrument>) -> Seq<Instrument> {
        Seq::new(s.len(), |i: int| s[i].spec_tick_state())
    }

    /// The stereo pair one playing frame returns: the applied
    /// instruments' outputs summed and attenuated by one eighth for
    /// headroom.
    pub open spec fn spec_frame_out(self) -> (int, int) {
        let mixed = spec_mix(self.spec_applied_all(), self.instruments@.len() as int);
        (spec_div8(mixed.0), spec_div8(mixed.1))
    }

    /// A fresh sequencer: exactly one fresh synth voice then one fresh
    /// oscillator voice, an empty schedule, a 125 ms beat delay, tick
    /// zero, paused.
    pub fn new() -> (a: App)
        ensures
            a.wf(),
            a.instruments@ == seq![
                Instrument::Synth(Synth::spec_new()),
                Instrument::Oscillator(Oscillator::spec_default()),
            ],
            forall|target: u128, time: u128|
                (#[trigger] a.instructions.pending(target, time)).len() == 0,
            a.delay == 125,
            a.tick == 0,
            !a.playing,
    {
        let mut instruments: Vec<Instrument> = Vec::new();
        instruments.push(Instrument::Synth(Synth::new()));
        instruments.push(Instrument::Oscillator(Oscillator::default()));
        proof {
            assert(instruments@ =~= seq![
                Instrument::Synth(Synth::spec_new()),
                Instrument::Oscillator(Oscillator::spec_default()),
            ]);
        }
        App {
            instruments,
            instructions: InstructionHandler::new(),
            delay: 125,
            tick: 0,
            playing: false,
        }
    }

    pub fn get_delay(&self) -> (d: u16)
        ensures
            d == self.delay,
    {
        self.delay
    }

    pub fn set_delay(&mut self, delay: u16)
        ensures
            *final(self) == (App { delay, ..*old(self) }),
    {
        self.delay = delay;
    }

    /// The beat delay as beats per minute, by the `15000 / delay`
    /// convenience transform.
    pub fn get_bpm(&self) -> (bpm: u16)
        requires
            self.delay > 0,
        ensures
            bpm == 15000u16 / self.delay,
    {
        15000 / self.delay
    }

    pub fn set_bpm(&mut self, bpm: u16)
        requires
            bpm > 0,
        ensures
            *final(self) == (App { delay: (15000u16 / bpm) as u16, ..*old(self) }),
    {
        self.delay = 15000 / bpm;
    }

    /// Propagate a device sample rate to every instrument; must run
    /// before the first frame and again when the device rate changes.
    pub fn set_sample_rates(&mut self, sample_rate: u32)
        requires
            old(self).wf(),
            1 <= sample_rate <= MAX_SAMPLE_RATE,
        ensures
            final(self).ready(),
            final(self).instruments@.len() == old(self).instruments@.len(),
            forall|i: int|
                0 <= i < old(self).instruments@.len() ==> final(self).instruments@[i] == (
                #[trigger] old(self).instruments@[i]).spec_rated(sample_rate),
            final(self).instructions == old(self).instructions,
            final(self).delay == old(self).delay,
            final(self).tick == old(self).tick,
            final(self).playing == old(self).playing,
    {
        let n = self.instruments.len();
        let mut i: usize = 0;
        while i < n
            invariant
                n == self.instruments@.len(),
                i <= n,
                1 <= sample_rate <= MAX_SAMPLE_RATE,
                self.instruments@.len() == old(self).instruments@.len(),
                forall|k: int| i <= k < n ==> self.instruments@[k] == old(self).instruments@[k],
                forall|k: int|
                    0 <= k < i ==> self.instruments@[k] == (#[trigger] old(
                        self,
                    ).instruments@[k]).spec_rated(sample_rate),
                self.instructions == old(self).instructions,
                self.delay == old(self).delay,
                self.tick == old(self).tick,
                self.playing == old(self).playing,
            decreases n - i,
        {
            self.instruments[i].set_sample_rate(sample_rate);
            i = i + 1;
        }
        proof {
            assert forall|i_: int|
                0 <= i_ < self.instruments@.len() implies (
            #[trigger] self.instruments@[i_]).ready() by {
                assert(self.instruments@[i_] == old(self).instruments@[i_].spec_rated(sample_rate));
                old(self).instruments@[i_].lemma_rated_ready(sample_rate);
            }
            assert forall|i_: int|
                0 <= i_ < self.instruments@.len() implies (#[trigger] self.instruments@[i_]).wf() by {
                assert(self.instruments@[i_].ready());
            }
        }
    }

    pub fn play(&mut self)
        ensures
            *final(self) == (App { playing: true, ..*old(self) }),
    {
        self.playing = true;
    }

    pub fn pause(&mut self)
        ensures
            *final(self) == (App { playing: false, ..*old(self) }),
    {
        self.playing = false;
    }

    /// Rewind the transport to tick zero; scheduled instructions stay.
    pub fn reset(&mut self)
        ensures
            *final(self) == (App { tick: 0, ..*old(self) }),
    {
        self.tick = 0;
    }

    /// One audio frame. Paused, this returns silence and touches
    /// nothing — the only side-effect-free path. Playing, it applies
    /// every instruction due at the current tick (an unsupported one
    /// is swallowed, never fatal), advances the tick saturating at its
    /// maximum, ticks every instrument and returns the attenuated
    /// stereo sum.
    pub fn tick_all(&mut self) -> (r: (i64, i64))
        requires
            old(self).ready(),
        ensures
            final(self).ready(),
            !old(self).playing ==> r == (0i64, 0i64) && *final(self) == *old(self),
            old(self).playing ==> {
                &&& final(self).instruments@ == App::spec_ticked_all(old(self).spec_applied_all())
                &&& final(self).instructions == old(self).instructions
                &&& final(self).tick == (if old(self).tick == u128::MAX {
                    u128::MAX as int
                } else {
                    old(self).tick + 1
                })
                &&& final(self).delay == old(self).delay
                &&& final(self).playing
                &&& r.0 == old(self).spec_frame_out().0
                &&& r.1 == old(self).spec_frame_out().1
            },
    {
        if !self.playing {
            return (0, 0);
        }
        let ghost applied = self.spec_applied_all();
        let n = self.instruments.len();
        let mut i: usize = 0;
        while i < n
            invariant
                old(self).ready(),
                old(self).playing,
                n == self.instruments@.len(),
                i <= n,
                self.instruments@.len() == old(self).instruments@.len(),
                applied == old(self).spec_applied_all(),
                forall|k: int| i <= k < n ==> self.instruments@[k] == old(self).instruments@[k],
                forall|k: int| 0 <= k < i ==> self.instruments@[k] == applied[k],
                forall|k: int| 0 <= k < n ==> (#[trigger] self.instruments@[k]).ready(),
                self.instructions == old(self).instructions,
                self.delay == old(self).delay,
                self.tick == old(self).tick,
                self.playing,
            decreases n - i,
        {
            let due = self.instructions.get(i as u128, self.tick);
            let ghost inst0 = self.instruments@[i as int];
            let m = due.len();
            let mut j: usize = 0;
            while j < m
                invariant
                    m == due@.len(),
                    j <= m,
                    i < n,
                    n == self.instruments@.len(),
                    self.instruments@.len() == old(self).instruments@.len(),
                    self.instruments@[i as int] == spec_apply_seq(inst0, due@, j as int),
                    inst0.ready(),
                    forall|k: int| i < k < n ==> self.instruments@[k] == old(self).instruments@[k],
                    forall|k: int| 0 <= k < i ==> self.instruments@[k] == applied[k],
                    forall|k: int|
                        0 <= k < self.instruments@.len() ==> (
                        #[trigger] self.instruments@[k]).ready(),
                    self.instructions == old(self).instructions,
                    self.delay == old(self).delay,
                    self.tick == old(self).tick,
                    self.playing,
                decreases m - j,
            {
                let _ = self.instruments[i].apply_instruction(due[j]);
                j = j + 1;
            }
            proof {
                assert(due@ == old(self).instructions.pending(i as u128, old(self).tick));
                assert(applied[i as int] == spec_apply_seq(inst0, due@, due@.len() as int));
            }
            i = i + 1;
        }
        proof {
            assert(self.instruments@ =~= applied);
        }
        if self.tick != u128::MAX {
            self.tick = self.tick + 1;
        }
        let ghost tick1 = self.tick;
        let mut left: i64 = 0;
        let mut right: i64 = 0;
        let mut k: usize = 0;
        while k < n
            invariant
                old(self).ready(),
                n == self.instruments@.len(),
                n == old(self).instruments@.len(),
                n <= MAX_INSTRUMENTS,
                k <= n,
                self.tick == tick1,
                forall|l: int| k <= l < n ==> self.instruments@[l] == applied[l],
                forall|l: int| 0 <= l < n ==> (#[trigger] self.instruments@[l]).ready(),
                forall|l: int|
                    0 <= l < k ==> self.instruments@[l] == (#[trigger] applied[l]).spec_tick_state(),
                left == spec_mix(applied, k as int).0,
                right == spec_mix(applied, k as int).1,
                -((SAMPLE_LIMIT as int) * (k as int)) <= left <= (SAMPLE_LIMIT as int) * (
                k as int),
                -((SAMPLE_LIMIT as int) * (k as int)) <= right <= (SAMPLE_LIMIT as int) * (
                k as int),
                self.instructions == old(self).instructions,
                self.delay == old(self).delay,
                self.playing,
            decreases n - k,
        {
            let out = self.instruments[k].tick();
            proof {
                assert((SAMPLE_LIMIT as int) * (k as int + 1) == (SAMPLE_LIMIT as int) * (
                k as int) + SAMPLE_LIMIT);
            }
            left = left + out.0;
            right = right + out.1;
            k = k + 1;
        }
        proof {
            assert(App::spec_ticked_all(applied) =~= self.instruments@);
        }
        let lo: i64 = if left >= 0 {
            left / 8
        } else {
            -((-left) / 8)
        };
        let ro: i64 = if right >= 0 {
            right / 8
        } else {
            -((-right) / 8)
        };
        (lo, ro)
    }
}

} // verus!

