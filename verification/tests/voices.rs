use fsynth::fixed::{sine_q16, scale_q16, ONE_Q16};
use fsynth::instruction::{InstructionKind, Status};
use fsynth::instrument::adsr::Adsr;
use fsynth::instrument::oscillator::{note_frequency, Oscillator, Waveform};
use fsynth::instrument::synth::Synth;
use fsynth::instrument::vibrato::Vibrato;

#[test]
fn sine_quarter_points() {
    assert_eq!(sine_q16(0), 0);
    assert_eq!(sine_q16(1 << 30), ONE_Q16);
    assert_eq!(sine_q16(1 << 31), 0);
    assert_eq!(sine_q16(3 << 30), -ONE_Q16);
}

#[test]
fn scaling_truncates_toward_zero() {
    assert_eq!(scale_q16(32768, 100), 50);
    assert_eq!(scale_q16(32768, -100), -50);
    assert_eq!(scale_q16(65536, 12345), 12345);
    assert_eq!(scale_q16(0, 12345), 0);
}

#[test]
fn additive_waveforms_silent_above_nyquist() {
    // 30000 Hz against a 48 kHz device: the fundamental is over Nyquist.
    for waveform in [Waveform::Square, Waveform::Saw, Waveform::Triangle] {
        let mut osc = Oscillator::default();
        osc.set_sample_rate(48000);
        osc.frequency_hz = 30000 * 65536;
        osc.is_on = true;
        osc.set_waveform(waveform);
        for _ in 0..64 {
            assert_eq!(osc.tick(), 0);
        }
    }
}

#[test]
fn sine_bounded_and_periodic() {
    // 512 Hz against a 4096 Hz device: exactly eight samples per cycle.
    let mut osc = Oscillator::default();
    osc.set_sample_rate(4096);
    osc.frequency_hz = 512 * 65536;
    osc.is_on = true;
    let samples: Vec<i64> = (0..32).map(|_| osc.tick()).collect();
    for s in &samples {
        assert!(-ONE_Q16 <= *s && *s <= ONE_Q16);
    }
    for t in 0..24 {
        assert_eq!(samples[t], samples[t + 8]);
    }
}

#[test]
fn zero_crossings_match_the_period() {
    // Eight samples per cycle: zeros at every half period, a positive
    // arch then a negative arch between them.
    let mut osc = Oscillator::default();
    osc.set_sample_rate(4096);
    osc.frequency_hz = 512 * 65536;
    osc.is_on = true;
    for t in 1..=32u64 {
        let s = osc.tick();
        match t % 8 {
            0 | 4 => assert_eq!(s, 0),
            1 | 2 | 3 => assert!(s > 0),
            _ => assert!(s < 0),
        }
    }
}

#[test]
fn envelope_follows_its_phases() {
    // One-second attack, decay and release at 100 Hz, sustain one half.
    let mut env = Adsr::new(65536, 65536, 32768, 65536);
    env.set_sample_rate(100);
    for _ in 0..10 {
        assert_eq!(env.tick(), 0);
    }
    env.press();
    let mut last = env.tick();
    assert_eq!(last, 0);
    for _ in 1..100 {
        let g = env.tick();
        assert!(g >= last);
        assert!(g < 65536);
        last = g;
    }
    // Attack and decay both last 100 frames; beyond them the gain sits
    // exactly at the sustain level.
    for _ in 0..120 {
        env.tick();
    }
    for _ in 0..50 {
        assert_eq!(env.tick(), 32768);
    }
    env.release();
    let mut last = env.tick();
    assert!(last <= 32768);
    for _ in 1..100 {
        let g = env.tick();
        assert!(g <= last);
        last = g;
    }
    for _ in 0..50 {
        assert_eq!(env.tick(), 0);
    }
    env.press();
    env.stop();
    for _ in 0..10 {
        assert_eq!(env.tick(), 0);
    }
}

#[test]
fn envelope_new_clamps_sustain() {
    let env = Adsr::new(0, 0, 2 * 65536 as u32, 0);
    assert_eq!(env.sustain, 65536);
}

#[test]
fn vibrato_disabled_is_identity() {
    let mut vib = Vibrato::new(6 * 65536, 655);
    vib.set_sample_rate(48000);
    for _ in 0..100 {
        assert_eq!(vib.tick(), ONE_Q16);
    }
    assert_eq!(vib.current_phase, 0);
}

#[test]
fn vibrato_enabled_stays_within_depth() {
    let mut vib = Vibrato::new(6 * 65536, 655);
    vib.set_sample_rate(48000);
    vib.set_state(true);
    let mut moved = false;
    for _ in 0..20000 {
        let f = vib.tick();
        assert!(ONE_Q16 - 655 <= f && f <= ONE_Q16 + 655);
        if f != ONE_Q16 {
            moved = true;
        }
    }
    assert!(moved);
}

#[test]
fn note_sixty_is_the_reference_pitch() {
    assert_eq!(note_frequency(60), 440 * 65536);
    assert_eq!(note_frequency(69), 48496070);
    assert_eq!(note_frequency(72), 57671936);
    assert_eq!(note_frequency(48), 14418624);
    assert!(note_frequency(0) >= 1);
    assert_eq!(note_frequency(65535), u32::MAX);
}

#[test]
fn oscillator_rejects_foreign_instructions() {
    let mut osc = Oscillator::default();
    osc.set_sample_rate(48000);
    let before = osc.frequency_hz;
    assert!(osc.apply_instruction(InstructionKind::Vibrato(Status::On)).is_err());
    assert!(osc
        .apply_instruction(InstructionKind::VibratoSettings { rate: 1, depth: 1 })
        .is_err());
    assert!(osc
        .apply_instruction(InstructionKind::AdsrSettings { a: 1, d: 1, s: 1, r: 1 })
        .is_err());
    assert_eq!(osc.frequency_hz, before);
    assert!(osc.apply_instruction(InstructionKind::Frequency(14417920)).is_ok());
    assert_eq!(osc.frequency_hz, 14417920);
    assert!(osc.apply_instruction(InstructionKind::Frequency(0)).is_ok());
    assert_eq!(osc.frequency_hz, 1);
    assert!(osc.apply_instruction(InstructionKind::State(Status::On)).is_ok());
    assert!(osc.is_on);
}

#[test]
fn synth_accepts_the_whole_vocabulary() {
    let mut synth = Synth::new();
    synth.set_sample_rate(48000);
    assert!(synth.apply_instruction(InstructionKind::Waveform(Waveform::Saw)).is_ok());
    assert_eq!(synth.oscillator.waveform, Waveform::Saw);
    assert!(synth.apply_instruction(InstructionKind::Note(60)).is_ok());
    assert_eq!(synth.oscillator.frequency_hz, 440 * 65536);
    assert!(synth.apply_instruction(InstructionKind::Vibrato(Status::On)).is_ok());
    assert!(synth.vibrato.is_on);
    assert!(synth
        .apply_instruction(InstructionKind::VibratoSettings { rate: 7 * 65536, depth: 100 })
        .is_ok());
    assert_eq!(synth.vibrato.rate, 7 * 65536);
    assert_eq!(synth.vibrato.depth, 100);
    assert!(synth
        .apply_instruction(InstructionKind::AdsrSettings { a: 1, d: 2, s: 3, r: 4 })
        .is_ok());
    assert_eq!(synth.adsr.attack, 1);
    assert_eq!(synth.adsr.sample_rate, 0);
    assert!(synth.apply_instruction(InstructionKind::State(Status::On)).is_ok());
    let _ = synth.apply_instruction(InstructionKind::State(Status::Off));
}
