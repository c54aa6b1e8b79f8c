use fsynth::app::App;
use fsynth::instruction::InstructionKind;
use fsynth::instrument::Instrument;

fn synth_frequency(app: &App) -> u32 {
    match &app.instruments[0] {
        Instrument::Synth(s) => s.oscillator.frequency_hz,
        Instrument::Oscillator(_) => panic!("the first voice is the synth"),
    }
}

#[test]
fn fresh_sequencer_has_the_default_voices() {
    let app = App::new();
    assert_eq!(app.instruments.len(), 2);
    match &app.instruments[0] {
        Instrument::Synth(s) => {
            assert_eq!(s.oscillator.frequency_hz, 220 * 65536);
            assert!(s.oscillator.is_on);
            assert_eq!(s.volume, (65536, 65536));
        }
        Instrument::Oscillator(_) => panic!("the first voice is the synth"),
    }
    match &app.instruments[1] {
        Instrument::Oscillator(o) => {
            assert_eq!(o.frequency_hz, 220 * 65536);
            assert!(!o.is_on);
            assert_eq!(o.current_sample_jump, 65536);
        }
        Instrument::Synth(_) => panic!("the second voice is the oscillator"),
    }
    assert_eq!(app.delay, 125);
    assert_eq!(app.tick, 0);
    assert!(!app.playing);
}

#[test]
fn scheduled_frequencies_arrive_on_their_ticks() {
    let mut app = App::new();
    app.set_sample_rates(48000);
    app.instructions.insert(0, 0, InstructionKind::Frequency(440 * 65536));
    app.instructions.insert(0, 100, InstructionKind::Frequency(220 * 65536));
    app.play();

    app.tick_all();
    assert_eq!(synth_frequency(&app), 440 * 65536);
    for _ in 1..100 {
        app.tick_all();
    }
    assert_eq!(synth_frequency(&app), 440 * 65536);
    app.tick_all();
    assert_eq!(synth_frequency(&app), 220 * 65536);
}

#[test]
fn paused_sequencer_is_silent_and_inert() {
    let mut app = App::new();
    app.set_sample_rates(48000);
    app.instructions.insert(0, 0, InstructionKind::Frequency(440 * 65536));
    app.instructions.insert(1, 2, InstructionKind::Note(60));
    let freq_before = synth_frequency(&app);
    for _ in 0..50 {
        assert_eq!(app.tick_all(), (0, 0));
    }
    assert_eq!(app.tick, 0);
    assert_eq!(synth_frequency(&app), freq_before);
    assert!(app.instructions.has(0, 0, InstructionKind::Frequency(440 * 65536)));
}

#[test]
fn playing_advances_and_reset_rewinds() {
    let mut app = App::new();
    app.set_sample_rates(48000);
    app.play();
    for _ in 0..5 {
        app.tick_all();
    }
    assert_eq!(app.tick, 5);
    app.pause();
    app.tick_all();
    assert_eq!(app.tick, 5);
    app.reset();
    assert_eq!(app.tick, 0);
}

#[test]
fn unsupported_instructions_never_break_a_frame() {
    let mut app = App::new();
    app.set_sample_rates(48000);
    // The plain oscillator voice has no vibrato; the frame must carry on.
    app.instructions.insert(1, 0, InstructionKind::VibratoSettings { rate: 1, depth: 1 });
    app.play();
    app.tick_all();
    assert_eq!(app.tick, 1);
}

#[test]
fn bpm_is_the_delay_transform() {
    let mut app = App::new();
    assert_eq!(app.get_delay(), 125);
    assert_eq!(app.get_bpm(), 120);
    app.set_bpm(100);
    assert_eq!(app.get_delay(), 150);
    app.set_delay(250);
    assert_eq!(app.get_bpm(), 60);
}
