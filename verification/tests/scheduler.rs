use fsynth::instruction::{InstructionKind, Status};
use fsynth::instruction_handler::{InstructionHandler, InstructionHashWrapper};
use fsynth::instrument::oscillator::Waveform;

#[test]
fn instruction_equalities() {
    let x = InstructionHashWrapper { kind: InstructionKind::Waveform(Waveform::Square) };
    let y = InstructionHashWrapper { kind: InstructionKind::Waveform(Waveform::Sine) };
    let z = InstructionHashWrapper { kind: InstructionKind::Frequency(3 * 65536) };
    let w = InstructionHashWrapper { kind: InstructionKind::Frequency(4 * 65536) };
    assert_eq!(x, y);
    assert_eq!(z, w);
    assert_ne!(x, z);
}

#[test]
fn handler_works() {
    let mut handler = InstructionHandler::new();
    handler.insert(0, 0, InstructionKind::Waveform(Waveform::Square));
    handler.insert(0, 1, InstructionKind::Frequency(3 * 65536));
    assert_eq!(*handler.get(0, 1).get(0).unwrap(), InstructionKind::Frequency(3 * 65536));
    assert_eq!(handler.get(0, 1).len(), 1);

    handler.insert(0, 1, InstructionKind::Frequency(4 * 65536));
    assert_eq!(handler.get(0, 1).len(), 1);
    assert_eq!(*handler.get(0, 1).get(0).unwrap(), InstructionKind::Frequency(4 * 65536));

    handler.insert(0, 1, InstructionKind::Note(4));
    assert_eq!(handler.get(0, 1).len(), 2);

    assert!(handler.has(0, 1, InstructionKind::Note(4)));
    assert!(!handler.has(0, 1, InstructionKind::Note(3)));
    assert!(handler.has_type(0, 1, InstructionKind::Note(3)));
}

#[test]
fn two_tags_pend_together_same_tag_replaces() {
    let mut handler = InstructionHandler::new();
    handler.insert(2, 7, InstructionKind::Frequency(28835840));
    handler.insert(2, 7, InstructionKind::State(Status::On));
    assert_eq!(handler.get(2, 7).len(), 2);

    handler.insert(2, 7, InstructionKind::Frequency(14417920));
    let due = handler.get(2, 7);
    assert_eq!(due.len(), 2);
    assert!(handler.has(2, 7, InstructionKind::Frequency(14417920)));
    assert!(!handler.has(2, 7, InstructionKind::Frequency(28835840)));
    assert!(handler.has_type(2, 7, InstructionKind::Frequency(1)));
    assert!(handler.has(2, 7, InstructionKind::State(Status::On)));
}

#[test]
fn remove_type_unschedules_by_tag() {
    let mut handler = InstructionHandler::new();
    handler.insert(1, 5, InstructionKind::Note(60));
    handler.insert(1, 5, InstructionKind::Vibrato(Status::On));
    handler.remove_type(1, 5, InstructionKind::Note(99));
    let due = handler.get(1, 5);
    assert_eq!(due.len(), 1);
    assert!(!handler.has_type(1, 5, InstructionKind::Note(60)));
    assert!(handler.has(1, 5, InstructionKind::Vibrato(Status::On)));

    handler.remove_type(1, 5, InstructionKind::Vibrato(Status::Off));
    assert_eq!(handler.get(1, 5).len(), 0);
}

#[test]
fn coordinates_stay_independent() {
    let mut handler = InstructionHandler::new();
    handler.insert(0, 3, InstructionKind::Note(60));
    handler.insert(1, 3, InstructionKind::Note(64));
    handler.insert(0, 4, InstructionKind::Note(67));
    assert_eq!(handler.get(0, 3).len(), 1);
    assert_eq!(handler.get(1, 3).len(), 1);
    assert_eq!(handler.get(0, 4).len(), 1);
    assert_eq!(handler.get(1, 4).len(), 0);
    handler.remove_type(0, 3, InstructionKind::Note(0));
    assert_eq!(handler.get(0, 3).len(), 0);
    assert_eq!(handler.get(1, 3).len(), 1);
    assert_eq!(handler.get(0, 4).len(), 1);
}
