use phase::demo::{DemoState, DEMO_STEP_NS};
use phase::midi::{MidiEvent, MidiMessage};
use phase::music::MidiNote;

fn note(value: u8) -> MidiNote {
    MidiNote::new(value).unwrap()
}

fn note_on(event: &MidiEvent) -> Option<(u8, u8)> {
    match event.message {
        MidiMessage::NoteOn { note, velocity, .. } => Some((note.value(), velocity)),
        _ => None,
    }
}

#[test]
fn demo_plays_the_melody_on_a_fixed_beat() {
    let start: u64 = 5_000_000_000;
    let melody = [note(67), note(71)];
    let mut demo = DemoState::new(start);

    let first = demo.events(start, &melody);
    assert_eq!(first.len(), 1);
    assert_eq!(note_on(&first[0]), Some((67, 65)));
    assert_eq!(first[0].at, start);
    assert_eq!(demo.next, start + 430_000_000);

    assert!(demo.events(start + DEMO_STEP_NS - 1, &melody).is_empty());
    assert_eq!(demo.step, 1);

    let second = demo.events(start + DEMO_STEP_NS, &melody);
    assert_eq!(second.len(), 2);
    assert!(matches!(
        second[0].message,
        MidiMessage::NoteOff { channel: 0, velocity: 0, note } if note.value() == 67
    ));
    assert_eq!(note_on(&second[1]), Some((71, 82)));
}

#[test]
fn demo_cycles_through_the_melody_with_varying_velocity() {
    let melody = [note(60), note(64)];
    let mut demo = DemoState::new(0);
    let mut played = Vec::new();
    for step in 0..6_u64 {
        let events = demo.events(step * DEMO_STEP_NS, &melody);
        played.push(note_on(events.last().unwrap()).unwrap());
    }
    assert_eq!(
        played,
        vec![(60, 65), (64, 82), (60, 99), (64, 116), (60, 73), (64, 90)]
    );
    assert_eq!(demo.active, Some(note(64)));
    assert_eq!(demo.step, 6);
}
