use phase::midi::{choose_port, contains_text, parse, pick_port, DeviceInventory, MidiMessage};
use phase::music::MidiNote;

#[test]
fn parses_note_messages_and_channels() {
    assert_eq!(
        parse(&[0x92, 60, 100]),
        Some(MidiMessage::NoteOn {
            channel: 2,
            note: MidiNote::new(60).unwrap(),
            velocity: 100
        })
    );
    assert_eq!(
        parse(&[0x81, 61, 45]),
        Some(MidiMessage::NoteOff {
            channel: 1,
            note: MidiNote::new(61).unwrap(),
            velocity: 45
        })
    );
}

#[test]
fn zero_velocity_note_on_is_note_off() {
    assert_eq!(
        parse(&[0x90, 64, 0]),
        Some(MidiMessage::NoteOff {
            channel: 0,
            note: MidiNote::new(64).unwrap(),
            velocity: 0
        })
    );
}

#[test]
fn parses_sustain_threshold_and_other_cc() {
    assert_eq!(
        parse(&[0xb0, 64, 63]),
        Some(MidiMessage::Sustain {
            channel: 0,
            down: false,
            value: 63
        })
    );
    assert_eq!(
        parse(&[0xb0, 64, 64]),
        Some(MidiMessage::Sustain {
            channel: 0,
            down: true,
            value: 64
        })
    );
    assert!(matches!(
        parse(&[0xb3, 1, 20]),
        Some(MidiMessage::ControlChange { channel: 3, .. })
    ));
}

#[test]
fn malformed_and_unsupported_data_is_ignored() {
    assert!(parse(&[]).is_none());
    assert!(parse(&[0x90, 60]).is_none());
    assert!(parse(&[0xf8]).is_none());
    assert!(parse(&[0x40, 10, 10]).is_none());
}

#[test]
fn device_selection_prefers_requested_then_mpk_then_single() {
    let names = vec!["Other".into(), "AKAI MPKmini2".into()];
    assert_eq!(choose_port(&names, None), Some(1));
    assert_eq!(choose_port(&names, Some("other")), Some(0));
    assert_eq!(choose_port(&["Solo".into()], None), Some(0));
    assert_eq!(choose_port(&names, Some("missing")), None);
}

#[test]
fn data_bytes_are_clamped_and_high_notes_rejected() {
    assert_eq!(
        parse(&[0x9f, 60, 200]),
        Some(MidiMessage::NoteOn {
            channel: 15,
            note: MidiNote::new(60).unwrap(),
            velocity: 127
        })
    );
    assert_eq!(parse(&[0x90, 128, 100]), None);
    assert_eq!(parse(&[0x80, 200, 100]), None);
    assert_eq!(
        parse(&[0xb1, 7, 255, 1, 2]),
        Some(MidiMessage::ControlChange {
            channel: 1,
            controller: 7,
            value: 127
        })
    );
    assert_eq!(parse(&[0xe0, 0, 64]), None);
}

#[test]
fn message_text_matches_the_monitor_format() {
    let on = MidiMessage::NoteOn {
        channel: 0,
        note: MidiNote::new(60).unwrap(),
        velocity: 100,
    };
    assert_eq!(on.to_string(), "ch 1 note on   60  C4 vel 100");
    let off = MidiMessage::NoteOff {
        channel: 9,
        note: MidiNote::new(61).unwrap(),
        velocity: 0,
    };
    assert_eq!(off.to_string(), "ch 10 note off  61 C#4 vel   0");
    let cc = MidiMessage::ControlChange {
        channel: 2,
        controller: 7,
        value: 64,
    };
    assert_eq!(cc.to_string(), "ch 3 cc   7 value  64");
    let pedal = MidiMessage::Sustain {
        channel: 0,
        down: true,
        value: 127,
    };
    assert_eq!(pedal.to_string(), "ch 1 sustain down (127)");
    let ignored = MidiMessage::Ignored {
        status: Some(0xf8),
        length: 1,
    };
    assert_eq!(ignored.to_string(), "ignored MIDI data: status 0xf8 length 1");
    let empty = MidiMessage::Ignored {
        status: None,
        length: 0,
    };
    assert_eq!(empty.to_string(), "ignored MIDI data: status \u{2014} length 0");
}

#[test]
fn port_choice_on_lowercased_names() {
    let names: Vec<String> = vec!["keystation".into(), "mpkmini2 port".into(), "mpkmini2 b".into()];
    assert_eq!(pick_port(&names, None), Some(1));
    assert_eq!(pick_port(&names, Some("b")), Some(2));
    assert_eq!(pick_port(&names, Some("key")), Some(0));
    let two: Vec<String> = vec!["a".into(), "b".into()];
    assert_eq!(pick_port(&two, None), None);
    assert_eq!(choose_port(&[], None), None);
    assert_eq!(choose_port(&["MPKMINI2".into()], Some("MpK")), Some(0));
}

#[test]
fn substring_search() {
    assert!(contains_text("AKAI MPKmini2", "MPK"));
    assert!(contains_text("abc", ""));
    assert!(!contains_text("abc", "abcd"));
    assert!(!contains_text("abc", "ac"));
}

#[test]
fn empty_inventory() {
    let inventory = DeviceInventory::default();
    assert!(inventory.midi_inputs.is_empty());
    assert!(inventory.midi_outputs.is_empty());
}
