use phase::audio::{plan_voices, VoiceCommand, VoiceSlot};
use phase::config::remembered_device;
use phase::midi::{input_choice, PortError};

fn slot(active: bool, started: u64, note: u8, key_down: bool) -> VoiceSlot {
    VoiceSlot {
        active,
        started,
        note,
        key_down,
    }
}

#[test]
fn input_choice_distinguishes_missing_and_ambiguous_ports() {
    let none: Vec<String> = Vec::new();
    assert_eq!(input_choice(&none, Some("mpk")), Ok(None));
    let names: Vec<String> = vec!["Other".into(), "AKAI MPKmini2".into()];
    assert_eq!(input_choice(&names, None), Ok(Some(1)));
    assert_eq!(input_choice(&names, Some("OTHER")), Ok(Some(0)));
    assert_eq!(input_choice(&names, Some("missing")), Err(PortError::NoMatch));
    let two: Vec<String> = vec!["A".into(), "B".into()];
    assert_eq!(input_choice(&two, None), Err(PortError::Ambiguous));
}

#[test]
fn device_preferences_keep_the_command_line_choice() {
    assert_eq!(
        remembered_device(Some("old".into()), Some("new".into())),
        Some("new".to_string())
    );
    assert_eq!(
        remembered_device(Some("old".into()), None),
        Some("old".to_string())
    );
    assert_eq!(remembered_device(None, None), None);
}

#[test]
fn note_on_takes_a_free_voice_then_the_oldest() {
    let slots = [slot(true, 3, 60, true), slot(false, 0, 0, false), slot(true, 1, 62, true)];
    let plan = plan_voices(&slots, false, VoiceCommand::NoteOn { note: 64, velocity: 90 });
    assert_eq!(plan.start, Some(1));
    assert_eq!(plan.lift, vec![false; 3]);
    assert_eq!(plan.release, vec![false; 3]);
    let full = [slot(true, 3, 60, true), slot(true, 2, 61, true), slot(true, 1, 62, true)];
    let plan = plan_voices(&full, false, VoiceCommand::NoteOn { note: 64, velocity: 90 });
    assert_eq!(plan.start, Some(2));
    assert!(!plan.sustain);
}

#[test]
fn sustain_defers_release_until_the_pedal_lifts() {
    let slots = [slot(true, 1, 60, true), slot(true, 2, 64, true), slot(false, 0, 60, true)];
    let plan = plan_voices(&slots, true, VoiceCommand::NoteOff { note: 60 });
    assert_eq!(plan.lift, vec![true, false, false]);
    assert_eq!(plan.release, vec![false, false, false]);
    assert!(plan.sustain);

    let after = [slot(true, 1, 60, false), slot(true, 2, 64, true), slot(false, 0, 60, true)];
    let plan = plan_voices(&after, true, VoiceCommand::Sustain(false));
    assert_eq!(plan.release, vec![true, false, false]);
    assert!(!plan.sustain);

    let plan = plan_voices(&slots, false, VoiceCommand::NoteOn { note: 64, velocity: 0 });
    assert_eq!(plan.start, None);
    assert_eq!(plan.lift, vec![false, true, false]);
    assert_eq!(plan.release, vec![false, true, false]);
}

#[test]
fn all_notes_off_releases_every_voice() {
    let slots = [slot(true, 1, 60, true), slot(false, 0, 0, false)];
    let plan = plan_voices(&slots, true, VoiceCommand::AllNotesOff);
    assert_eq!(plan.lift, vec![true, true]);
    assert_eq!(plan.release, vec![true, true]);
    assert!(!plan.sustain);
    assert_eq!(plan.start, None);
}
