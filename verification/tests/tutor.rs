use phase::midi::{MidiEvent, MidiMessage};
use phase::music::MidiNote;
use phase::trainer::RhythmGrade;
use phase::tutor::{App, KeyCode, KeyInput, Mode, RECENT_EVENT_CAPACITY};

const MS: u64 = 1_000_000;

fn event(message: MidiMessage, at: u64) -> MidiEvent {
    MidiEvent { message, at }
}

fn key(code: KeyCode) -> KeyInput {
    KeyInput { code, plain: true }
}

fn note_on(value: u8, velocity: u8) -> MidiMessage {
    MidiMessage::NoteOn {
        channel: 0,
        note: MidiNote::new(value).unwrap(),
        velocity,
    }
}

#[test]
fn sustain_holds_visual_note_until_pedal_up() {
    let now: u64 = 1_000 * MS;
    let mut app = App::new(now, 100, (48, 72), 0);
    let note = MidiNote::new(60).unwrap();
    app.handle_midi(
        event(
            MidiMessage::NoteOn {
                channel: 0,
                note,
                velocity: 90,
            },
            now,
        ),
        None,
    );
    app.handle_midi(
        event(
            MidiMessage::Sustain {
                channel: 0,
                down: true,
                value: 127,
            },
            now,
        ),
        None,
    );
    app.handle_midi(
        event(
            MidiMessage::NoteOff {
                channel: 0,
                note,
                velocity: 0,
            },
            now,
        ),
        None,
    );
    assert_eq!(app.notes[60].velocity, 90);
    assert!(!app.notes[60].held);
    app.handle_midi(
        event(
            MidiMessage::Sustain {
                channel: 0,
                down: false,
                value: 0,
            },
            now,
        ),
        None,
    );
    assert_eq!(app.notes[60].velocity, 0);
}

#[test]
fn event_history_is_bounded() {
    let now: u64 = 1_000 * MS;
    let mut app = App::new(now, 100, (48, 72), 0);
    for value in 40..80 {
        app.handle_midi(event(note_on(value, 1), now), None);
    }
    assert_eq!(app.recent.len(), RECENT_EVENT_CAPACITY);
}

#[test]
fn keyboard_window_follows_octave_shifted_notes() {
    let now: u64 = 1_000 * MS;
    let mut app = App::new(now, 100, (48, 72), 0);
    app.handle_midi(event(note_on(74, 90), now), None);
    assert_eq!((app.keyboard_base, app.keyboard_high()), (60, 84));
    app.handle_midi(event(note_on(47, 90), now), None);
    assert_eq!((app.keyboard_base, app.keyboard_high()), (36, 60));
}

#[test]
fn notes_on_visible_boundaries_do_not_move_keyboard_window() {
    let now: u64 = 1_000 * MS;
    let mut app = App::new(now, 100, (48, 72), 0);
    for value in [48, 72] {
        app.handle_midi(event(note_on(value, 90), now), None);
    }
    assert_eq!((app.keyboard_base, app.keyboard_high()), (48, 72));
}

#[test]
fn keyboard_window_stops_at_the_ends() {
    let mut app = App::new(0, 100, (48, 72), 0);
    app.handle_midi(event(note_on(127, 90), 0), None);
    assert_eq!(app.keyboard_base, 96);
    app.handle_midi(event(note_on(0, 90), 0), None);
    assert_eq!(app.keyboard_base, 0);
}

#[test]
fn knob_turns_set_tempo_and_unmute() {
    let now: u64 = 1_000 * MS;
    let mut app = App::new(now, 100, (48, 72), 0);
    app.muted = true;
    app.handle_midi(
        event(
            MidiMessage::ControlChange {
                channel: 0,
                controller: 8,
                value: 127,
            },
            now,
        ),
        Some("K8 tempo 240 BPM".to_string()),
    );
    assert_eq!(app.bpm, 240);
    assert_eq!(app.recent.back().unwrap(), "ch 1 K8 tempo 240 BPM [127]");
    assert_eq!(app.last_control.as_deref(), Some("K8 tempo 240 BPM"));
    assert!(app.muted);
    app.handle_midi(
        event(
            MidiMessage::ControlChange {
                channel: 0,
                controller: 1,
                value: 0,
            },
            now,
        ),
        Some("K1 volume 0%".to_string()),
    );
    assert!(!app.muted);
    app.handle_midi(
        event(
            MidiMessage::ControlChange {
                channel: 1,
                controller: 20,
                value: 5,
            },
            now,
        ),
        None,
    );
    assert_eq!(app.recent.back().unwrap(), "ch 2 cc  20 value   5");
    assert_eq!(app.last_control.as_deref(), Some("K1 volume 0%"));
    assert_eq!(app.bpm, 240);
}

#[test]
fn chord_follows_the_sounding_notes() {
    let mut app = App::new(0, 100, (48, 72), 0);
    for v in [60, 64, 67] {
        app.handle_midi(event(note_on(v, 80), 0), None);
    }
    assert_eq!(app.chord.unwrap().to_string(), "C major");
    app.handle_midi(
        event(
            MidiMessage::NoteOff {
                channel: 0,
                note: MidiNote::new(64).unwrap(),
                velocity: 0,
            },
            0,
        ),
        None,
    );
    assert!(app.chord.is_none());
    assert_eq!(app.active_notes().len(), 2);
    assert_eq!(app.recent.back().unwrap(), "ch 1 note off  64  E4 vel   0");
}

#[test]
fn keys_switch_modes_and_adjust_the_session() {
    let mut app = App::new(0, 100, (48, 72), 0);
    assert!(!app.handle_key(key(KeyCode::Tab), 5));
    assert_eq!(app.mode, Mode::Notes);
    assert_eq!(app.last_feedback, "notes mode");
    app.handle_key(key(KeyCode::BackTab), 6);
    app.handle_key(key(KeyCode::BackTab), 7);
    assert_eq!(app.mode, Mode::Rhythm);
    assert_eq!(app.rhythm_epoch, 7);
    app.handle_key(key(KeyCode::Char('+')), 8);
    assert_eq!(app.bpm, 105);
    app.bpm = 298;
    app.handle_key(key(KeyCode::Char('=')), 8);
    assert_eq!(app.bpm, 300);
    app.bpm = 33;
    app.handle_key(key(KeyCode::Char('-')), 8);
    assert_eq!(app.bpm, 30);
    app.handle_key(key(KeyCode::Char('?')), 8);
    assert!(app.help);
    app.handle_key(key(KeyCode::Esc), 8);
    assert!(!app.help);
    app.handle_key(key(KeyCode::Char(' ')), 8);
    assert!(app.paused);
    app.handle_key(key(KeyCode::Char('m')), 8);
    assert!(app.muted);
    assert!(!app.handle_key(KeyInput { code: KeyCode::Char('q'), plain: false }, 9));
    assert!(app.handle_key(key(KeyCode::Char('q')), 9));
}

#[test]
fn arrow_keys_change_the_scale_only_in_scales_mode() {
    let mut app = App::new(0, 100, (48, 72), 0);
    app.handle_key(key(KeyCode::Right), 1);
    assert_eq!(app.scale_exercise.root.value(), 0);
    app.mode = Mode::Scales;
    app.handle_key(key(KeyCode::Right), 1);
    assert_eq!(app.scale_exercise.root.value(), 1);
    app.handle_key(key(KeyCode::Up), 1);
    assert_eq!(app.scale_exercise.kind, phase::music::ScaleKind::NaturalMinor);
    app.mode = Mode::Notes;
    app.handle_key(key(KeyCode::Char('h')), 1);
    assert!(app.note_exercise.hide_name);
}

#[test]
fn restart_in_freeplay_releases_everything() {
    let mut app = App::new(0, 100, (48, 72), 0);
    app.handle_midi(event(note_on(60, 80), 0), None);
    app.handle_midi(
        event(
            MidiMessage::Sustain {
                channel: 0,
                down: true,
                value: 100,
            },
            0,
        ),
        None,
    );
    app.handle_key(key(KeyCode::Char('r')), 3);
    assert!(!app.sustain);
    assert_eq!(app.notes[60].velocity, 0);
    assert_eq!(app.last_feedback, "restarted");
}

#[test]
fn rhythm_mode_scores_against_the_beat() {
    let mut app = App::new(0, 120, (48, 72), 0);
    app.handle_key(key(KeyCode::BackTab), 0);
    assert_eq!(app.mode, Mode::Rhythm);
    assert_eq!(app.beat_duration(), 500 * MS);
    app.handle_midi(event(note_on(60, 90), 520 * MS), None);
    assert_eq!(app.last_feedback, "perfect +20 ms");
    assert_eq!(app.rhythm_metrics.correct, 1);
    app.handle_midi(event(note_on(60, 90), 900 * MS), None);
    assert_eq!(app.last_feedback, "early -100 ms");
    assert_eq!(RhythmGrade::Early.to_string(), "early");
    app.handle_midi(event(note_on(61, 90), 1000 * MS), None);
    assert_eq!(app.last_feedback, "miss +0 ms");
    assert_eq!(app.rhythm_metrics.attempts, 3);
    assert_eq!(app.rhythm_metrics.timing_abs_total_ms, 120);
}

#[test]
fn notes_mode_feedback_and_pause() {
    let mut app = App::new(0, 100, (60, 60), 0);
    app.handle_key(key(KeyCode::Tab), 0);
    app.handle_midi(event(note_on(60, 90), 250 * MS), None);
    assert_eq!(app.last_feedback, "correct \u{b7} 250 ms");
    app.handle_midi(event(note_on(62, 90), 300 * MS), None);
    assert_eq!(app.last_feedback, "expected C4, played D4");
    app.handle_key(key(KeyCode::Char(' ')), 0);
    app.handle_midi(event(note_on(62, 90), 400 * MS), None);
    assert_eq!(app.note_exercise.metrics.attempts, 2);
    assert_eq!(app.metrics().unwrap().attempts, 2);
}

#[test]
fn metronome_ticks_once_per_beat() {
    let mut app = App::new(0, 120, (48, 72), 0);
    assert!(!app.tick(600 * MS));
    app.handle_key(key(KeyCode::BackTab), 0);
    assert!(!app.tick(400 * MS));
    assert!(app.tick(600 * MS));
    assert!(!app.tick(700 * MS));
    assert!(app.tick(1_100 * MS));
    assert_eq!(app.rhythm_last_beat, 2);
    assert_eq!(app.session_duration(1_100 * MS), 1_100 * MS);
}

#[test]
fn ready_for_reports_overflowing_counts() {
    let mut app = App::new(0, 100, (48, 72), 0);
    let e = event(note_on(60, 90), 0);
    assert!(app.ready_for(&e));
    app.handle_key(key(KeyCode::Tab), 0);
    app.note_exercise.metrics.attempts = u64::MAX;
    assert!(!app.ready_for(&e));
    let bad = event(
        MidiMessage::Sustain {
            channel: 255,
            down: true,
            value: 1,
        },
        0,
    );
    assert!(!app.ready_for(&bad));
}
