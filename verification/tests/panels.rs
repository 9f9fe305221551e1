use phase::midi::{device_matches, MidiEvent, MidiMessage};
use phase::music::{MidiNote, PitchClass, ScaleKind};
use phase::panels::{
    active_line, chord_line, key_cells, key_labels, recent_lines, status_spans, status_texts,
    target_texts,
};
use phase::trainer::{classify_rhythm, RhythmGrade};
use phase::tutor::{App, Mode};

const SECOND: u64 = 1_000_000_000;

fn press(app: &mut App, value: u8, velocity: u8, at: u64) {
    app.handle_midi(
        MidiEvent {
            message: MidiMessage::NoteOn {
                channel: 0,
                note: MidiNote::new(value).unwrap(),
                velocity,
            },
            at,
        },
        None,
    );
}

#[test]
fn keyboard_labels_are_centred_pitch_classes() {
    let labels = key_labels();
    assert_eq!(labels.len(), 25);
    assert_eq!(labels[0], " C ");
    assert_eq!(labels[1], "C# ");
    assert_eq!(labels[11], " B ");
    assert_eq!(labels[24], " C ");
}

#[test]
fn active_line_lists_sounding_keys() {
    let mut app = App::new(0, 100, (48, 72), 0);
    assert_eq!(active_line(&app), "active: —");
    press(&mut app, 64, 91, 0);
    press(&mut app, 60, 104, 0);
    press(&mut app, 7, 5, 0);
    assert_eq!(
        active_line(&app),
        "active: G-1 [  7] v  5  C4 [ 60] v104  E4 [ 64] v 91"
    );
}

#[test]
fn chord_and_recent_panels() {
    let mut app = App::new(0, 100, (48, 72), 0);
    assert_eq!(chord_line(&app), "detected chord  —");
    assert!(recent_lines(&app).is_empty());
    for value in [60, 64, 67] {
        press(&mut app, value, 96, 0);
    }
    assert_eq!(chord_line(&app), "detected chord  C major");
    let recent = recent_lines(&app);
    assert_eq!(recent.len(), 3);
    assert_eq!(recent[0], app.recent[2]);
    assert_eq!(recent[2], app.recent[0]);
    for value in 40..50 {
        press(&mut app, value, 1, 0);
    }
    let recent = recent_lines(&app);
    assert_eq!(recent.len(), 5);
    assert_eq!(recent[0], *app.recent.back().unwrap());
    assert_eq!(recent[4], app.recent[app.recent.len() - 5]);
}

#[test]
fn target_panel_per_mode() {
    let mut app = App::new(0, 100, (60, 60), 0);
    let (target, detail) = target_texts(&app, None);
    assert_eq!(target, "  —           ");
    assert_eq!(detail, "Play freely · chord detection ignores inversions");

    app.mode = Mode::Notes;
    let (target, detail) = target_texts(&app, None);
    assert_eq!(target, "  C4          ");
    assert_eq!(detail, "MIDI 60 · h toggles note-name visibility");
    app.note_exercise.hide_name = true;
    app.note_exercise.weak_notes.insert(62, 3);
    app.note_exercise.weak_notes.insert(64, 3);
    app.note_exercise.weak_notes.insert(65, 1);
    let (target, detail) = target_texts(&app, None);
    assert_eq!(target, "  ●           ");
    assert_eq!(detail, "MIDI 60 · h toggles note-name visibility · weak E4 ×3");

    app.mode = Mode::Scales;
    let (target, detail) = target_texts(&app, None);
    assert_eq!(target, "  C4          ");
    assert_eq!(
        detail,
        "C major · step 1/15 · 0 complete · last — · mistakes —"
    );
    app.scale_exercise.root = PitchClass::new(2);
    app.scale_exercise.kind = ScaleKind::NaturalMinor;
    app.scale_exercise.index = 3;
    app.scale_exercise.completed = 2;
    app.scale_exercise
        .recent_mistakes
        .push_back(MidiNote::new(61).unwrap());
    app.scale_exercise
        .recent_mistakes
        .push_back(MidiNote::new(70).unwrap());
    let (target, detail) = target_texts(&app, Some("4.2s"));
    assert_eq!(target, "  F4          ");
    assert_eq!(
        detail,
        "D natural minor · step 4/15 · 2 complete · last 4.2s · mistakes C#4,A#4"
    );

    app.mode = Mode::Rhythm;
    app.last_feedback = "good -50 ms".into();
    let (target, detail) = target_texts(&app, None);
    assert_eq!(target, "  C4          ");
    assert_eq!(
        detail,
        "Play on each beat · perfect ±35 ms · good ±80 ms · window ±180 ms · good -50 ms"
    );
}

#[test]
fn status_line_texts() {
    let mut app = App::new(10 * SECOND, 100, (48, 72), 0);
    app.audio_name = "Speakers".into();
    let (audio, tempo, pedal, clock) = status_texts(&app, 52 * SECOND + 999);
    assert_eq!(audio, "Speakers (offline)");
    assert_eq!(tempo, "100 BPM");
    assert_eq!(pedal, "SUS off");
    assert_eq!(clock, "00:42");
    app.audio_ok = true;
    app.sustain = true;
    app.bpm = 96;
    let (audio, tempo, pedal, clock) = status_texts(&app, 10 * SECOND + 6_125 * SECOND);
    assert_eq!(audio, "Speakers (online)");
    assert_eq!(tempo, "96 BPM");
    assert_eq!(pedal, "SUS ON");
    assert_eq!(clock, "102:05");
    assert_eq!(status_texts(&app, 0).3, "00:00");
}

#[test]
fn device_names_match_ignoring_case() {
    assert!(device_matches("MacBook Pro Speakers", "speakers"));
    assert!(device_matches("MacBook Pro Speakers", "PRO SP"));
    assert!(device_matches("anything", ""));
    assert!(!device_matches("Headphones", "speakers"));
}

#[test]
fn beat_length_rounds_to_the_nearest_nanosecond() {
    let mut app = App::new(0, 130, (48, 72), 0);
    assert_eq!(app.beat_duration(), 461_538_462);
    app.bpm = 120;
    assert_eq!(app.beat_duration(), 500_000_000);
    app.bpm = 7;
    assert_eq!(app.beat_duration(), 8_571_428_571);
}

#[test]
fn extreme_offsets_miss_the_beat() {
    assert_eq!(classify_rhythm(i64::MIN), RhythmGrade::Miss);
    assert_eq!(classify_rhythm(i64::MAX), RhythmGrade::Miss);
    assert_eq!(classify_rhythm(-181), RhythmGrade::Miss);
    assert_eq!(classify_rhythm(-180), RhythmGrade::Early);
}

#[test]
fn status_line_pieces_in_order() {
    let mut app = App::new(0, 100, (48, 72), 0);
    app.midi_name = "MPKmini2".into();
    app.audio_name = "Speakers".into();
    app.audio_ok = true;
    let spans = status_spans(&app, 42 * SECOND, 72);
    assert_eq!(spans.len(), 13);
    assert_eq!(
        spans.concat(),
        "MIDI MPKmini2  AUDIO Speakers (online)  100 BPM  SUS off  VOL  72%  00:42"
    );
    assert_eq!(status_spans(&app, 0, 100)[10], "VOL 100%");
    assert_eq!(status_spans(&app, 0, 5)[10], "VOL   5%");
}

#[test]
fn keyboard_cells_show_black_keys_and_sounding_notes() {
    let mut app = App::new(0, 100, (48, 72), 0);
    press(&mut app, 49, 100, 0);
    press(&mut app, 60, 127, 0);
    press(&mut app, 62, 165, 0);
    let cells = key_cells(&app);
    assert_eq!(cells.len(), 25);
    assert!(!cells[0].black && !cells[0].lit);
    assert_eq!((cells[0].top.as_str(), cells[0].bottom.as_str()), ("   ", " │ "));
    assert_eq!(cells[0].brightness, 90);
    assert!(cells[1].black && cells[1].lit);
    assert_eq!((cells[1].top.as_str(), cells[1].bottom.as_str()), ("███", " ║ "));
    assert_eq!(cells[1].brightness, 190);
    assert_eq!(cells[1].label, "C# ");
    assert_eq!(cells[12].brightness, 217);
    assert_eq!(cells[12].label, " C ");
    assert_eq!(cells[14].brightness, 255);
    assert!(!cells[24].black);
}
