use phase::audio::{allocate_voice, VoiceSlot};
use phase::controls::{knob_for, tempo_from_knob, Knob, SynthParameter};
use phase::session::join_warnings;
use phase::stats::{record_session, PracticeStats};
use phase::tutor::App;

#[test]
fn warnings_are_joined() {
    assert_eq!(
        join_warnings(Some("a".into()), Some("b".into())).as_deref(),
        Some("a; b")
    );
    assert_eq!(join_warnings(Some("a".into()), None).as_deref(), Some("a"));
    assert_eq!(join_warnings(None, Some("b".into())).as_deref(), Some("b"));
    assert_eq!(join_warnings(None, None), None);
}

#[test]
fn knobs_map_to_volume_patch_and_tempo() {
    assert_eq!(knob_for(1), Some(Knob::Volume));
    assert_eq!(knob_for(2), Some(Knob::Synth(SynthParameter::Attack)));
    assert_eq!(knob_for(7), Some(Knob::Synth(SynthParameter::Harmonics)));
    assert_eq!(knob_for(8), Some(Knob::Tempo));
    assert_eq!(knob_for(64), None);
    assert_eq!(knob_for(9), None);
    assert_eq!(tempo_from_knob(0), 40);
    assert_eq!(tempo_from_knob(127), 240);
    assert_eq!(tempo_from_knob(64), 141);
    assert_eq!(tempo_from_knob(200), 240);
}

#[test]
fn free_voices_first_then_the_oldest() {
    let mut slots = [VoiceSlot { active: false, started: 0, note: 0, key_down: false }; 4];
    assert_eq!(allocate_voice(&slots), 0);
    slots[0] = VoiceSlot { active: true, started: 1, note: 60, key_down: true };
    assert_eq!(allocate_voice(&slots), 1);
    for (i, slot) in slots.iter_mut().enumerate() {
        *slot = VoiceSlot {
            active: true,
            started: 10 - i as u64,
            note: 60,
            key_down: true,
        };
    }
    assert_eq!(allocate_voice(&slots), 3);
    slots[1].started = 7;
    assert_eq!(allocate_voice(&slots), 1);
}

#[test]
fn session_totals_are_added_to_practice_stats() {
    let mut app = App::new(0, 100, (60, 60), 0);
    app.note_exercise.metrics.attempts = 3;
    app.note_exercise.metrics.correct = 2;
    app.note_exercise.metrics.best_streak = 2;
    app.rhythm_metrics.attempts = 1;
    app.note_exercise.weak_notes.insert(60, 4);
    let mut stats = PracticeStats::default();
    stats.attempts = u64::MAX - 1;
    stats.weak_note_counts.insert(60, 1);
    stats.weak_note_counts.insert(61, 9);
    stats.best_streaks.insert(3, 7);
    record_session(&mut stats, &app);
    assert_eq!(stats.attempts, u64::MAX);
    assert_eq!(stats.correct, 2);
    assert_eq!(stats.weak_note_counts.get(&60), Some(&5));
    assert_eq!(stats.weak_note_counts.get(&61), Some(&9));
    assert_eq!(stats.best_streaks.get(&1), Some(&2));
    assert_eq!(stats.best_streaks.get(&2), Some(&0));
    assert_eq!(stats.best_streaks.get(&3), Some(&7));
    assert_eq!(stats.best_streaks.len(), 3);
}
