use phase::music::{MidiNote, PitchClass, ScaleKind};
use phase::trainer::{
    classify_rhythm, nearest_beat_offset, normalized_range, score_note, NoteExercise, RhythmGrade,
    ScaleExercise, SessionMetrics, StaffClef, StaffExercise, STAFF_COMPLETE_HOLD_NS,
};

const MS: u64 = 1_000_000;

fn note(v: u8) -> MidiNote {
    MidiNote::new(v).unwrap()
}

#[test]
fn note_scoring_tracks_accuracy_and_streak() {
    let c = note(60);
    let d = note(62);
    let mut metrics = SessionMetrics::default();
    metrics.record(score_note(c, c, 400 * MS));
    metrics.record(score_note(d, c, 500 * MS));
    assert_eq!(metrics.correct, 1);
    assert_eq!(metrics.correct as f32 * 100.0 / metrics.attempts as f32, 50.0);
    assert_eq!(metrics.streak, 0);
    assert_eq!(metrics.best_streak, 1);
}

#[test]
fn staff_progress_advances_only_for_the_expected_note() {
    let now: u64 = 10_000 * MS;
    let mut exercise = StaffExercise::new((48, 72), now, 0);
    exercise.sequence = vec![note(64), note(67)];
    exercise.index = 0;

    let miss = exercise.attempt(note(65), now + 100 * MS).unwrap();
    assert!(!miss.correct);
    assert_eq!(exercise.index, 0);

    let hit = exercise.attempt(note(64), now + 200 * MS).unwrap();
    assert!(hit.correct);
    assert_eq!(exercise.index, 1);
    assert_eq!(exercise.expected(), Some(note(67)));
    assert_eq!(exercise.metrics.attempts, 2);
}

#[test]
fn completed_staff_phrase_remains_visible_before_refreshing() {
    let now: u64 = 10_000 * MS;
    let mut exercise = StaffExercise::new((48, 72), now, 0);
    exercise.sequence = vec![note(64)];
    exercise.index = 0;
    exercise.attempt(note(64), now).unwrap();

    assert!(exercise.expected().is_none());
    assert!(!exercise.tick(now + STAFF_COMPLETE_HOLD_NS - MS));
    assert_eq!(exercise.index, 1);
    assert!(exercise.tick(now + STAFF_COMPLETE_HOLD_NS));
    assert_eq!(exercise.index, 0);
    assert!(exercise.expected().is_some());
}

#[test]
fn staff_clef_uses_notes_that_fit_on_its_five_lines() {
    let now: u64 = 10_000 * MS;
    let mut exercise = StaffExercise::new((48, 72), now, 0);
    assert!(exercise
        .sequence
        .iter()
        .all(|note| (64..=72).contains(&note.value())));

    exercise.toggle_clef(now);
    assert_eq!(exercise.clef, StaffClef::Bass);
    assert!(exercise
        .sequence
        .iter()
        .all(|note| (48..=57).contains(&note.value())));
}

#[test]
fn timing_classification_uses_central_thresholds() {
    assert_eq!(classify_rhythm(0), RhythmGrade::Perfect);
    assert_eq!(classify_rhythm(-35), RhythmGrade::Perfect);
    assert_eq!(classify_rhythm(70), RhythmGrade::Good);
    assert_eq!(classify_rhythm(-100), RhythmGrade::Early);
    assert_eq!(classify_rhythm(100), RhythmGrade::Late);
    assert_eq!(classify_rhythm(181), RhythmGrade::Miss);
}

#[test]
fn nearest_beat_offset_is_signed() {
    let epoch: u64 = 3_000 * MS;
    assert_eq!(nearest_beat_offset(epoch + 480 * MS, epoch, 500 * MS), -20);
    assert_eq!(nearest_beat_offset(epoch + 540 * MS, epoch, 500 * MS), 40);
}

#[test]
fn beat_offset_edges() {
    assert_eq!(nearest_beat_offset(5, 10, 500 * MS), 0);
    assert_eq!(nearest_beat_offset(250 * MS, 0, 500 * MS), -250);
    assert_eq!(nearest_beat_offset(249 * MS, 0, 500 * MS), 249);
    assert_eq!(nearest_beat_offset(1_234 * MS, 0, 0), 0);
    assert_eq!(nearest_beat_offset(1_000 * MS + 1_500_000, 0, 500 * MS), 2);
    assert_eq!(nearest_beat_offset(1_000 * MS - 1_500_000, 0, 500 * MS), -2);
}

#[test]
fn rhythm_grade_boundaries_and_text() {
    assert_eq!(classify_rhythm(80), RhythmGrade::Good);
    assert_eq!(classify_rhythm(-81), RhythmGrade::Early);
    assert_eq!(classify_rhythm(180), RhythmGrade::Late);
    assert_eq!(classify_rhythm(-181), RhythmGrade::Miss);
    assert_eq!(RhythmGrade::Late.to_string(), "late");
}

#[test]
fn timed_attempts_accumulate_absolute_offsets() {
    let mut metrics = SessionMetrics::default();
    let mut a = score_note(note(60), note(60), 7);
    a.timing_offset_ms = Some(-30);
    metrics.record(a);
    a.timing_offset_ms = Some(12);
    metrics.record(a);
    assert_eq!(metrics.timing_abs_total_ms, 42);
    assert_eq!(metrics.timed_attempts, 2);
    assert_eq!(metrics.response_time_total, 14);
    assert_eq!(metrics.streak, 2);
    assert!(metrics.has_room_for(&a));
    metrics.attempts = u64::MAX;
    assert!(!metrics.has_room_for(&a));
}

#[test]
fn normalized_range_orders_and_clamps() {
    assert_eq!(normalized_range((72, 48)), (48, 72));
    assert_eq!(normalized_range((200, 100)), (100, 127));
    assert_eq!(normalized_range((130, 140)), (127, 127));
}

#[test]
fn note_exercise_counts_misses_and_moves_on_after_a_hit() {
    let now: u64 = 1_000 * MS;
    let mut exercise = NoteExercise::new((60, 64), now, 12345);
    let target = exercise.target;
    assert!((60..=64).contains(&target.value()));
    let wrong = if target.value() == 60 { note(61) } else { note(60) };
    let miss = exercise.attempt(wrong, now + 300 * MS);
    assert!(!miss.correct);
    assert_eq!(miss.response_time, 300 * MS);
    assert_eq!(exercise.weak_notes.get(&target.value()), Some(&1));
    exercise.attempt(wrong, now + 400 * MS);
    assert_eq!(exercise.weak_notes.get(&target.value()), Some(&2));
    let hit = exercise.attempt(target, now + 500 * MS);
    assert!(hit.correct);
    assert!((60..=64).contains(&exercise.target.value()));
    assert_eq!(exercise.metrics.attempts, 3);
    exercise.restart(now);
    assert_eq!(exercise.metrics.attempts, 0);
    assert_eq!(exercise.weak_notes.len(), 1);
}

#[test]
fn single_note_range_keeps_the_same_target() {
    let mut exercise = NoteExercise::new((70, 70), 0, 99);
    assert_eq!(exercise.target.value(), 70);
    assert!(exercise.attempt(note(70), 5).correct);
    assert_eq!(exercise.target.value(), 70);
}

#[test]
fn staff_phrases_have_eight_notes_without_repeats() {
    for seed in [0u64, 1, 2, 77, 123456789] {
        let mut exercise = StaffExercise::new((0, 127), 0, seed);
        for _ in 0..3 {
            let (low, high) = exercise.clef.midi_range();
            assert_eq!(exercise.sequence.len(), 8);
            assert!(exercise.sequence.windows(2).all(|w| w[0] != w[1]));
            assert!(exercise.sequence.iter().all(|n| (low..=high).contains(&n.value())));
            exercise.toggle_clef(0);
        }
    }
}

#[test]
fn staff_range_outside_the_clef_uses_the_whole_staff() {
    let exercise = StaffExercise::new((90, 100), 0, 5);
    assert!(exercise.sequence.iter().all(|n| (64..=77).contains(&n.value())));
}

#[test]
fn staff_completion_time_restart_and_resume() {
    let mut exercise = StaffExercise::new((48, 72), 0, 3);
    exercise.sequence = vec![note(64)];
    exercise.index = 0;
    exercise.resume(100 * MS);
    exercise.attempt(note(64), 350 * MS).unwrap();
    assert_eq!(exercise.completed, 1);
    assert_eq!(exercise.last_completion, Some(250 * MS));
    assert!(exercise.attempt(note(64), 360 * MS).is_none());
    assert_eq!(exercise.metrics.attempts, 1);
    exercise.resume(400 * MS);
    assert_eq!(exercise.sequence.len(), 8);
    assert_eq!(exercise.index, 0);
    exercise.restart(500 * MS);
    assert_eq!(exercise.completed, 0);
    assert_eq!(exercise.metrics.attempts, 0);
    assert_eq!(exercise.last_completion, None);
}

#[test]
fn clef_ranges_labels_and_toggle() {
    assert_eq!(StaffClef::Treble.midi_range(), (64, 77));
    assert_eq!(StaffClef::Bass.midi_range(), (43, 57));
    assert_eq!(StaffClef::Treble.label(), "treble");
    assert_eq!(StaffClef::Bass.label(), "bass");
    assert_eq!(StaffClef::Treble.toggle(), StaffClef::Bass);
    assert_eq!(StaffClef::Bass.toggle(), StaffClef::Treble);
}

#[test]
fn scale_exercise_walks_up_and_down_and_keeps_four_mistakes() {
    let mut exercise = ScaleExercise::new(0);
    let values: Vec<u8> = exercise.sequence.iter().map(|n| n.value()).collect();
    assert_eq!(values, [60, 62, 64, 65, 67, 69, 71, 72, 71, 69, 67, 65, 64, 62, 60]);
    for v in [61u8, 63, 66, 68, 70] {
        assert!(!exercise.attempt(note(v), MS).correct);
    }
    let mistakes: Vec<u8> = exercise.recent_mistakes.iter().map(|n| n.value()).collect();
    assert_eq!(mistakes, [63, 66, 68, 70]);
    for (i, v) in values.iter().enumerate() {
        assert!(exercise.attempt(note(*v), (i as u64 + 2) * MS).correct);
    }
    assert_eq!(exercise.completed, 1);
    assert_eq!(exercise.index, 0);
    assert_eq!(exercise.last_completion, Some(16 * MS));
    assert_eq!(exercise.expected(), note(60));
}

#[test]
fn scale_exercise_shifts_root_and_kind() {
    let mut exercise = ScaleExercise::new(0);
    exercise.shift_root(-1, 0);
    assert_eq!(exercise.root, PitchClass::new(11));
    assert_eq!(exercise.expected(), note(71));
    exercise.shift_kind(-1, 0);
    assert_eq!(exercise.kind, ScaleKind::Chromatic);
    assert_eq!(exercise.sequence.len(), 25);
    exercise.shift_kind(-1, 0);
    assert_eq!(exercise.kind, ScaleKind::MinorPentatonic);
    exercise.shift_kind(7, 0);
    assert_eq!(exercise.kind, ScaleKind::Major);
}
