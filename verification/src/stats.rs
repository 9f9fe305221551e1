//! Aggregate practice data kept across sessions.
use vstd::prelude::*;
use std::collections::BTreeMap;

use crate::trainer::{miss_count, SessionMetrics};
use crate::tutor::{mode_index, App, Mode};

verus! {

broadcast use vstd::laws_cmp::group_laws_cmp, vstd::std_specs::btree::group_btree_axioms;

/// Practice totals over all sessions.
#[derive(Clone, Debug)]
pub struct PracticeStats {
    pub version: u32,
    pub aggregate_practice_seconds: u64,
    pub attempts: u64,
    pub correct: u64,
    /// Misses per note number.
    pub weak_note_counts: BTreeMap<u8, u64>,
    /// The best streak per exercise, keyed by the number of its mode (see `mode_index`).
    pub best_streaks: BTreeMap<u8, u32>,
}

impl Default for PracticeStats {
    fn default() -> (r: Self)
        ensures
            r.version == 0,
            r.aggregate_practice_seconds == 0,
            r.attempts == 0,
            r.correct == 0,
            r.weak_note_counts@ == Map::<u8, u64>::empty(),
            r.best_streaks@ == Map::<u8, u32>::empty(),
    {
        PracticeStats {
            version: 0,
            aggregate_practice_seconds: 0,
            attempts: 0,
            correct: 0,
            weak_note_counts: BTreeMap::new(),
            best_streaks: BTreeMap::new(),
        }
    }
}

/// Addition that stops at `u64::MAX`.
pub open spec fn sat_add(a: int, b: int) -> u64 {
    if a + b > u64::MAX { u64::MAX } else { (a + b) as u64 }
}

/// The total after adding three sessions' counts one at a time, each addition saturating.
pub open spec fn sat_add3(total: u64, x: u64, y: u64, z: u64) -> u64 {
    sat_add(sat_add(sat_add(total as int, x as int) as int, y as int) as int, z as int)
}

/// The best streak recorded for exercise `key`, zero when none is.
pub open spec fn streak_of(best: Map<u8, u32>, key: u8) -> u32 {
    if best.contains_key(key) { best[key] } else { 0 }
}

/// The best streaks after a session of exercise `key` whose best streak was `streak`: the
/// larger of the recorded one and `streak`.
pub open spec fn with_streak(best: Map<u8, u32>, key: u8, streak: u32) -> Map<u8, u32> {
    best.insert(key, if streak > streak_of(best, key) { streak } else { streak_of(best, key) })
}

/// The best streaks after a session of the note, scale and rhythm exercises.
pub open spec fn with_session_streaks(best: Map<u8, u32>, app: &App) -> Map<u8, u32> {
    with_streak(
        with_streak(
            with_streak(best, mode_index(Mode::Notes) as u8, app.note_exercise.metrics.best_streak),
            mode_index(Mode::Scales) as u8,
            app.scale_exercise.metrics.best_streak,
        ),
        mode_index(Mode::Rhythm) as u8,
        app.rhythm_metrics.best_streak,
    )
}

fn add_best_streak(best: &mut BTreeMap<u8, u32>, key: u8, streak: u32)
    ensures
        final(best)@ == with_streak(old(best)@, key, streak),
{
    let current: u32 = match best.get(&key) {
        Some(b) => *b,
        None => 0,
    };
    let value = if streak > current { streak } else { current };
    best.insert(key, value);
}

/// Adds the session's attempts, correct answers and misses per note to the totals (each
/// addition stopping at `u64::MAX`), and keeps the best streak of each exercise.
pub fn record_session(stats: &mut PracticeStats, app: &App)
    ensures
        final(stats).attempts == sat_add3(
            old(stats).attempts,
            app.note_exercise.metrics.attempts,
            app.scale_exercise.metrics.attempts,
            app.rhythm_metrics.attempts,
        ),
        final(stats).correct == sat_add3(
            old(stats).correct,
            app.note_exercise.metrics.correct,
            app.scale_exercise.metrics.correct,
            app.rhythm_metrics.correct,
        ),
        forall|k: u8| #[trigger] final(stats).weak_note_counts@.contains_key(k) == (
            old(stats).weak_note_counts@.contains_key(k) || app.note_exercise.weak_notes@.contains_key(k)),
        forall|k: u8| #[trigger] final(stats).weak_note_counts@.contains_key(k) ==> final(stats).weak_note_counts@[k]
            == sat_add(
                miss_count(old(stats).weak_note_counts@, k),
                miss_count(app.note_exercise.weak_notes@, k),
            ),
        final(stats).best_streaks@ == with_session_streaks(old(stats).best_streaks@, app),
        final(stats).version == old(stats).version,
        final(stats).aggregate_practice_seconds == old(stats).aggregate_practice_seconds,
{
    let sessions: [&SessionMetrics; 3] = [&app.note_exercise.metrics, &app.scale_exercise.metrics, &app.rhythm_metrics];
    let mut i: usize = 0;
    while i < 3
        invariant
            i <= 3,
            sessions@ == seq![&app.note_exercise.metrics, &app.scale_exercise.metrics, &app.rhythm_metrics],
            stats.attempts == (if i == 0 { old(stats).attempts } else if i == 1 {
                sat_add(old(stats).attempts as int, app.note_exercise.metrics.attempts as int)
            } else if i == 2 {
                sat_add(sat_add(old(stats).attempts as int, app.note_exercise.metrics.attempts as int) as int,
                    app.scale_exercise.metrics.attempts as int)
            } else {
                sat_add3(old(stats).attempts, app.note_exercise.metrics.attempts,
                    app.scale_exercise.metrics.attempts, app.rhythm_metrics.attempts)
            }),
            stats.correct == (if i == 0 { old(stats).correct } else if i == 1 {
                sat_add(old(stats).correct as int, app.note_exercise.metrics.correct as int)
            } else if i == 2 {
                sat_add(sat_add(old(stats).correct as int, app.note_exercise.metrics.correct as int) as int,
                    app.scale_exercise.metrics.correct as int)
            } else {
                sat_add3(old(stats).correct, app.note_exercise.metrics.correct,
                    app.scale_exercise.metrics.correct, app.rhythm_metrics.correct)
            }),
            stats.best_streaks@ == (if i == 0 { old(stats).best_streaks@ } else if i == 1 {
                with_streak(old(stats).best_streaks@, 1, app.note_exercise.metrics.best_streak)
            } else if i == 2 {
                with_streak(with_streak(old(stats).best_streaks@, 1, app.note_exercise.metrics.best_streak),
                    2, app.scale_exercise.metrics.best_streak)
            } else {
                with_session_streaks(old(stats).best_streaks@, app)
            }),
            stats.weak_note_counts == old(stats).weak_note_counts,
            stats.version == old(stats).version,
            stats.aggregate_practice_seconds == old(stats).aggregate_practice_seconds,
        decreases 3 - i,
    {
        let session = sessions[i];
        let key: u8 = if i == 0 { 1 } else if i == 1 { 2 } else { 3 };
        stats.attempts = stats.attempts.saturating_add(session.attempts);
        stats.correct = stats.correct.saturating_add(session.correct);
        add_best_streak(&mut stats.best_streaks, key, session.best_streak);
        i += 1;
    }
    let ghost before = stats.weak_note_counts@;
    let mut k: u16 = 0;
    while k < 256
        invariant
            k <= 256,
            before == old(stats).weak_note_counts@,
            forall|j: u8| j >= k ==> (#[trigger] stats.weak_note_counts@.contains_key(j) == before.contains_key(j)
                && (before.contains_key(j) ==> stats.weak_note_counts@[j] == before[j])),
            forall|j: u8| j < k ==> #[trigger] stats.weak_note_counts@.contains_key(j) == (
                before.contains_key(j) || app.note_exercise.weak_notes@.contains_key(j)),
            forall|j: u8| j < k && #[trigger] stats.weak_note_counts@.contains_key(j) ==> stats.weak_note_counts@[j]
                == sat_add(miss_count(before, j), miss_count(app.note_exercise.weak_notes@, j)),
            stats.attempts == sat_add3(old(stats).attempts, app.note_exercise.metrics.attempts,
                app.scale_exercise.metrics.attempts, app.rhythm_metrics.attempts),
            stats.correct == sat_add3(old(stats).correct, app.note_exercise.metrics.correct,
                app.scale_exercise.metrics.correct, app.rhythm_metrics.correct),
            stats.best_streaks@ == with_session_streaks(old(stats).best_streaks@, app),
            stats.version == old(stats).version,
            stats.aggregate_practice_seconds == old(stats).aggregate_practice_seconds,
        decreases 256 - k,
    {
        let note = k as u8;
        match app.note_exercise.weak_notes.get(&note) {
            Some(count) => {
                let total: u64 = match stats.weak_note_counts.get(&note) {
                    Some(t) => *t,
                    None => 0,
                };
                stats.weak_note_counts.insert(note, total.saturating_add(*count));
            },
            None => {},
        }
        k += 1;
    }
}

} // verus!
