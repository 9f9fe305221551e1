//! Exercise state, scoring thresholds and timing. Times are nanoseconds of a monotonic clock.
use vstd::prelude::*;
use vstd::string::*;
use std::collections::{BTreeMap, VecDeque};

use crate::music::{
    bytes_of, group_music, kind_index, kind_at, notes_in_range, scale_intervals, up_and_down,
    MidiNote, PitchClass, Scale, ScaleKind,
};
use crate::text::text_of;

verus! {

broadcast use group_music, vstd::laws_cmp::group_laws_cmp, vstd::std_specs::btree::group_btree_axioms;

/// Offsets within this many milliseconds of the beat are perfect.
pub const RHYTHM_PERFECT_MS: i64 = 35;
/// Offsets within this many milliseconds of the beat are good.
pub const RHYTHM_GOOD_MS: i64 = 80;
/// Offsets beyond this many milliseconds miss the beat.
pub const RHYTHM_HIT_WINDOW_MS: i64 = 180;
/// The number of notes in a staff-reading phrase.
pub const STAFF_PHRASE_LENGTH: usize = 8;
/// How long a completed phrase stays on screen before the next one, in nanoseconds.
pub const STAFF_COMPLETE_HOLD_NS: u64 = 700_000_000;

/// Nanoseconds from `since` to `now`, zero when `now` is earlier.
pub open spec fn elapsed(now: u64, since: u64) -> u64 {
    if now >= since { (now - since) as u64 } else { 0 }
}

/// Saturating difference of two clock readings.
pub fn elapsed_since(now: u64, since: u64) -> (r: u64)
    ensures
        r == elapsed(now, since),
{
    if now >= since { now - since } else { 0 }
}

/// One scored note.
#[derive(Clone, Copy, Debug)]
pub struct Attempt {
    pub played: MidiNote,
    pub expected: MidiNote,
    pub correct: bool,
    /// Nanoseconds from the prompt to the note.
    pub response_time: u64,
    /// Signed distance from the nearest beat, in milliseconds, for rhythm attempts.
    pub timing_offset_ms: Option<i64>,
}

/// Running totals of an exercise session.
#[derive(Clone, Copy, Debug)]
pub struct SessionMetrics {
    pub attempts: u64,
    pub correct: u64,
    pub streak: u32,
    pub best_streak: u32,
    /// Sum of the response times, in nanoseconds.
    pub response_time_total: u128,
    pub timing_abs_total_ms: u64,
    pub timed_attempts: u64,
}

/// Metrics with every total at zero.
pub open spec fn zero_metrics() -> SessionMetrics {
    SessionMetrics {
        attempts: 0,
        correct: 0,
        streak: 0,
        best_streak: 0,
        response_time_total: 0,
        timing_abs_total_ms: 0,
        timed_attempts: 0,
    }
}

impl Default for SessionMetrics {
    fn default() -> (r: Self)
        ensures
            r == zero_metrics(),
    {
        SessionMetrics {
            attempts: 0,
            correct: 0,
            streak: 0,
            best_streak: 0,
            response_time_total: 0,
            timing_abs_total_ms: 0,
            timed_attempts: 0,
        }
    }
}

/// The magnitude of a signed offset.
pub open spec fn magnitude(o: i64) -> int {
    if o < 0 { -o } else { o as int }
}

/// The metrics after recording one attempt.
pub open spec fn recorded(m: SessionMetrics, a: Attempt) -> SessionMetrics {
    let streak: u32 = if a.correct { (m.streak + 1) as u32 } else { 0 };
    SessionMetrics {
        attempts: (m.attempts + 1) as u64,
        correct: if a.correct { (m.correct + 1) as u64 } else { m.correct },
        streak,
        best_streak: if a.correct && streak > m.best_streak { streak } else { m.best_streak },
        response_time_total: (m.response_time_total + a.response_time) as u128,
        timing_abs_total_ms: match a.timing_offset_ms {
            Some(o) => (m.timing_abs_total_ms + magnitude(o)) as u64,
            None => m.timing_abs_total_ms,
        },
        timed_attempts: match a.timing_offset_ms {
            Some(o) => (m.timed_attempts + 1) as u64,
            None => m.timed_attempts,
        },
    }
}

impl SessionMetrics {
    /// No total overflows when `a` is recorded.
    pub open spec fn can_record(&self, a: Attempt) -> bool {
        &&& self.attempts < u64::MAX
        &&& a.correct ==> self.correct < u64::MAX && self.streak < u32::MAX
        &&& self.response_time_total + a.response_time <= u128::MAX
        &&& a.timing_offset_ms matches Some(o) ==> self.timed_attempts < u64::MAX
            && self.timing_abs_total_ms + magnitude(o) <= u64::MAX
    }

    /// Whether `a` can be recorded without any total overflowing.
    pub fn has_room_for(&self, a: &Attempt) -> (r: bool)
        ensures
            r == self.can_record(*a),
    {
        if self.attempts == u64::MAX {
            return false;
        }
        if a.correct && (self.correct == u64::MAX || self.streak == u32::MAX) {
            return false;
        }
        if self.response_time_total > u128::MAX - a.response_time as u128 {
            return false;
        }
        match a.timing_offset_ms {
            Some(o) => {
                let m: u64 = if o < 0 {
                    if o == i64::MIN { 9223372036854775808u64 } else { (-o) as u64 }
                } else {
                    o as u64
                };
                self.timed_attempts < u64::MAX && self.timing_abs_total_ms <= u64::MAX - m
            },
            None => true,
        }
    }

    /// Counts an attempt: a correct one extends the streak, a wrong one ends it.
    pub fn record(&mut self, attempt: Attempt)
        requires
            old(self).can_record(attempt),
        ensures
            *final(self) == recorded(*old(self), attempt),
    {
        self.attempts += 1;
        self.response_time_total += attempt.response_time as u128;
        if attempt.correct {
            self.correct += 1;
            self.streak += 1;
            if self.streak > self.best_streak {
                self.best_streak = self.streak;
            }
        } else {
            self.streak = 0;
        }
        if let Some(offset) = attempt.timing_offset_ms {
            let m: u64 = if offset < 0 {
                if offset == i64::MIN { 9223372036854775808u64 } else { (-offset) as u64 }
            } else {
                offset as u64
            };
            self.timing_abs_total_ms += m;
            self.timed_attempts += 1;
        }
    }
}

/// Scores a note against the expected one.
pub fn score_note(played: MidiNote, expected: MidiNote, elapsed: u64) -> (r: Attempt)
    ensures
        r == (Attempt {
            played,
            expected,
            correct: played == expected,
            response_time: elapsed,
            timing_offset_ms: None,
        }),
{
    Attempt { played, expected, correct: played == expected, response_time: elapsed, timing_offset_ms: None }
}

/// How close a note came to the beat.
#[derive(Clone, Copy, Debug, PartialEq, Eq, Structural)]
pub enum RhythmGrade {
    Perfect,
    Good,
    Early,
    Late,
    Miss,
}

/// The grade of a signed offset from the beat, in milliseconds.
pub open spec fn grade_of(offset_ms: int) -> RhythmGrade {
    let a = if offset_ms < 0 { -offset_ms } else { offset_ms };
    if a <= RHYTHM_PERFECT_MS {
        RhythmGrade::Perfect
    } else if a <= RHYTHM_GOOD_MS {
        RhythmGrade::Good
    } else if a > RHYTHM_HIT_WINDOW_MS {
        RhythmGrade::Miss
    } else if offset_ms < 0 {
        RhythmGrade::Early
    } else {
        RhythmGrade::Late
    }
}

/// The display text of a grade.
pub open spec fn grade_text(g: RhythmGrade) -> Seq<char> {
    match g {
        RhythmGrade::Perfect => "perfect"@,
        RhythmGrade::Good => "good"@,
        RhythmGrade::Early => "early"@,
        RhythmGrade::Late => "late"@,
        RhythmGrade::Miss => "miss"@,
    }
}

impl RhythmGrade {
    /// The display text, e.g. `perfect`.
    pub fn to_string(self) -> (r: String)
        ensures
            r@ == grade_text(self),
    {
        match self {
            RhythmGrade::Perfect => { proof { reveal_strlit("perfect"); } text_of("perfect") },
            RhythmGrade::Good => { proof { reveal_strlit("good"); } text_of("good") },
            RhythmGrade::Early => { proof { reveal_strlit("early"); } text_of("early") },
            RhythmGrade::Late => { proof { reveal_strlit("late"); } text_of("late") },
            RhythmGrade::Miss => { proof { reveal_strlit("miss"); } text_of("miss") },
        }
    }
}

/// Grades a signed offset from the beat: perfect within 35 ms, good within 80 ms,
/// early or late within 180 ms, a miss beyond.
pub fn classify_rhythm(offset_ms: i64) -> (r: RhythmGrade)
    ensures
        r == grade_of(offset_ms as int),
{
    if offset_ms == i64::MIN {
        return RhythmGrade::Miss;
    }
    let absolute = if offset_ms < 0 { -offset_ms } else { offset_ms };
    if absolute <= RHYTHM_PERFECT_MS {
        RhythmGrade::Perfect
    } else if absolute <= RHYTHM_GOOD_MS {
        RhythmGrade::Good
    } else if absolute > RHYTHM_HIT_WINDOW_MS {
        RhythmGrade::Miss
    } else if offset_ms < 0 {
        RhythmGrade::Early
    } else {
        RhythmGrade::Late
    }
}

/// One step of the xorshift generator that drives the exercises.
pub open spec fn xorshift(x: u64) -> u64 {
    let a = x ^ (x << 13u64);
    let b = a ^ (a >> 7u64);
    b ^ (b << 17u64)
}

fn xorshift_step(x: u64) -> (r: u64)
    ensures
        r == xorshift(x),
{
    let a = x ^ (x << 13u64);
    let b = a ^ (a >> 7u64);
    b ^ (b << 17u64)
}

/// A training range with its bounds ordered and within `0..=127`.
pub open spec fn normalized(range: (u8, u8)) -> (u8, u8) {
    let lo = if range.0 <= range.1 { range.0 } else { range.1 };
    let hi = if range.0 <= range.1 { range.1 } else { range.0 };
    (if lo <= 127 { lo } else { 127 }, if hi <= 127 { hi } else { 127 })
}

/// Orders the bounds of a training range and clamps them to `0..=127`.
pub fn normalized_range(range: (u8, u8)) -> (r: (u8, u8))
    ensures
        r == normalized(range),
        r.0 <= r.1 <= 127,
{
    let lo = if range.0 <= range.1 { range.0 } else { range.1 };
    let hi = if range.0 <= range.1 { range.1 } else { range.0 };
    (if lo <= 127 { lo } else { 127 }, if hi <= 127 { hi } else { 127 })
}

/// Up to `tries` draws for a value in `low .. low + width` other than `previous` (any value
/// when `width` is 1): the generator state after the draws and the value found, if any.
pub open spec fn draw_target(rng: u64, low: u8, width: u64, previous: u8, tries: nat) -> (u64, Option<u8>)
    decreases tries,
{
    if tries == 0 {
        (rng, None)
    } else {
        let next = xorshift(rng);
        let value = (low + next % width) as u8;
        if value != previous || width == 1 {
            (next, Some(value))
        } else {
            draw_target(next, low, width, previous, (tries - 1) as nat)
        }
    }
}

/// The next target of the note exercise and the generator state after choosing it: four
/// draws in the range for a note other than the current one, else the current one.
pub open spec fn retarget(target: u8, rng: u64, range: (u8, u8)) -> (u8, u64) {
    let width = (range.1 - range.0 + 1) as u64;
    let d = draw_target(rng, range.0, width, target, 4);
    (match d.1 { Some(v) => v, None => target }, d.0)
}

/// The count of misses recorded for a note.
pub open spec fn miss_count(weak: Map<u8, u64>, note: u8) -> int {
    if weak.contains_key(note) { weak[note] as int } else { 0 }
}

/// Random single-note targets within a training range.
pub struct NoteExercise {
    pub target: MidiNote,
    pub range: (u8, u8),
    pub hide_name: bool,
    pub metrics: SessionMetrics,
    /// Misses per target note number.
    pub weak_notes: BTreeMap<u8, u64>,
    pub target_since: u64,
    pub rng: u64,
}

impl NoteExercise {
    /// When the current target was set.
    pub open spec fn prompted_at(&self) -> u64 {
        self.target_since
    }

    /// The state of the target generator.
    pub open spec fn generator(&self) -> u64 {
        self.rng
    }

    /// The range is ordered within `0..=127` and holds the target.
    pub open spec fn wf(&self) -> bool {
        &&& self.range.0 <= self.range.1 <= 127
        &&& self.range.0 <= self.target.byte() <= self.range.1
    }

    /// The state of a new exercise over `range` at `now` with generator seed `seed_nanos`:
    /// the target drawn as from the lowest note of the normalized range.
    pub open spec fn initial(&self, range: (u8, u8), now: u64, seed_nanos: u64) -> bool {
        &&& self.wf()
        &&& self.range == normalized(range)
        &&& !self.hide_name
        &&& self.metrics == zero_metrics()
        &&& self.weak_notes@ == Map::<u8, u64>::empty()
        &&& self.prompted_at() == now
        &&& (self.target.byte(), self.generator()) == retarget(
            normalized(range).0,
            seed_nanos ^ 0x0050_4841_5345u64,
            normalized(range),
        )
    }

    /// A new exercise over the training range. `seed_nanos` is a reading of the clock that
    /// seeds the target generator.
    pub fn new(range: (u8, u8), now: u64, seed_nanos: u64) -> (r: Self)
        ensures
            r.initial(range, now, seed_nanos),
    {
        let range = normalized_range(range);
        let target = MidiNote::new(range.0).unwrap();
        let mut exercise = NoteExercise {
            target,
            range,
            hide_name: false,
            metrics: SessionMetrics::default(),
            weak_notes: BTreeMap::new(),
            target_since: now,
            rng: seed_nanos ^ 0x0050_4841_5345u64,
        };
        exercise.next(now);
        exercise
    }

    /// The attempt a note would make at `now`.
    pub open spec fn pending(&self, played: MidiNote, now: u64) -> Attempt {
        score_note_spec(played, self.target, elapsed(now, self.prompted_at()))
    }

    /// A note can be scored at `now` without any count overflowing.
    pub open spec fn can_attempt(&self, played: MidiNote, now: u64) -> bool {
        &&& self.metrics.can_record(self.pending(played, now))
        &&& played != self.target ==> miss_count(self.weak_notes@, self.target.byte()) < u64::MAX
    }

    /// `next` is `self` after scoring `played` at `now`, which gave `r`.
    pub open spec fn attempted(&self, next: &Self, played: MidiNote, now: u64, r: Attempt) -> bool {
        &&& r == self.pending(played, now)
        &&& next.wf()
        &&& next.metrics == recorded(self.metrics, r)
        &&& next.range == self.range
        &&& next.hide_name == self.hide_name
        &&& r.correct ==> {
            &&& (next.target.byte(), next.generator()) == retarget(self.target.byte(), self.generator(), self.range)
            &&& next.prompted_at() == now
            &&& next.weak_notes@ == self.weak_notes@
        }
        &&& !r.correct ==> {
            &&& next.target == self.target
            &&& next.generator() == self.generator()
            &&& next.prompted_at() == self.prompted_at()
            &&& next.weak_notes@ == self.weak_notes@.insert(
                self.target.byte(),
                (miss_count(self.weak_notes@, self.target.byte()) + 1) as u64,
            )
        }
    }

    /// `next` is `self` after a restart at `now`.
    pub open spec fn restarted(&self, next: &Self, now: u64) -> bool {
        &&& next.wf()
        &&& next.metrics == zero_metrics()
        &&& next.range == self.range
        &&& next.hide_name == self.hide_name
        &&& next.weak_notes@ == self.weak_notes@
        &&& next.prompted_at() == now
        &&& (next.target.byte(), next.generator()) == retarget(self.target.byte(), self.generator(), self.range)
    }

    /// Whether a note can be scored at `now` without any count overflowing.
    pub fn room_for(&self, played: MidiNote, now: u64) -> (r: bool)
        ensures
            r == self.can_attempt(played, now),
    {
        let a = score_note(played, self.target, elapsed_since(now, self.target_since));
        if !self.metrics.has_room_for(&a) {
            return false;
        }
        if played != self.target {
            let key = self.target.value();
            match self.weak_notes.get(&key) {
                Some(c) => *c < u64::MAX,
                None => true,
            }
        } else {
            true
        }
    }

    /// Scores a note against the target. A hit draws a new target; a miss counts against
    /// the target note.
    pub fn attempt(&mut self, played: MidiNote, now: u64) -> (r: Attempt)
        requires
            old(self).wf(),
            old(self).can_attempt(played, now),
        ensures
            old(self).attempted(final(self), played, now, r),
    {
        let attempt = score_note(played, self.target, elapsed_since(now, self.target_since));
        self.metrics.record(attempt);
        if attempt.correct {
            self.next(now);
        } else {
            let key = self.target.value();
            let count: u64 = match self.weak_notes.get(&key) {
                Some(c) => *c,
                None => 0,
            };
            self.weak_notes.insert(key, count + 1);
        }
        attempt
    }

    /// Clears the session totals and draws a new target.
    pub fn restart(&mut self, now: u64)
        requires
            old(self).wf(),
        ensures
            old(self).restarted(final(self), now),
    {
        self.metrics = SessionMetrics::default();
        self.next(now);
    }

    fn next(&mut self, now: u64)
        requires
            old(self).range.0 <= old(self).range.1 <= 127,
            old(self).range.0 <= old(self).target.byte() <= old(self).range.1,
        ensures
            final(self).wf(),
            final(self).prompted_at() == now,
            (final(self).target.byte(), final(self).generator()) == retarget(
                old(self).target.byte(),
                old(self).generator(),
                old(self).range,
            ),
            final(self).range == old(self).range,
            final(self).hide_name == old(self).hide_name,
            final(self).metrics == old(self).metrics,
            final(self).weak_notes@ == old(self).weak_notes@,
    {
        let previous = self.target.value();
        let width: u64 = (self.range.1 - self.range.0) as u64 + 1;
        let ghost start = self.rng;
        let mut tries: usize = 0;
        while tries < 4
            invariant
                tries <= 4,
                start == old(self).rng,
                self.range == old(self).range,
                width == self.range.1 - self.range.0 + 1,
                self.range.0 <= self.range.1 <= 127,
                previous == old(self).target.byte(),
                self.target == old(self).target,
                draw_target(start, self.range.0, width, previous, 4) == draw_target(
                    self.rng,
                    self.range.0,
                    width,
                    previous,
                    (4 - tries) as nat,
                ),
                self.hide_name == old(self).hide_name,
                self.metrics == old(self).metrics,
                self.weak_notes@ == old(self).weak_notes@,
            decreases 4 - tries,
        {
            let ghost before = self.rng;
            self.rng = xorshift_step(self.rng);
            let value = self.range.0 + (self.rng % width) as u8;
            assert(value == (self.range.0 + self.rng % width) as u8);
            assert(draw_target(before, self.range.0, width, previous, (4 - tries) as nat) == (
                if value != previous || width == 1 {
                    (self.rng, Some(value))
                } else {
                    draw_target(self.rng, self.range.0, width, previous, (4 - tries - 1) as nat)
                }));
            if value != previous || width == 1 {
                self.target = MidiNote::new(value).unwrap();
                self.target_since = now;
                assert(self.target.byte() == value);
                return;
            }
            tries += 1;
        }
        self.target_since = now;
    }
}

/// `Attempt` for a note scored against the expected one, as `score_note` builds it.
pub open spec fn score_note_spec(played: MidiNote, expected: MidiNote, elapsed: u64) -> Attempt {
    Attempt { played, expected, correct: played == expected, response_time: elapsed, timing_offset_ms: None }
}

/// The clef of the staff-reading exercise.
#[derive(Clone, Copy, Debug, PartialEq, Eq, Structural)]
pub enum StaffClef {
    Treble,
    Bass,
}

/// The notes on the five lines of a clef: E4 to F5 in treble, G2 to A3 in bass.
pub open spec fn clef_range(clef: StaffClef) -> (u8, u8) {
    match clef {
        StaffClef::Treble => (64, 77),
        StaffClef::Bass => (43, 57),
    }
}

/// The other clef.
pub open spec fn toggled(clef: StaffClef) -> StaffClef {
    match clef {
        StaffClef::Treble => StaffClef::Bass,
        StaffClef::Bass => StaffClef::Treble,
    }
}

impl StaffClef {
    /// The lowest and highest note drawn on the staff of this clef.
    pub fn midi_range(self) -> (r: (u8, u8))
        ensures
            r == clef_range(self),
    {
        match self {
            StaffClef::Treble => (64, 77),
            StaffClef::Bass => (43, 57),
        }
    }

    /// The name of the clef.
    pub fn label(self) -> (r: &'static str)
        ensures
            r@ == (match self {
                StaffClef::Treble => "treble"@,
                StaffClef::Bass => "bass"@,
            }),
    {
        match self {
            StaffClef::Treble => "treble",
            StaffClef::Bass => "bass",
        }
    }

    /// The other clef.
    pub fn toggle(self) -> (r: Self)
        ensures
            r == toggled(self),
    {
        match self {
            StaffClef::Treble => StaffClef::Bass,
            StaffClef::Bass => StaffClef::Treble,
        }
    }
}

/// The notes a phrase is drawn from: the training range within the staff of the clef,
/// or the whole staff when the two do not overlap.
pub open spec fn phrase_bounds(clef: StaffClef, training: (u8, u8)) -> (u8, u8) {
    let staff = clef_range(clef);
    let low = if training.0 >= staff.0 { training.0 } else { staff.0 };
    let high = if training.1 <= staff.1 { training.1 } else { staff.1 };
    if low <= high { (low, high) } else { staff }
}

/// The phrase the generator in state `rng` draws, continuing the notes `acc`: each draw
/// picks a note in `low..=high`; a draw that repeats the previous note is discarded
/// (when the range holds more than one note), and once `budget` discards are used up
/// a repeat is replaced by the next note up, or the lowest after the highest.
/// Gives the notes and the generator state after the last draw.
pub open spec fn draw_phrase(rng: u64, low: u8, high: u8, acc: Seq<u8>, budget: nat) -> (Seq<u8>, u64)
    decreases STAFF_PHRASE_LENGTH - acc.len(), budget,
{
    if acc.len() >= STAFF_PHRASE_LENGTH {
        (acc, rng)
    } else {
        let next = xorshift(rng);
        let width = (high - low + 1) as u64;
        let value = (low + next % width) as u8;
        let repeats = acc.len() > 0 && acc.last() == value && width > 1;
        if repeats && budget > 0 {
            draw_phrase(next, low, high, acc, (budget - 1) as nat)
        } else {
            let v: u8 = if repeats { if value < high { (value + 1) as u8 } else { low } } else { value };
            draw_phrase(next, low, high, acc.push(v), budget)
        }
    }
}

/// A phrase of the staff exercise: eight notes within the bounds, no note repeated
/// immediately unless the bounds hold a single note.
pub open spec fn valid_phrase(s: Seq<MidiNote>, bounds: (u8, u8)) -> bool {
    &&& s.len() == STAFF_PHRASE_LENGTH
    &&& forall|i: int| 0 <= i < s.len() ==> bounds.0 <= #[trigger] s[i].byte() <= bounds.1
    &&& bounds.0 < bounds.1 ==> forall|i: int| 0 <= i < s.len() - 1 ==> #[trigger] s[i] != s[i + 1]
}

/// Phrases of notes to read from a staff.
pub struct StaffExercise {
    pub clef: StaffClef,
    pub sequence: Vec<MidiNote>,
    pub index: usize,
    pub metrics: SessionMetrics,
    pub completed: u32,
    /// Nanoseconds the last completed phrase took.
    pub last_completion: Option<u64>,
    pub training_range: (u8, u8),
    pub target_since: u64,
    pub phrase_started: u64,
    pub complete_since: Option<u64>,
    pub rng: u64,
}

impl StaffExercise {
    /// The training range the phrases are drawn from.
    pub open spec fn training(&self) -> (u8, u8) {
        self.training_range
    }

    /// When the current note was prompted.
    pub open spec fn prompted_at(&self) -> u64 {
        self.target_since
    }

    /// When the current phrase started.
    pub open spec fn phrase_start(&self) -> u64 {
        self.phrase_started
    }

    /// When the current phrase was completed, if it was.
    pub open spec fn completed_at(&self) -> Option<u64> {
        self.complete_since
    }

    /// The position lies within the phrase (or just past it) and the training range is
    /// ordered within `0..=127`.
    pub open spec fn wf(&self) -> bool {
        &&& self.index <= self.sequence.len()
        &&& self.training().0 <= self.training().1 <= 127
    }

    /// The state right after a new phrase was drawn at `now` by the generator in state
    /// `rng`.
    pub open spec fn fresh_phrase(&self, rng: u64, now: u64) -> bool {
        let bounds = phrase_bounds(self.clef, self.training());
        let drawn = draw_phrase(rng, bounds.0, bounds.1, seq![], u64::MAX as nat);
        &&& self.wf()
        &&& valid_phrase(self.sequence@, bounds)
        &&& bytes_of(self.sequence@) == drawn.0
        &&& self.rng == drawn.1
        &&& self.index == 0
        &&& self.prompted_at() == now
        &&& self.phrase_start() == now
        &&& self.completed_at() == None::<u64>
    }

    /// A new exercise on the treble staff. `seed_nanos` is a reading of the clock that seeds
    /// the phrase generator.
    pub fn new(range: (u8, u8), now: u64, seed_nanos: u64) -> (r: Self)
        ensures
            r.fresh_phrase(seed_nanos ^ 0x5354_4146_465f_4e4fu64, now),
            r.clef == StaffClef::Treble,
            r.training() == normalized(range),
            r.metrics == zero_metrics(),
            r.completed == 0,
            r.last_completion == None::<u64>,
    {
        let mut exercise = StaffExercise {
            clef: StaffClef::Treble,
            sequence: Vec::new(),
            index: 0,
            metrics: SessionMetrics::default(),
            completed: 0,
            last_completion: None,
            training_range: normalized_range(range),
            target_since: now,
            phrase_started: now,
            complete_since: None,
            rng: seed_nanos ^ 0x5354_4146_465f_4e4fu64,
        };
        exercise.new_phrase(now);
        exercise
    }

    /// The note to play next, `None` once the phrase is complete.
    pub fn expected(&self) -> (r: Option<MidiNote>)
        ensures
            r == (if self.index < self.sequence.len() {
                Some(self.sequence@[self.index as int])
            } else {
                None::<MidiNote>
            }),
    {
        if self.index < self.sequence.len() {
            Some(self.sequence[self.index])
        } else {
            None
        }
    }

    /// The attempt the next note would make at `now`, if a note is expected.
    pub open spec fn pending(&self, played: MidiNote, now: u64) -> Option<Attempt> {
        if self.index < self.sequence.len() {
            Some(score_note_spec(played, self.sequence@[self.index as int], elapsed(now, self.prompted_at())))
        } else {
            None
        }
    }

    /// Scores a note against the expected one; a hit moves on, and the last hit completes
    /// the phrase. Once the phrase is complete, notes are not scored.
    pub fn attempt(&mut self, played: MidiNote, now: u64) -> (r: Option<Attempt>)
        requires
            old(self).wf(),
            old(self).pending(played, now) matches Some(a) ==> {
                &&& old(self).metrics.can_record(a)
                &&& (a.correct && old(self).index + 1 == old(self).sequence.len())
                    ==> old(self).completed < u32::MAX
            },
        ensures
            r == old(self).pending(played, now),
            final(self).wf(),
            final(self).clef == old(self).clef,
            final(self).sequence@ == old(self).sequence@,
            final(self).training() == old(self).training(),
            final(self).phrase_start() == old(self).phrase_start(),
            match r {
                None => *final(self) == *old(self),
                Some(a) => {
                    &&& final(self).metrics == recorded(old(self).metrics, a)
                    &&& !a.correct ==> {
                        &&& final(self).index == old(self).index
                        &&& final(self).prompted_at() == old(self).prompted_at()
                        &&& final(self).completed == old(self).completed
                        &&& final(self).last_completion == old(self).last_completion
                        &&& final(self).completed_at() == old(self).completed_at()
                    }
                    &&& a.correct ==> {
                        &&& final(self).index == old(self).index + 1
                        &&& final(self).prompted_at() == now
                        &&& if final(self).index == old(self).sequence.len() {
                            &&& final(self).completed == old(self).completed + 1
                            &&& final(self).last_completion == Some(elapsed(now, old(self).phrase_start()))
                            &&& final(self).completed_at() == Some(now)
                        } else {
                            &&& final(self).completed == old(self).completed
                            &&& final(self).last_completion == old(self).last_completion
                            &&& final(self).completed_at() == old(self).completed_at()
                        }
                    }
                },
            },
    {
        let expected = match self.expected() {
            Some(e) => e,
            None => return None,
        };
        let attempt = score_note(played, expected, elapsed_since(now, self.target_since));
        self.metrics.record(attempt);
        if attempt.correct {
            self.index += 1;
            self.target_since = now;
            if self.index == self.sequence.len() {
                self.completed += 1;
                self.last_completion = Some(elapsed_since(now, self.phrase_started));
                self.complete_since = Some(now);
            }
        }
        Some(attempt)
    }

    /// Whether a completed phrase has been shown long enough to be replaced at `now`.
    pub open spec fn due(&self, now: u64) -> bool {
        self.completed_at() matches Some(c) && elapsed(now, c) >= STAFF_COMPLETE_HOLD_NS
    }

    /// Draws the next phrase once a completed one has been shown for 700 ms; says whether
    /// it did.
    pub fn tick(&mut self, now: u64) -> (r: bool)
        requires
            old(self).wf(),
        ensures
            r == old(self).due(now),
            r ==> final(self).fresh_phrase(old(self).rng, now),
            !r ==> *final(self) == *old(self),
            final(self).clef == old(self).clef,
            final(self).training() == old(self).training(),
            final(self).metrics == old(self).metrics,
            final(self).completed == old(self).completed,
            final(self).last_completion == old(self).last_completion,
    {
        let due = match self.complete_since {
            Some(completed) => elapsed_since(now, completed) >= STAFF_COMPLETE_HOLD_NS,
            None => false,
        };
        if due {
            self.new_phrase(now);
            true
        } else {
            false
        }
    }

    /// Clears the session and draws a new phrase.
    pub fn restart(&mut self, now: u64)
        requires
            old(self).wf(),
        ensures
            final(self).fresh_phrase(old(self).rng, now),
            final(self).clef == old(self).clef,
            final(self).training() == old(self).training(),
            final(self).metrics == zero_metrics(),
            final(self).completed == 0,
            final(self).last_completion == None::<u64>,
    {
        self.metrics = SessionMetrics::default();
        self.completed = 0;
        self.last_completion = None;
        self.new_phrase(now);
    }

    /// Continues after a pause: a completed phrase is replaced, otherwise the clocks of the
    /// current phrase restart.
    pub fn resume(&mut self, now: u64)
        requires
            old(self).wf(),
        ensures
            final(self).wf(),
            final(self).clef == old(self).clef,
            final(self).training() == old(self).training(),
            final(self).metrics == old(self).metrics,
            final(self).completed == old(self).completed,
            final(self).last_completion == old(self).last_completion,
            old(self).completed_at() is Some ==> final(self).fresh_phrase(old(self).rng, now),
            old(self).completed_at() is None ==> {
                &&& final(self).sequence@ == old(self).sequence@
                &&& final(self).index == old(self).index
                &&& final(self).prompted_at() == now
                &&& final(self).phrase_start() == now
                &&& final(self).completed_at() == old(self).completed_at()
            },
    {
        if self.complete_since.is_some() {
            self.new_phrase(now);
        } else {
            self.target_since = now;
            self.phrase_started = now;
        }
    }

    /// Switches between treble and bass and draws a new phrase.
    pub fn toggle_clef(&mut self, now: u64)
        requires
            old(self).wf(),
        ensures
            final(self).clef == toggled(old(self).clef),
            final(self).fresh_phrase(old(self).rng, now),
            final(self).training() == old(self).training(),
            final(self).metrics == old(self).metrics,
            final(self).completed == old(self).completed,
            final(self).last_completion == old(self).last_completion,
    {
        self.clef = self.clef.toggle();
        self.new_phrase(now);
    }

    fn new_phrase(&mut self, now: u64)
        requires
            old(self).training().0 <= old(self).training().1 <= 127,
        ensures
            final(self).fresh_phrase(old(self).rng, now),
            final(self).clef == old(self).clef,
            final(self).training() == old(self).training(),
            final(self).metrics == old(self).metrics,
            final(self).completed == old(self).completed,
            final(self).last_completion == old(self).last_completion,
    {
        self.sequence.clear();
        let staff = self.clef.midi_range();
        let low0 = if self.training_range.0 >= staff.0 { self.training_range.0 } else { staff.0 };
        let high0 = if self.training_range.1 <= staff.1 { self.training_range.1 } else { staff.1 };
        let (low, high) = if low0 <= high0 { (low0, high0) } else { staff };
        assert((low, high) == phrase_bounds(self.clef, self.training()));
        let width: u64 = (high - low) as u64 + 1;
        let mut budget: u64 = u64::MAX;
        let ghost start = self.rng;
        assert(bytes_of(self.sequence@) =~= Seq::<u8>::empty());
        while self.sequence.len() < STAFF_PHRASE_LENGTH
            invariant
                start == old(self).rng,
                draw_phrase(start, low, high, seq![], u64::MAX as nat)
                    == draw_phrase(self.rng, low, high, bytes_of(self.sequence@), budget as nat),
                low <= high <= 127,
                width == high - low + 1,
                (low, high) == phrase_bounds(self.clef, self.training()),
                self.clef == old(self).clef,
                self.training() == old(self).training(),
                self.metrics == old(self).metrics,
                self.completed == old(self).completed,
                self.last_completion == old(self).last_completion,
                self.sequence.len() <= STAFF_PHRASE_LENGTH,
                forall|i: int| 0 <= i < self.sequence.len() ==> low <= #[trigger] self.sequence@[i].byte() <= high,
                low < high ==> forall|i: int| 0 <= i < self.sequence.len() - 1 ==> #[trigger] self.sequence@[i] != self.sequence@[i + 1],
            decreases STAFF_PHRASE_LENGTH - self.sequence.len(), budget,
        {
            let ghost before = self.rng;
            let ghost acc = bytes_of(self.sequence@);
            self.rng = xorshift_step(self.rng);
            let mut value: u8 = low + (self.rng % width) as u8;
            assert(value == (low + self.rng % width) as u8);
            let len = self.sequence.len();
            let repeats = len > 0 && self.sequence[len - 1].value() == value && width > 1;
            assert(len > 0 ==> acc.last() == self.sequence@[len - 1].byte());
            assert(repeats == (acc.len() > 0 && acc.last() == value && width > 1));
            if repeats {
                if budget > 0 {
                    budget -= 1;
                    continue;
                }
                value = if value < high { value + 1 } else { low };
            }
            let note = MidiNote::new(value).unwrap();
            self.sequence.push(note);
            assert(bytes_of(self.sequence@) =~= acc.push(value));
            assert forall|i: int| 0 <= i < self.sequence.len() - 1 && low < high implies #[trigger] self.sequence@[i] != self.sequence@[i + 1] by {
                if i == len - 1 {
                    assert(self.sequence@[i].byte() != self.sequence@[i + 1].byte());
                }
            }
        }
        self.index = 0;
        self.target_since = now;
        self.phrase_started = now;
        self.complete_since = None;
    }
}

/// Ascending and descending scale practice from a root around middle C.
pub struct ScaleExercise {
    pub root: PitchClass,
    pub kind: ScaleKind,
    pub sequence: Vec<MidiNote>,
    pub index: usize,
    pub metrics: SessionMetrics,
    pub completed: u32,
    /// The last four wrong notes, oldest first.
    pub recent_mistakes: VecDeque<MidiNote>,
    /// Nanoseconds the last complete run took.
    pub last_completion: Option<u64>,
    pub started: u64,
}

/// The note numbers of the run for a root pitch class and scale kind: up from the root in
/// the octave above middle C and back down.
pub open spec fn scale_run(root: PitchClass, kind: ScaleKind) -> Seq<u8> {
    up_and_down(notes_in_range(60 + root.index(), scale_intervals(kind)))
}

impl ScaleExercise {
    /// When the current run started.
    pub open spec fn run_start(&self) -> u64 {
        self.started
    }

    /// The run is non-empty, the position lies within it, at most four mistakes are kept.
    pub open spec fn wf(&self) -> bool {
        &&& self.index < self.sequence.len()
        &&& self.recent_mistakes@.len() <= 4
        &&& self.root.index() < 12
    }

    /// The state right after the run was rebuilt at `now`.
    pub open spec fn rebuilt(&self, now: u64) -> bool {
        &&& self.wf()
        &&& bytes_of(self.sequence@) == scale_run(self.root, self.kind)
        &&& self.index == 0
        &&& self.recent_mistakes@.len() == 0
        &&& self.run_start() == now
    }

    /// The state of a new exercise at `now`: C major from the start, no score.
    pub open spec fn initial(&self, now: u64) -> bool {
        &&& self.rebuilt(now)
        &&& self.root == PitchClass::from_index(0)
        &&& self.kind == ScaleKind::Major
        &&& self.metrics == zero_metrics()
        &&& self.completed == 0
        &&& self.last_completion == None::<u64>
    }

    /// A C major exercise.
    pub fn new(now: u64) -> (r: Self)
        ensures
            r.initial(now),
    {
        let mut exercise = ScaleExercise {
            root: PitchClass::c(),
            kind: ScaleKind::Major,
            sequence: Vec::new(),
            index: 0,
            metrics: SessionMetrics::default(),
            completed: 0,
            recent_mistakes: VecDeque::with_capacity(4),
            last_completion: None,
            started: now,
        };
        exercise.rebuild(now);
        exercise
    }

    /// The note to play next.
    pub fn expected(&self) -> (r: MidiNote)
        requires
            self.wf(),
        ensures
            r == self.sequence@[self.index as int],
    {
        self.sequence[self.index]
    }

    /// The attempt the next note would make at `now`.
    pub open spec fn pending(&self, played: MidiNote, now: u64) -> Attempt {
        score_note_spec(played, self.sequence@[self.index as int], elapsed(now, self.run_start()))
    }

    /// A note can be scored at `now` without any count overflowing.
    pub open spec fn can_attempt(&self, played: MidiNote, now: u64) -> bool {
        &&& self.metrics.can_record(self.pending(played, now))
        &&& self.pending(played, now).correct && self.index + 1 == self.sequence.len()
            ==> self.completed < u32::MAX
    }

    /// `next` is `self` after scoring `played` at `now`, which gave `r`.
    pub open spec fn attempted(&self, next: &Self, played: MidiNote, now: u64, r: Attempt) -> bool {
        &&& r == self.pending(played, now)
        &&& next.wf()
        &&& next.metrics == recorded(self.metrics, r)
        &&& next.root == self.root
        &&& next.kind == self.kind
        &&& next.sequence@ == self.sequence@
        &&& r.correct ==> {
            &&& next.recent_mistakes@ == self.recent_mistakes@
            &&& if self.index + 1 == self.sequence.len() {
                &&& next.index == 0
                &&& next.completed == self.completed + 1
                &&& next.last_completion == Some(elapsed(now, self.run_start()))
                &&& next.run_start() == now
            } else {
                &&& next.index == self.index + 1
                &&& next.completed == self.completed
                &&& next.last_completion == self.last_completion
                &&& next.run_start() == self.run_start()
            }
        }
        &&& !r.correct ==> {
            &&& next.index == self.index
            &&& next.completed == self.completed
            &&& next.last_completion == self.last_completion
            &&& next.run_start() == self.run_start()
            &&& next.recent_mistakes@ == (if self.recent_mistakes@.len() == 4 {
                self.recent_mistakes@.drop_first()
            } else {
                self.recent_mistakes@
            }).push(played)
        }
    }

    /// `next` is `self` with the run rebuilt at `now` for root `root` and kind `kind`,
    /// the session totals kept.
    pub open spec fn rebuilt_from(&self, next: &Self, root: PitchClass, kind: ScaleKind, now: u64) -> bool {
        &&& next.rebuilt(now)
        &&& next.root == root
        &&& next.kind == kind
        &&& next.metrics == self.metrics
        &&& next.completed == self.completed
        &&& next.last_completion == self.last_completion
    }

    /// Whether a note can be scored at `now` without any count overflowing.
    pub fn room_for(&self, played: MidiNote, now: u64) -> (r: bool)
        requires
            self.wf(),
        ensures
            r == self.can_attempt(played, now),
    {
        let a = score_note(played, self.expected(), elapsed_since(now, self.started));
        if !self.metrics.has_room_for(&a) {
            return false;
        }
        if a.correct && self.index + 1 == self.sequence.len() {
            self.completed < u32::MAX
        } else {
            true
        }
    }

    /// Scores a note against the expected one. A hit moves on, and completing the run
    /// starts it again; a miss is remembered among the last four mistakes.
    pub fn attempt(&mut self, played: MidiNote, now: u64) -> (r: Attempt)
        requires
            old(self).wf(),
            old(self).can_attempt(played, now),
        ensures
            old(self).attempted(final(self), played, now, r),
    {
        let attempt = score_note(played, self.expected(), elapsed_since(now, self.started));
        self.metrics.record(attempt);
        if attempt.correct {
            self.index += 1;
            if self.index == self.sequence.len() {
                self.completed += 1;
                self.last_completion = Some(elapsed_since(now, self.started));
                self.index = 0;
                self.started = now;
            }
        } else {
            if self.recent_mistakes.len() == 4 {
                self.recent_mistakes.pop_front();
            }
            self.recent_mistakes.push_back(played);
            assert(self.recent_mistakes@ =~= (if old(self).recent_mistakes@.len() == 4 {
                old(self).recent_mistakes@.drop_first()
            } else {
                old(self).recent_mistakes@
            }).push(played));
        }
        attempt
    }

    /// Moves the root by `amount` semitones, wrapping around the octave, and starts over.
    pub fn shift_root(&mut self, amount: i8, now: u64)
        requires
            old(self).wf(),
        ensures
            old(self).rebuilt_from(final(self), old(self).root.transpose_spec(amount), old(self).kind, now),
    {
        self.root = self.root.transpose(amount);
        self.rebuild(now);
    }

    /// Moves `amount` steps through the scale kinds, wrapping around, and starts over.
    pub fn shift_kind(&mut self, amount: i8, now: u64)
        requires
            old(self).wf(),
            kind_index(old(self).kind) + amount <= 127,
        ensures
            old(self).rebuilt_from(final(self), old(self).root, kind_at((kind_index(old(self).kind) + amount) % 5), now),
    {
        let current = self.kind.index() as i8;
        let sum: i8 = current + amount;
        let m: i8 = sum % 5;
        let index: i8 = if m < 0 { m + 5 } else { m };
        assert(index == (kind_index(old(self).kind) + amount) % 5);
        self.kind = ScaleKind::from_index(index as usize);
        self.rebuild(now);
    }

    /// Rebuilds the run for the current root and kind and starts it from the beginning.
    pub fn rebuild(&mut self, now: u64)
        requires
            old(self).root.index() < 12,
        ensures
            old(self).rebuilt_from(final(self), old(self).root, old(self).kind, now),
    {
        let root_note = MidiNote::new(60 + self.root.value()).unwrap();
        let scale = Scale { root: root_note, kind: self.kind };
        self.sequence = scale.ascending_descending();
        proof {
            lemma_run_nonempty(self.root.index() as int, self.kind);
        }
        self.index = 0;
        self.recent_mistakes.clear();
        self.started = now;
    }
}

proof fn lemma_run_nonempty(root: int, kind: ScaleKind)
    requires
        0 <= root < 12,
    ensures
        up_and_down(notes_in_range(60 + root, scale_intervals(kind))).len() > 0,
{
    let ivs = scale_intervals(kind);
    lemma_notes_in_range_first(60 + root, ivs, ivs.len() as int);
}

proof fn lemma_notes_in_range_first(root: int, ivs: Seq<u8>, n: int)
    requires
        0 <= root <= 127,
        1 <= n <= ivs.len(),
        ivs[0] == 0,
    ensures
        notes_in_range(root, ivs.take(n)).len() > 0,
    decreases n,
{
    if n == 1 {
        assert(ivs.take(1).drop_last() =~= Seq::<u8>::empty());
    } else {
        lemma_notes_in_range_first(root, ivs, n - 1);
        assert(ivs.take(n).drop_last() =~= ivs.take(n - 1));
    }
}

/// The signed distance, in milliseconds rounded half away from zero, from the elapsed time
/// to the nearest multiple of the beat (halfway rounding up to the later beat); zero for a
/// beat of zero length.
pub open spec fn beat_offset_ms(elapsed_ns: int, beat_ns: int) -> int {
    if beat_ns <= 0 {
        0
    } else {
        let nearest = ((2 * elapsed_ns + beat_ns) / (2 * beat_ns)) * beat_ns;
        let diff = elapsed_ns - nearest;
        if diff >= 0 { (diff + 500_000) / 1_000_000 } else { -((-diff + 500_000) / 1_000_000) }
    }
}

/// The signed offset in milliseconds of `now` from the nearest beat of a metronome started
/// at `epoch` with beats `beat` nanoseconds apart; negative when early.
pub fn nearest_beat_offset(now: u64, epoch: u64, beat: u64) -> (r: i64)
    ensures
        r == beat_offset_ms(elapsed(now, epoch) as int, beat as int),
        r > i64::MIN,
{
    if beat == 0 {
        return 0;
    }
    let e: u128 = elapsed_since(now, epoch) as u128;
    let b: u128 = beat as u128;
    let beats: u128 = (2 * e + b) / (2 * b);
    assert(beats <= e / b + 1) by (nonlinear_arith)
        requires beats == (2 * e + b) / (2 * b), b > 0;
    assert(beats * b <= e + b) by (nonlinear_arith)
        requires beats <= e / b + 1, b > 0;
    let nearest: u128 = beats * b;
    let r: i64 = if e >= nearest {
        let diff: u128 = e - nearest;
        ((diff + 500_000) / 1_000_000) as i64
    } else {
        let diff: u128 = nearest - e;
        assert(diff <= b);
        -(((diff + 500_000) / 1_000_000) as i64)
    };
    r
}

/// The rhythm grades are symmetric about the beat: an offset and its negation grade alike,
/// except that early and late trade places.
pub proof fn lemma_grade_symmetric(offset_ms: int)
    ensures
        grade_of(-offset_ms) == match grade_of(offset_ms) {
            RhythmGrade::Early => if offset_ms == 0 { RhythmGrade::Early } else { RhythmGrade::Late },
            RhythmGrade::Late => RhythmGrade::Early,
            g => g,
        },
{
}

/// Recording keeps the totals consistent: correct answers never exceed attempts, the
/// current streak never exceeds the best streak nor the correct answers, timed attempts
/// never exceed attempts.
pub proof fn lemma_record_keeps_totals_consistent(m: SessionMetrics, a: Attempt)
    requires
        m.can_record(a),
        m.correct <= m.attempts,
        m.streak <= m.best_streak,
        m.streak <= m.correct,
        m.timed_attempts <= m.attempts,
    ensures
        recorded(m, a).correct <= recorded(m, a).attempts,
        recorded(m, a).streak <= recorded(m, a).best_streak,
        recorded(m, a).streak <= recorded(m, a).correct,
        recorded(m, a).timed_attempts <= recorded(m, a).attempts,
        recorded(m, a).attempts == m.attempts + 1,
{
}

/// A phrase is drawn from the notes of the clef's staff, and from the training range too
/// whenever the two overlap.
pub proof fn lemma_phrase_on_staff(clef: StaffClef, training: (u8, u8))
    ensures
        clef_range(clef).0 <= phrase_bounds(clef, training).0,
        phrase_bounds(clef, training).0 <= phrase_bounds(clef, training).1,
        phrase_bounds(clef, training).1 <= clef_range(clef).1,
        (training.0 <= clef_range(clef).1 && clef_range(clef).0 <= training.1 && training.0 <= training.1) ==> {
            &&& training.0 <= phrase_bounds(clef, training).0
            &&& phrase_bounds(clef, training).1 <= training.1
        },
{
}

/// A freshly drawn phrase is ready to play: eight notes within the bounds of the clef and
/// the training range, none repeated back to back when the bounds hold more than one note,
/// the first note expected next.
pub proof fn lemma_fresh_phrase_ready(x: StaffExercise, rng: u64, now: u64)
    requires
        x.fresh_phrase(rng, now),
    ensures
        x.sequence@.len() == STAFF_PHRASE_LENGTH,
        x.index == 0,
        forall|i: int| 0 <= i < x.sequence@.len() ==> phrase_bounds(x.clef, x.training()).0
            <= #[trigger] x.sequence@[i].byte() <= phrase_bounds(x.clef, x.training()).1,
        phrase_bounds(x.clef, x.training()).0 < phrase_bounds(x.clef, x.training()).1 ==> forall|i: int|
            0 <= i < x.sequence@.len() - 1 ==> #[trigger] x.sequence@[i] != x.sequence@[i + 1],
        x.pending(x.sequence@[0], now) == Some(score_note_spec(x.sequence@[0], x.sequence@[0], 0)),
{
}

/// A draw for a new target stays in its range and, when the range holds more than one
/// note, never repeats the previous target.
pub proof fn lemma_draw_avoids_previous(rng: u64, low: u8, width: u64, previous: u8, tries: nat)
    requires
        1 <= width,
        low + width <= 256,
    ensures
        draw_target(rng, low, width, previous, tries).1 matches Some(v) ==> {
            &&& low <= v < low + width
            &&& width > 1 ==> v != previous
        },
    decreases tries,
{
    if tries > 0 {
        let next = xorshift(rng);
        assert(next % width < width);
        lemma_draw_avoids_previous(next, low, width, previous, (tries - 1) as nat);
    }
}

/// After a hit, the note exercise's next target lies in the training range, and over a
/// range of several notes it differs from the previous target unless every draw landed on
/// it: in particular the new target equals the old one only when the first draw did.
pub proof fn lemma_retarget_moves(target: u8, rng: u64, range: (u8, u8))
    requires
        range.0 <= target <= range.1 <= 127,
    ensures
        range.0 <= retarget(target, rng, range).0 <= range.1,
        range.0 < range.1 && retarget(target, rng, range).0 == target
            ==> range.0 + xorshift(rng) % ((range.1 - range.0 + 1) as u64) == target,
        range.0 < range.1 && range.0 + xorshift(rng) % ((range.1 - range.0 + 1) as u64) != target
            ==> retarget(target, rng, range).0 != target,
{
    let width = (range.1 - range.0 + 1) as u64;
    lemma_draw_avoids_previous(rng, range.0, width, target, 4);
    let next = xorshift(rng);
    assert(next % width < width);
    lemma_draw_avoids_previous(next, range.0, width, target, 3);
}

} // verus!
