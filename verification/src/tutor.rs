//! The state of the instrument and tutor and its transitions on MIDI events and keys.
//! Volume and the synthesizer patch are fractional and kept by the caller.
use vstd::prelude::*;
use vstd::string::*;
use std::collections::{BTreeMap, VecDeque};

use crate::chord::{chord_of, detect, Chord};
use crate::controls::{knob_for, knob_of, knob_tempo, tempo_from_knob, Knob};
use crate::midi::{channel_text, displayable, message_text, MidiEvent, MidiMessage};
use crate::music::{group_music, kind_at, kind_index, note_text, MidiNote, PitchClass};
use crate::text::{decimal, plus_signed_decimal, push_decimal, push_plus_signed, text_of};
use crate::trainer::{
    beat_offset_ms, classify_rhythm, elapsed, elapsed_since, grade_of, grade_text,
    nearest_beat_offset, recorded, zero_metrics, Attempt, NoteExercise, RhythmGrade,
    ScaleExercise, SessionMetrics,
};

verus! {

broadcast use group_music, vstd::std_specs::vecdeque::group_vec_dequeue_axioms;

/// How many recent MIDI events are kept for display.
pub const RECENT_EVENT_CAPACITY: usize = 8;
/// The number of semitones the on-screen keyboard shows above its lowest C.
pub const KEYBOARD_SPAN: u8 = 24;
const DEFAULT_KEYBOARD_BASE: u8 = 48;
const HIGHEST_KEYBOARD_BASE: u8 = 96;

/// The practice modes, in the order Tab cycles through them.
#[derive(Clone, Copy, Debug, PartialEq, Eq, Structural)]
pub enum Mode {
    Freeplay,
    Notes,
    Scales,
    Rhythm,
}

/// The position of a mode in the cycle.
pub open spec fn mode_index(m: Mode) -> int {
    match m {
        Mode::Freeplay => 0,
        Mode::Notes => 1,
        Mode::Scales => 2,
        Mode::Rhythm => 3,
    }
}

/// The mode at position `i` of the cycle (`0 <= i < 4`).
pub open spec fn mode_at(i: int) -> Mode {
    if i == 0 { Mode::Freeplay } else if i == 1 { Mode::Notes } else if i == 2 { Mode::Scales } else { Mode::Rhythm }
}

/// The mode `amount` steps along the cycle, wrapping around.
pub open spec fn shifted(m: Mode, amount: int) -> Mode {
    mode_at((mode_index(m) + amount) % 4)
}

/// The display text of a mode.
pub open spec fn mode_text(m: Mode) -> Seq<char> {
    match m {
        Mode::Freeplay => "freeplay"@,
        Mode::Notes => "notes"@,
        Mode::Scales => "scales"@,
        Mode::Rhythm => "rhythm"@,
    }
}

impl Mode {
    fn shift(self, amount: i8) -> (r: Self)
        requires
            -1 <= amount <= 1,
        ensures
            r == shifted(self, amount as int),
    {
        let index: i8 = match self {
            Mode::Freeplay => 0,
            Mode::Notes => 1,
            Mode::Scales => 2,
            Mode::Rhythm => 3,
        };
        let m: i8 = (index + amount) % 4;
        let wrapped: i8 = if m < 0 { m + 4 } else { m };
        assert(wrapped == (mode_index(self) + amount) % 4);
        if wrapped == 0 { Mode::Freeplay } else if wrapped == 1 { Mode::Notes } else if wrapped == 2 { Mode::Scales } else { Mode::Rhythm }
    }

    /// The display text, e.g. `freeplay`.
    pub fn to_string(self) -> (r: String)
        ensures
            r@ == mode_text(self),
    {
        match self {
            Mode::Freeplay => { proof { reveal_strlit("freeplay"); } text_of("freeplay") },
            Mode::Notes => { proof { reveal_strlit("notes"); } text_of("notes") },
            Mode::Scales => { proof { reveal_strlit("scales"); } text_of("scales") },
            Mode::Rhythm => { proof { reveal_strlit("rhythm"); } text_of("rhythm") },
        }
    }
}

/// What the screen shows of one key: how hard it sounds (0 when silent) and whether it is
/// held down.
#[derive(Clone, Copy, Debug)]
pub struct NoteState {
    pub velocity: u8,
    pub held: bool,
}

impl Default for NoteState {
    fn default() -> (r: Self)
        ensures
            r == (NoteState { velocity: 0, held: false }),
    {
        NoteState { velocity: 0, held: false }
    }
}

/// A key of the terminal keyboard.
#[derive(Clone, Copy, Debug, PartialEq, Eq, Structural)]
pub enum KeyCode {
    Char(char),
    Esc,
    Tab,
    BackTab,
    Left,
    Right,
    Up,
    Down,
    Other,
}

/// A key press, and whether no modifier key was held.
#[derive(Clone, Copy, Debug, PartialEq, Eq, Structural)]
pub struct KeyInput {
    pub code: KeyCode,
    pub plain: bool,
}

/// The display text of a scored note.
pub open spec fn attempt_text(a: Attempt) -> Seq<char> {
    if a.correct {
        "correct \u{b7} "@ + decimal((a.response_time / 1_000_000) as nat) + " ms"@
    } else {
        "expected "@ + note_text(a.expected.byte()) + ", played "@ + note_text(a.played.byte())
    }
}

fn format_attempt(attempt: Attempt) -> (r: String)
    ensures
        r@ == attempt_text(attempt),
{
    let mut s = String::new();
    if attempt.correct {
        proof { reveal_strlit("correct \u{b7} "); reveal_strlit(" ms"); }
        s.append("correct \u{b7} ");
        push_decimal(&mut s, attempt.response_time / 1_000_000);
        s.append(" ms");
    } else {
        proof { reveal_strlit("expected "); reveal_strlit(", played "); }
        s.append("expected ");
        let e = attempt.expected.to_string();
        s.append(e.as_str());
        s.append(", played ");
        let p = attempt.played.to_string();
        s.append(p.as_str());
    }
    assert(s@ =~= attempt_text(attempt));
    s
}

/// The keyboard's lowest C after moving down by octaves until `note` is not below it.
pub open spec fn moved_down(base: int, note: int) -> int
    decreases base,
{
    if note < base && base >= 12 { moved_down(base - 12, note) } else { base }
}

/// The keyboard's lowest C after moving up by octaves until `note` is not above its span.
pub open spec fn moved_up(base: int, note: int) -> int
    decreases 108 - base,
{
    if note > base + 24 && base < 96 { moved_up(base + 12, note) } else { base }
}

/// The keyboard's lowest C after following `note`: down by octaves while the note lies
/// below the keyboard, then up by octaves while it lies above, not beyond C7.
pub open spec fn followed_base(base: int, note: int) -> int {
    moved_up(moved_down(base, note), note)
}

/// The (note, state) pairs of the sounding keys among the first `n`, lowest first.
pub open spec fn active_prefix(ns: Seq<NoteState>, n: int) -> Seq<(MidiNote, NoteState)>
    decreases n,
{
    if n <= 0 {
        seq![]
    } else {
        let rest = active_prefix(ns, n - 1);
        if ns[n - 1].velocity > 0 { rest.push((MidiNote::from_byte((n - 1) as u8), ns[n - 1])) } else { rest }
    }
}

/// The sounding notes of a keyboard state, lowest first.
pub open spec fn active_notes_of(ns: Seq<NoteState>) -> Seq<MidiNote> {
    active_prefix(ns, ns.len() as int).map_values(|p: (MidiNote, NoteState)| p.0)
}

/// The keyboard state after a message: note on sounds and holds the key; note off lets it
/// go and silences it unless the pedal is down; lifting the pedal silences every key not
/// held.
pub open spec fn notes_after(ns: Seq<NoteState>, m: MidiMessage, sustain: bool) -> Seq<NoteState> {
    match m {
        MidiMessage::NoteOn { note, velocity, .. } => ns.update(
            note.byte() as int,
            NoteState { velocity, held: true },
        ),
        MidiMessage::NoteOff { note, .. } => ns.update(
            note.byte() as int,
            NoteState { velocity: if sustain { ns[note.byte() as int].velocity } else { 0 }, held: false },
        ),
        MidiMessage::Sustain { down, .. } => if down {
            ns
        } else {
            Seq::new(ns.len(), |i: int| if ns[i].held { ns[i] } else { NoteState { velocity: 0, held: false } })
        },
        _ => ns,
    }
}

/// The pedal after a message.
pub open spec fn sustain_after(sustain: bool, m: MidiMessage) -> bool {
    match m {
        MidiMessage::Sustain { down, .. } => down,
        _ => sustain,
    }
}

/// The line of the recent-event list for a message; a mapped knob shows the caller's
/// description of it.
pub open spec fn recent_line(m: MidiMessage, knob_text: Option<String>) -> Seq<char> {
    match m {
        MidiMessage::ControlChange { channel, value, .. } => match knob_text {
            Some(d) => channel_text(channel) + " "@ + d@ + " ["@ + decimal(value as nat) + "]"@,
            None => message_text(m),
        },
        _ => message_text(m),
    }
}

/// A list of at most eight lines after appending one, the oldest dropped when full.
pub open spec fn kept_before_push(q: Seq<String>) -> Seq<String> {
    if q.len() == RECENT_EVENT_CAPACITY { q.drop_first() } else { q }
}

/// The beat length at `bpm` beats per minute, in nanoseconds rounded to the nearest.
pub open spec fn beat_nanos(bpm: u16) -> int {
    (60_000_000_000int + bpm as int / 2) / (bpm as int)
}

/// The feedback line of a rhythm attempt.
pub open spec fn rhythm_text(g: RhythmGrade, offset: int) -> Seq<char> {
    grade_text(g) + " "@ + plus_signed_decimal(offset) + " ms"@
}

/// The instrument and tutor.
pub struct App {
    pub mode: Mode,
    pub notes: [NoteState; 128],
    pub keyboard_base: u8,
    pub sustain: bool,
    pub muted: bool,
    pub bpm: u16,
    pub paused: bool,
    pub help: bool,
    pub midi_name: String,
    pub audio_name: String,
    pub audio_ok: bool,
    pub warning: Option<String>,
    pub recent: VecDeque<String>,
    pub chord: Option<Chord>,
    pub last_control: Option<String>,
    pub note_exercise: NoteExercise,
    pub scale_exercise: ScaleExercise,
    pub rhythm_metrics: SessionMetrics,
    pub rhythm_note: MidiNote,
    pub last_feedback: String,
    pub started: u64,
    pub rhythm_epoch: u64,
    pub rhythm_last_beat: u64,
}

impl App {
    /// The keyboard sits on a C no higher than C7, the event list holds at most eight lines,
    /// and the exercises are well formed.
    pub open spec fn wf(&self) -> bool {
        &&& self.keyboard_base <= 96
        &&& self.keyboard_base % 12 == 0
        &&& self.recent@.len() <= RECENT_EVENT_CAPACITY
        &&& self.note_exercise.wf()
        &&& self.scale_exercise.wf()
    }

    /// The offset from the beat, the grade and the attempt of a note in rhythm mode.
    pub open spec fn rhythm_attempt(&self, note: MidiNote, at: u64) -> (int, RhythmGrade, Attempt) {
        let offset = beat_offset_ms(elapsed(at, self.rhythm_epoch) as int, beat_nanos(self.bpm));
        let grade = if note == self.rhythm_note { grade_of(offset) } else { RhythmGrade::Miss };
        let correct = note == self.rhythm_note && grade != RhythmGrade::Miss;
        (offset, grade, Attempt {
            played: note,
            expected: self.rhythm_note,
            correct,
            response_time: elapsed(at, self.rhythm_epoch),
            timing_offset_ms: Some(offset as i64),
        })
    }

    /// A note played at `at` can be scored in the current mode without any count
    /// overflowing (and, in rhythm mode, with a tempo above zero).
    pub open spec fn can_score(&self, note: MidiNote, at: u64) -> bool {
        match self.mode {
            Mode::Freeplay => true,
            Mode::Notes => self.note_exercise.can_attempt(note, at),
            Mode::Scales => self.scale_exercise.can_attempt(note, at),
            Mode::Rhythm => self.bpm > 0 && self.rhythm_metrics.can_record(self.rhythm_attempt(note, at).2),
        }
    }

    /// The event can be handled: its channel can be shown and, for a note to be scored,
    /// the score can be counted.
    pub open spec fn can_handle(&self, event: MidiEvent) -> bool {
        &&& displayable(event.message)
        &&& match event.message {
            MidiMessage::NoteOn { note, .. } => !self.paused ==> self.can_score(note, event.at),
            _ => true,
        }
    }

    /// `next` is `self` after scoring a note played at `at` in the current mode.
    pub open spec fn scored(&self, next: &App, note: MidiNote, at: u64) -> bool {
        &&& next.mode == self.mode
        &&& match self.mode {
            Mode::Freeplay => {
                &&& next.note_exercise == self.note_exercise
                &&& next.scale_exercise == self.scale_exercise
                &&& next.rhythm_metrics == self.rhythm_metrics
                &&& next.last_feedback == self.last_feedback
            },
            Mode::Notes => {
                let r = self.note_exercise.pending(note, at);
                &&& self.note_exercise.attempted(&next.note_exercise, note, at, r)
                &&& next.last_feedback@ == attempt_text(r)
                &&& next.scale_exercise == self.scale_exercise
                &&& next.rhythm_metrics == self.rhythm_metrics
            },
            Mode::Scales => {
                let r = self.scale_exercise.pending(note, at);
                &&& self.scale_exercise.attempted(&next.scale_exercise, note, at, r)
                &&& next.last_feedback@ == attempt_text(r)
                &&& next.note_exercise == self.note_exercise
                &&& next.rhythm_metrics == self.rhythm_metrics
            },
            Mode::Rhythm => {
                let (offset, grade, a) = self.rhythm_attempt(note, at);
                &&& next.rhythm_metrics == recorded(self.rhythm_metrics, a)
                &&& next.last_feedback@ == rhythm_text(grade, offset)
                &&& next.note_exercise == self.note_exercise
                &&& next.scale_exercise == self.scale_exercise
            },
        }
    }

    /// Everything but the keyboard, the event list, the chord, the knob settings and the
    /// scores is the same in `self` and `next`.
    pub open spec fn same_setup(&self, next: &App) -> bool {
        &&& next.mode == self.mode
        &&& next.paused == self.paused
        &&& next.help == self.help
        &&& next.midi_name == self.midi_name
        &&& next.audio_name == self.audio_name
        &&& next.audio_ok == self.audio_ok
        &&& next.warning == self.warning
        &&& next.rhythm_note == self.rhythm_note
        &&& next.started == self.started
        &&& next.rhythm_epoch == self.rhythm_epoch
        &&& next.rhythm_last_beat == self.rhythm_last_beat
    }

    /// A new session at `now` in freeplay, with the keyboard on C3. `seed_nanos` is a
    /// reading of the clock that seeds the note exercise.
    pub fn new(now: u64, bpm: u16, range: (u8, u8), seed_nanos: u64) -> (r: Self)
        ensures
            r.wf(),
            r.mode == Mode::Freeplay,
            r.notes@ == Seq::new(128, |i: int| NoteState { velocity: 0, held: false }),
            r.keyboard_base == 48,
            !r.sustain && !r.muted && !r.paused && !r.help && !r.audio_ok,
            r.bpm == bpm,
            r.midi_name@ == "not connected"@,
            r.audio_name@ == "disabled"@,
            r.warning is None,
            r.recent@.len() == 0,
            r.chord is None,
            r.last_control is None,
            r.note_exercise.initial(range, now, seed_nanos),
            r.scale_exercise.initial(now),
            r.rhythm_metrics == zero_metrics(),
            r.rhythm_note.byte() == 60,
            r.last_feedback@ == "ready"@,
            r.started == now && r.rhythm_epoch == now && r.rhythm_last_beat == 0,
    {
        let blank = NoteState { velocity: 0, held: false };
        let notes: [NoteState; 128] = [blank; 128];
        proof { reveal_strlit("not connected"); reveal_strlit("disabled"); reveal_strlit("ready"); }
        let app = App {
            mode: Mode::Freeplay,
            notes,
            keyboard_base: DEFAULT_KEYBOARD_BASE,
            sustain: false,
            muted: false,
            bpm,
            paused: false,
            help: false,
            midi_name: text_of("not connected"),
            audio_name: text_of("disabled"),
            audio_ok: false,
            warning: None,
            recent: VecDeque::with_capacity(RECENT_EVENT_CAPACITY),
            chord: None,
            last_control: None,
            note_exercise: NoteExercise::new(range, now, seed_nanos),
            scale_exercise: ScaleExercise::new(now),
            rhythm_metrics: SessionMetrics::default(),
            rhythm_note: MidiNote::new(60).unwrap(),
            last_feedback: text_of("ready"),
            started: now,
            rhythm_epoch: now,
            rhythm_last_beat: 0,
        };
        assert(app.notes@ =~= Seq::new(128, |i: int| NoteState { velocity: 0, held: false }));
        app
    }
}

impl App {
    /// The highest note of the on-screen keyboard, two octaves above its lowest C.
    pub fn keyboard_high(&self) -> (r: u8)
        requires
            self.keyboard_base <= 231,
        ensures
            r == self.keyboard_base + KEYBOARD_SPAN,
    {
        self.keyboard_base + KEYBOARD_SPAN
    }

    /// The length of a beat in nanoseconds at the current tempo.
    pub fn beat_duration(&self) -> (r: u64)
        requires
            self.bpm > 0,
        ensures
            r == beat_nanos(self.bpm),
    {
        (60_000_000_000u64 + (self.bpm / 2) as u64) / (self.bpm as u64)
    }

    /// Nanoseconds since the session started.
    pub fn session_duration(&self, now: u64) -> (r: u64)
        ensures
            r == elapsed(now, self.started),
    {
        elapsed_since(now, self.started)
    }

    /// The sounding notes with their state, lowest first.
    pub fn active_notes(&self) -> (r: Vec<(MidiNote, NoteState)>)
        ensures
            r@ == active_prefix(self.notes@, 128),
    {
        let mut r: Vec<(MidiNote, NoteState)> = Vec::new();
        let mut i: usize = 0;
        while i < 128
            invariant
                i <= 128,
                self.notes@.len() == 128,
                r@ == active_prefix(self.notes@, i as int),
            decreases 128 - i,
        {
            let state = self.notes[i];
            if state.velocity > 0 {
                r.push((MidiNote::new(i as u8).unwrap(), state));
            }
            i += 1;
        }
        r
    }

    /// The totals of the current exercise; none in freeplay.
    pub fn metrics(&self) -> (r: Option<&SessionMetrics>)
        ensures
            r == match self.mode {
                Mode::Freeplay => None::<&SessionMetrics>,
                Mode::Notes => Some(&self.note_exercise.metrics),
                Mode::Scales => Some(&self.scale_exercise.metrics),
                Mode::Rhythm => Some(&self.rhythm_metrics),
            },
    {
        match self.mode {
            Mode::Freeplay => None,
            Mode::Notes => Some(&self.note_exercise.metrics),
            Mode::Scales => Some(&self.scale_exercise.metrics),
            Mode::Rhythm => Some(&self.rhythm_metrics),
        }
    }

    fn push_recent(&mut self, message: String)
        requires
            old(self).recent@.len() <= RECENT_EVENT_CAPACITY,
        ensures
            final(self).recent@ == kept_before_push(old(self).recent@).push(message),
            final(self).recent@.len() <= RECENT_EVENT_CAPACITY,
            final(self).mode == old(self).mode,
            final(self).notes == old(self).notes,
            final(self).keyboard_base == old(self).keyboard_base,
            final(self).sustain == old(self).sustain,
            final(self).muted == old(self).muted,
            final(self).bpm == old(self).bpm,
            final(self).paused == old(self).paused,
            final(self).help == old(self).help,
            final(self).midi_name == old(self).midi_name,
            final(self).audio_name == old(self).audio_name,
            final(self).audio_ok == old(self).audio_ok,
            final(self).warning == old(self).warning,
            final(self).chord == old(self).chord,
            final(self).last_control == old(self).last_control,
            final(self).note_exercise == old(self).note_exercise,
            final(self).scale_exercise == old(self).scale_exercise,
            final(self).rhythm_metrics == old(self).rhythm_metrics,
            final(self).rhythm_note == old(self).rhythm_note,
            final(self).last_feedback == old(self).last_feedback,
            final(self).started == old(self).started,
            final(self).rhythm_epoch == old(self).rhythm_epoch,
            final(self).rhythm_last_beat == old(self).rhythm_last_beat,
    {
        if self.recent.len() == RECENT_EVENT_CAPACITY {
            self.recent.pop_front();
        }
        self.recent.push_back(message);
        assert(self.recent@ =~= kept_before_push(old(self).recent@).push(message));
    }

    fn follow_keyboard_note(&mut self, note: MidiNote)
        requires
            old(self).keyboard_base <= 96,
            old(self).keyboard_base % 12 == 0,
        ensures
            final(self).keyboard_base == followed_base(old(self).keyboard_base as int, note.byte() as int),
            final(self).keyboard_base <= 96,
            final(self).keyboard_base % 12 == 0,
            *final(self) == (App { keyboard_base: final(self).keyboard_base, ..*old(self) }),
    {
        let value = note.value();
        while value < self.keyboard_base && self.keyboard_base >= 12
            invariant
                value == note.byte(),
                self.keyboard_base <= 96,
                self.keyboard_base % 12 == 0,
                moved_down(self.keyboard_base as int, value as int) == moved_down(old(self).keyboard_base as int, value as int),
                *self == (App { keyboard_base: self.keyboard_base, ..*old(self) }),
            decreases self.keyboard_base,
        {
            self.keyboard_base -= 12;
        }
        let ghost low = self.keyboard_base;
        while value > self.keyboard_base + KEYBOARD_SPAN && self.keyboard_base < HIGHEST_KEYBOARD_BASE
            invariant
                value == note.byte(),
                self.keyboard_base <= 107,
                low <= 96,
                low % 12 == 0,
                moved_up(self.keyboard_base as int, value as int) == moved_up(low as int, value as int),
                low == moved_down(old(self).keyboard_base as int, value as int),
                *self == (App { keyboard_base: self.keyboard_base, ..*old(self) }),
            decreases 108 - self.keyboard_base,
        {
            self.keyboard_base += 12;
        }
        assert(self.keyboard_base <= 96 && self.keyboard_base % 12 == 0) by {
            lemma_moved_up_bounded(low as int, value as int);
        }
    }
}

proof fn lemma_moved_up_bounded(base: int, note: int)
    requires
        0 <= base <= 96,
        base % 12 == 0,
    ensures
        moved_up(base, note) <= 96,
        moved_up(base, note) % 12 == 0,
    decreases 108 - base,
{
    if note > base + 24 && base < 96 {
        lemma_moved_up_bounded(base + 12, note);
    }
}

/// The pedal-independent effect of a knob on muting: turning the volume knob unmutes.
pub open spec fn muted_after(muted: bool, m: MidiMessage) -> bool {
    match m {
        MidiMessage::ControlChange { controller, .. } => if knob_of(controller) == Some(Knob::Volume) {
            false
        } else {
            muted
        },
        _ => muted,
    }
}

/// The tempo after a message: the tempo knob sets it.
pub open spec fn bpm_after(bpm: u16, m: MidiMessage) -> u16 {
    match m {
        MidiMessage::ControlChange { controller, value, .. } => if knob_of(controller) == Some(Knob::Tempo) {
            knob_tempo(value)
        } else {
            bpm
        },
        _ => bpm,
    }
}

/// The description of the last knob turned, after a message.
pub open spec fn last_control_after(last: Option<String>, m: MidiMessage, knob_text: Option<String>) -> Option<String> {
    match m {
        MidiMessage::ControlChange { controller, .. } => if knob_of(controller) is Some {
            knob_text
        } else {
            last
        },
        _ => last,
    }
}

/// The keyboard's lowest C after a message: a note on moves it to show the note.
pub open spec fn base_after(base: u8, m: MidiMessage) -> int {
    match m {
        MidiMessage::NoteOn { note, .. } => followed_base(base as int, note.byte() as int),
        _ => base as int,
    }
}

impl App {
    fn refresh_chord(&mut self)
        ensures
            final(self).chord == chord_of(active_notes_of(old(self).notes@)),
            *final(self) == (App { chord: final(self).chord, ..*old(self) }),
    {
        let active = self.active_notes();
        let mut notes: Vec<MidiNote> = Vec::new();
        let mut i: usize = 0;
        while i < active.len()
            invariant
                i <= active.len(),
                active@ == active_prefix(self.notes@, 128),
                notes@ == active@.take(i as int).map_values(|p: (MidiNote, NoteState)| p.0),
            decreases active.len() - i,
        {
            notes.push(active[i].0);
            assert(active@.take(i + 1).map_values(|p: (MidiNote, NoteState)| p.0)
                =~= active@.take(i as int).map_values(|p: (MidiNote, NoteState)| p.0).push(active@[i as int].0));
            i += 1;
        }
        assert(active@.take(active.len() as int) =~= active@);
        assert(self.notes@.len() == 128);
        self.chord = detect(notes);
    }

    fn score_onset(&mut self, note: MidiNote, now: u64)
        requires
            old(self).wf(),
            old(self).can_score(note, now),
        ensures
            final(self).wf(),
            old(self).scored(final(self), note, now),
            *final(self) == (App {
                note_exercise: final(self).note_exercise,
                scale_exercise: final(self).scale_exercise,
                rhythm_metrics: final(self).rhythm_metrics,
                last_feedback: final(self).last_feedback,
                ..*old(self)
            }),
    {
        match self.mode {
            Mode::Freeplay => {},
            Mode::Notes => {
                let attempt = self.note_exercise.attempt(note, now);
                self.last_feedback = format_attempt(attempt);
            },
            Mode::Scales => {
                let attempt = self.scale_exercise.attempt(note, now);
                self.last_feedback = format_attempt(attempt);
            },
            Mode::Rhythm => {
                let beat = self.beat_duration();
                let offset = nearest_beat_offset(now, self.rhythm_epoch, beat);
                let grade = if note == self.rhythm_note {
                    classify_rhythm(offset)
                } else {
                    RhythmGrade::Miss
                };
                let correct = note == self.rhythm_note && grade != RhythmGrade::Miss;
                let attempt = Attempt {
                    played: note,
                    expected: self.rhythm_note,
                    correct,
                    response_time: elapsed_since(now, self.rhythm_epoch),
                    timing_offset_ms: Some(offset),
                };
                self.rhythm_metrics.record(attempt);
                let mut feedback = grade.to_string();
                proof { reveal_strlit(" "); reveal_strlit(" ms"); }
                feedback.append(" ");
                push_plus_signed(&mut feedback, offset);
                feedback.append(" ms");
                assert(feedback@ =~= rhythm_text(grade, offset as int));
                self.last_feedback = feedback;
            },
        }
    }

    /// Whether `event` can be handled (see `can_handle`).
    pub fn ready_for(&self, event: &MidiEvent) -> (r: bool)
        requires
            self.wf(),
        ensures
            r == self.can_handle(*event),
    {
        let shown = match event.message {
            MidiMessage::NoteOn { channel, .. } => channel < 255,
            MidiMessage::NoteOff { channel, .. } => channel < 255,
            MidiMessage::ControlChange { channel, .. } => channel < 255,
            MidiMessage::Sustain { channel, .. } => channel < 255,
            MidiMessage::Ignored { .. } => true,
        };
        if !shown {
            return false;
        }
        match event.message {
            MidiMessage::NoteOn { note, .. } => {
                if self.paused {
                    return true;
                }
                match self.mode {
                    Mode::Freeplay => true,
                    Mode::Notes => self.note_exercise.room_for(note, event.at),
                    Mode::Scales => self.scale_exercise.room_for(note, event.at),
                    Mode::Rhythm => {
                        if self.bpm == 0 {
                            return false;
                        }
                        let beat = self.beat_duration();
                        let offset = nearest_beat_offset(event.at, self.rhythm_epoch, beat);
                        let grade = if note == self.rhythm_note {
                            classify_rhythm(offset)
                        } else {
                            RhythmGrade::Miss
                        };
                        let attempt = Attempt {
                            played: note,
                            expected: self.rhythm_note,
                            correct: note == self.rhythm_note && grade != RhythmGrade::Miss,
                            response_time: elapsed_since(event.at, self.rhythm_epoch),
                            timing_offset_ms: Some(offset),
                        };
                        self.rhythm_metrics.has_room_for(&attempt)
                    },
                }
            },
            _ => true,
        }
    }

    /// Handles a MIDI event: records its line among the recent events, updates the keyboard,
    /// the pedal and the tempo and mute state of the knobs, scores a note in the current
    /// exercise unless paused, and recognises the chord now sounding. `knob_text` is the
    /// caller's description of the knob a control-change message turns, if it turns one.
    pub fn handle_midi(&mut self, event: MidiEvent, knob_text: Option<String>)
        requires
            old(self).wf(),
            old(self).can_handle(event),
        ensures
            final(self).wf(),
            final(self).recent@.len() == kept_before_push(old(self).recent@).len() + 1,
            final(self).recent@.drop_last() == kept_before_push(old(self).recent@),
            final(self).recent@.last()@ == recent_line(event.message, knob_text),
            final(self).notes@ == notes_after(old(self).notes@, event.message, old(self).sustain),
            final(self).sustain == sustain_after(old(self).sustain, event.message),
            final(self).keyboard_base == base_after(old(self).keyboard_base, event.message),
            final(self).chord == chord_of(active_notes_of(final(self).notes@)),
            final(self).muted == muted_after(old(self).muted, event.message),
            final(self).bpm == bpm_after(old(self).bpm, event.message),
            final(self).last_control == last_control_after(old(self).last_control, event.message, knob_text),
            old(self).same_setup(final(self)),
            match event.message {
                MidiMessage::NoteOn { note, .. } if !old(self).paused => old(self).scored(final(self), note, event.at),
                _ => {
                    &&& final(self).note_exercise == old(self).note_exercise
                    &&& final(self).scale_exercise == old(self).scale_exercise
                    &&& final(self).rhythm_metrics == old(self).rhythm_metrics
                    &&& final(self).last_feedback == old(self).last_feedback
                },
            },
    {
        let line = match event.message {
            MidiMessage::ControlChange { channel, value, .. } => match &knob_text {
                Some(d) => {
                    let mut t = String::new();
                    proof { reveal_strlit("ch "); reveal_strlit(" "); reveal_strlit(" ["); reveal_strlit("]"); }
                    t.append("ch ");
                    push_decimal(&mut t, (channel + 1) as u64);
                    t.append(" ");
                    t.append(d.as_str());
                    t.append(" [");
                    push_decimal(&mut t, value as u64);
                    t.append("]");
                    assert(t@ =~= recent_line(event.message, knob_text));
                    t
                },
                None => event.message.to_string(),
            },
            _ => event.message.to_string(),
        };
        self.push_recent(line);
        let ghost before = *self;
        match event.message {
            MidiMessage::NoteOn { note, velocity, .. } => {
                self.follow_keyboard_note(note);
                let v = note.value() as usize;
                self.notes[v] = NoteState { velocity, held: true };
                if !self.paused {
                    self.score_onset(note, event.at);
                }
            },
            MidiMessage::NoteOff { note, .. } => {
                let v = note.value() as usize;
                let state = self.notes[v];
                let velocity = if self.sustain { state.velocity } else { 0 };
                self.notes[v] = NoteState { velocity, held: false };
            },
            MidiMessage::Sustain { down, .. } => {
                self.sustain = down;
                if !down {
                    let mut i: usize = 0;
                    while i < 128
                        invariant
                            i <= 128,
                            self.notes@.len() == 128,
                            before.notes@.len() == 128,
                            forall|j: int| 0 <= j < i ==> #[trigger] self.notes@[j] == (if before.notes@[j].held {
                                before.notes@[j]
                            } else {
                                NoteState { velocity: 0, held: false }
                            }),
                            forall|j: int| i <= j < 128 ==> #[trigger] self.notes@[j] == before.notes@[j],
                            *self == (App { notes: self.notes, sustain: down, ..before }),
                        decreases 128 - i,
                    {
                        let state = self.notes[i];
                        if !state.held {
                            self.notes[i] = NoteState { velocity: 0, held: false };
                        }
                        i += 1;
                    }
                    assert(self.notes@ =~= notes_after(before.notes@, event.message, before.sustain));
                }
            },
            MidiMessage::ControlChange { controller, value, .. } => {
                match knob_for(controller) {
                    Some(knob) => {
                        match knob {
                            Knob::Volume => self.muted = false,
                            Knob::Tempo => self.bpm = tempo_from_knob(value),
                            Knob::Synth(_) => {},
                        }
                        self.last_control = knob_text;
                    },
                    None => {},
                }
            },
            MidiMessage::Ignored { .. } => {},
        }
        self.refresh_chord();
    }
}

/// The tempo after the `+` key: five BPM faster, at most 300.
pub open spec fn faster(bpm: u16) -> u16 {
    if bpm + 5 >= 300 { 300 } else { (bpm + 5) as u16 }
}

/// The tempo after the `-` key: five BPM slower, at least 30.
pub open spec fn slower(bpm: u16) -> u16 {
    if bpm <= 35 { 30 } else { (bpm - 5) as u16 }
}

impl App {
    /// `next` is `self` switched to `mode` at `now`: rhythm mode restarts its metronome.
    pub open spec fn mode_set(&self, next: &App, mode: Mode, now: u64) -> bool {
        &&& *next == (App {
            mode,
            rhythm_epoch: if mode == Mode::Rhythm { now } else { self.rhythm_epoch },
            rhythm_last_beat: if mode == Mode::Rhythm { 0 } else { self.rhythm_last_beat },
            last_feedback: next.last_feedback,
            ..*self
        })
        &&& next.last_feedback@ == mode_text(mode) + " mode"@
    }

    /// `next` is `self` after restarting the current exercise at `now`: freeplay lets go of
    /// every key and the pedal, the exercises start over, rhythm mode clears its score and
    /// restarts the metronome.
    pub open spec fn restarted(&self, next: &App, now: u64) -> bool {
        &&& next.last_feedback@ == "restarted"@
        &&& match self.mode {
            Mode::Freeplay => *next == (App {
                notes: next.notes,
                sustain: false,
                last_feedback: next.last_feedback,
                ..*self
            }) && next.notes@ == Seq::new(128, |i: int| NoteState { velocity: 0, held: false }),
            Mode::Notes => self.note_exercise.restarted(&next.note_exercise, now) && *next == (App {
                note_exercise: next.note_exercise,
                last_feedback: next.last_feedback,
                ..*self
            }),
            Mode::Scales => self.scale_exercise.rebuilt_from(
                &next.scale_exercise,
                self.scale_exercise.root,
                self.scale_exercise.kind,
                now,
            ) && *next == (App {
                scale_exercise: next.scale_exercise,
                last_feedback: next.last_feedback,
                ..*self
            }),
            Mode::Rhythm => *next == (App {
                rhythm_metrics: zero_metrics(),
                rhythm_epoch: now,
                rhythm_last_beat: 0,
                last_feedback: next.last_feedback,
                ..*self
            }),
        }
    }

    /// `next` is `self` with the scale exercise rebuilt at `now` for another root or kind.
    pub open spec fn scale_changed(&self, next: &App, root: PitchClass, kind: crate::music::ScaleKind, now: u64) -> bool {
        &&& self.scale_exercise.rebuilt_from(&next.scale_exercise, root, kind, now)
        &&& *next == (App { scale_exercise: next.scale_exercise, ..*self })
    }

    /// `next` is `self` after the key `key` at `now`.
    pub open spec fn after_key(&self, next: &App, key: KeyInput, now: u64) -> bool {
        let scales = self.mode == Mode::Scales;
        let root = self.scale_exercise.root;
        let kind = self.scale_exercise.kind;
        if key.code == KeyCode::Char('q') && key.plain {
            *next == *self
        } else if key.code == KeyCode::Char('?') {
            *next == (App { help: !self.help, ..*self })
        } else if key.code == KeyCode::Esc && self.help {
            *next == (App { help: false, ..*self })
        } else if key.code == KeyCode::Tab {
            self.mode_set(next, shifted(self.mode, 1), now)
        } else if key.code == KeyCode::BackTab {
            self.mode_set(next, shifted(self.mode, -1), now)
        } else if key.code == KeyCode::Char(' ') {
            *next == (App { paused: !self.paused, ..*self })
        } else if key.code == KeyCode::Char('r') {
            self.restarted(next, now)
        } else if key.code == KeyCode::Char('m') {
            *next == (App { muted: !self.muted, ..*self })
        } else if key.code == KeyCode::Char('+') || key.code == KeyCode::Char('=') {
            *next == (App { bpm: faster(self.bpm), ..*self })
        } else if key.code == KeyCode::Char('-') {
            *next == (App { bpm: slower(self.bpm), ..*self })
        } else if key.code == KeyCode::Left && scales {
            self.scale_changed(next, root.transpose_spec(-1i8), kind, now)
        } else if key.code == KeyCode::Right && scales {
            self.scale_changed(next, root.transpose_spec(1i8), kind, now)
        } else if key.code == KeyCode::Up && scales {
            self.scale_changed(next, root, kind_at((kind_index(kind) + 1) % 5), now)
        } else if key.code == KeyCode::Down && scales {
            self.scale_changed(next, root, kind_at((kind_index(kind) - 1) % 5), now)
        } else if key.code == KeyCode::Char('h') && self.mode == Mode::Notes {
            *next == (App {
                note_exercise: NoteExercise { hide_name: !self.note_exercise.hide_name, ..self.note_exercise },
                ..*self
            })
        } else {
            *next == *self
        }
    }

    /// The number of whole beats since the metronome started, as `tick` counts them.
    pub open spec fn beats_at(&self, now: u64) -> int {
        let b = beat_nanos(self.bpm);
        (elapsed(now, self.rhythm_epoch) as int) / (if b >= 1 { b } else { 1int })
    }

    /// Advances the metronome in rhythm mode: true when a new beat has begun since the last
    /// one counted. Outside rhythm mode, or paused, nothing happens.
    pub fn tick(&mut self, now: u64) -> (r: bool)
        requires
            old(self).mode == Mode::Rhythm && !old(self).paused ==> old(self).bpm > 0,
        ensures
            r == (old(self).mode == Mode::Rhythm && !old(self).paused
                && old(self).beats_at(now) > old(self).rhythm_last_beat),
            r ==> *final(self) == (App { rhythm_last_beat: old(self).beats_at(now) as u64, ..*old(self) }),
            !r ==> *final(self) == *old(self),
    {
        if self.mode != Mode::Rhythm || self.paused {
            return false;
        }
        let beat_duration = self.beat_duration();
        let beat_nanos = if beat_duration >= 1 { beat_duration } else { 1 };
        let beat = elapsed_since(now, self.rhythm_epoch) / beat_nanos;
        if beat > self.rhythm_last_beat {
            self.rhythm_last_beat = beat;
            true
        } else {
            false
        }
    }

    fn set_mode(&mut self, mode: Mode, now: u64)
        ensures
            old(self).mode_set(final(self), mode, now),
    {
        self.mode = mode;
        if mode == Mode::Rhythm {
            self.rhythm_epoch = now;
            self.rhythm_last_beat = 0;
        }
        let mut feedback = mode.to_string();
        proof { reveal_strlit(" mode"); }
        feedback.append(" mode");
        self.last_feedback = feedback;
    }

    fn restart(&mut self, now: u64)
        requires
            old(self).wf(),
        ensures
            old(self).restarted(final(self), now),
            final(self).wf(),
    {
        match self.mode {
            Mode::Freeplay => {
                let blank = NoteState { velocity: 0, held: false };
                self.notes = [blank; 128];
                self.sustain = false;
                assert(self.notes@ =~= Seq::new(128, |i: int| NoteState { velocity: 0, held: false }));
            },
            Mode::Notes => self.note_exercise.restart(now),
            Mode::Scales => self.scale_exercise.rebuild(now),
            Mode::Rhythm => {
                self.rhythm_metrics = SessionMetrics::default();
                self.rhythm_epoch = now;
                self.rhythm_last_beat = 0;
            },
        }
        proof { reveal_strlit("restarted"); }
        self.last_feedback = text_of("restarted");
    }

    /// Handles a terminal key at `now` and says whether it asks to quit (`q` without
    /// modifiers). Volume keys are left to the caller, which keeps the volume.
    pub fn handle_key(&mut self, key: KeyInput, now: u64) -> (r: bool)
        requires
            old(self).wf(),
        ensures
            r == (key.code == KeyCode::Char('q') && key.plain),
            old(self).after_key(final(self), key, now),
            final(self).wf(),
    {
        if key.code == KeyCode::Char('q') && key.plain {
            return true;
        }
        let scales = self.mode == Mode::Scales;
        if key.code == KeyCode::Char('?') {
            self.help = !self.help;
        } else if key.code == KeyCode::Esc && self.help {
            self.help = false;
        } else if key.code == KeyCode::Tab {
            let mode = self.mode.shift(1);
            self.set_mode(mode, now);
        } else if key.code == KeyCode::BackTab {
            let mode = self.mode.shift(-1);
            self.set_mode(mode, now);
        } else if key.code == KeyCode::Char(' ') {
            self.paused = !self.paused;
        } else if key.code == KeyCode::Char('r') {
            self.restart(now);
        } else if key.code == KeyCode::Char('m') {
            self.muted = !self.muted;
        } else if key.code == KeyCode::Char('+') || key.code == KeyCode::Char('=') {
            let raised = self.bpm.saturating_add(5);
            self.bpm = if raised < 300 { raised } else { 300 };
        } else if key.code == KeyCode::Char('-') {
            let lowered = self.bpm.saturating_sub(5);
            self.bpm = if lowered > 30 { lowered } else { 30 };
        } else if key.code == KeyCode::Left && scales {
            self.scale_exercise.shift_root(-1, now);
        } else if key.code == KeyCode::Right && scales {
            self.scale_exercise.shift_root(1, now);
        } else if key.code == KeyCode::Up && scales {
            self.scale_exercise.shift_kind(1, now);
        } else if key.code == KeyCode::Down && scales {
            self.scale_exercise.shift_kind(-1, now);
        } else if key.code == KeyCode::Char('h') && self.mode == Mode::Notes {
            self.note_exercise.hide_name = !self.note_exercise.hide_name;
        }
        false
    }
}

/// After a note on, the keyboard shows the note whenever a two-octave window starting on
/// a C no higher than C7 can show it.
pub proof fn lemma_keyboard_shows_note(base: int, note: int)
    requires
        0 <= base <= 96,
        base % 12 == 0,
        0 <= note <= 120,
    ensures
        followed_base(base, note) <= note <= followed_base(base, note) + 24,
        followed_base(base, note) % 12 == 0,
        0 <= followed_base(base, note) <= 96,
{
    lemma_moved_down(base, note);
    lemma_moved_up(moved_down(base, note), note);
}

/// A note already on the keyboard does not move it.
pub proof fn lemma_visible_note_keeps_keyboard(base: int, note: int)
    requires
        base <= note <= base + 24,
    ensures
        followed_base(base, note) == base,
{
}

proof fn lemma_moved_down(base: int, note: int)
    requires
        0 <= base <= 96,
        base % 12 == 0,
        0 <= note,
    ensures
        moved_down(base, note) <= note,
        moved_down(base, note) % 12 == 0,
        0 <= moved_down(base, note) <= base,
    decreases base,
{
    if note < base && base >= 12 {
        lemma_moved_down(base - 12, note);
    }
}

proof fn lemma_moved_up(base: int, note: int)
    requires
        0 <= base <= 96,
        base % 12 == 0,
        base <= note <= 120,
    ensures
        moved_up(base, note) <= note <= moved_up(base, note) + 24,
        moved_up(base, note) % 12 == 0,
        base <= moved_up(base, note) <= 96,
    decreases 108 - base,
{
    if note > base + 24 && base < 96 {
        lemma_moved_up(base + 12, note);
    }
}

/// Terminal keys never sound a note: after any key, every key of the on-screen keyboard
/// sounds as before or is silent.
pub proof fn lemma_keys_never_sound_notes(app: App, next: App, key: KeyInput, now: u64)
    requires
        app.after_key(&next, key, now),
    ensures
        forall|i: int| 0 <= i < 128 ==> #[trigger] next.notes@[i].velocity == app.notes@[i].velocity
            || next.notes@[i].velocity == 0,
{
}

/// The tempo keys step by five BPM within 30 to 300: `-` slows down by at most five and
/// never below 30, and slows down whenever the tempo is above 30; `+` speeds up by at most
/// five and never above 300, and speeds up whenever the tempo is below 300. Within the
/// range one key undoes the other.
pub proof fn lemma_tempo_keys(bpm: u16)
    ensures
        slower(bpm) >= 30,
        bpm >= 30 ==> slower(bpm) <= bpm && bpm - slower(bpm) <= 5,
        bpm > 30 ==> slower(bpm) < bpm,
        bpm >= 35 ==> slower(bpm) == bpm - 5,
        faster(bpm) <= 300,
        bpm <= 300 ==> faster(bpm) >= bpm && faster(bpm) - bpm <= 5,
        bpm < 300 ==> faster(bpm) > bpm,
        bpm <= 295 ==> faster(bpm) == bpm + 5,
        30 <= bpm <= 295 ==> slower(faster(bpm)) == bpm,
        35 <= bpm <= 300 ==> faster(slower(bpm)) == bpm,
{
}

/// The `-` key lowers the tempo by five BPM, but not below 30, and changes nothing else;
/// `+` (or `=`) raises it by five, but not above 300.
pub proof fn lemma_tempo_key_changes_tempo(app: App, next: App, plain: bool, now: u64)
    ensures
        app.after_key(&next, KeyInput { code: KeyCode::Char('-'), plain }, now) ==> {
            &&& next.bpm == (if app.bpm >= 35 { app.bpm - 5 } else { 30 })
            &&& next == (App { bpm: next.bpm, ..app })
        },
        app.after_key(&next, KeyInput { code: KeyCode::Char('+'), plain }, now) ==> {
            &&& next.bpm == (if app.bpm <= 295 { app.bpm + 5 } else { 300 })
            &&& next == (App { bpm: next.bpm, ..app })
        },
        app.after_key(&next, KeyInput { code: KeyCode::Char('='), plain }, now)
            ==> next.bpm == (if app.bpm <= 295 { app.bpm + 5 } else { 300 }),
{
}

} // verus!
