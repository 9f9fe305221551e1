//! The texts of the interface panels, built from the tutor state: the target and its
//! detail, the keyboard labels and sounding notes, the recent events, the detected chord and
//! the status line.
use vstd::prelude::*;
use vstd::string::*;
use std::collections::BTreeMap;

use crate::chord::{chord_text, Chord};
use crate::music::{group_music, kind_text, name_text, note_text, MidiNote, PitchClass};
use crate::text::{decimal, pad_left, pad_right, push_decimal, push_padded, push_padded_right, text_of};
use crate::trainer::elapsed;
use crate::tutor::{active_prefix, App, Mode, NoteState};

verus! {

broadcast use group_music, vstd::laws_cmp::group_laws_cmp, vstd::std_specs::btree::group_btree_axioms,
    vstd::std_specs::vecdeque::group_vec_dequeue_axioms;

/// The lowest note of the on-screen keyboard's labels.
pub const LABEL_LOW: u8 = 48;
/// The number of keys the on-screen keyboard labels, C3 to C5.
pub const LABEL_COUNT: usize = 25;

/// The text of a chord, or a dash when there is none.
pub open spec fn chord_or_dash(c: Option<Chord>) -> Seq<char> {
    match c {
        Some(c) => chord_text(c),
        None => "\u{2014}"@,
    }
}

/// `k` is the note with the most misses, the highest such note on a tie.
pub open spec fn is_weakest(m: Map<u8, u64>, k: u8) -> bool {
    &&& m.contains_key(k)
    &&& forall|j: u8| #[trigger] m.contains_key(j) ==> m[j] <= m[k] && (m[j] == m[k] ==> j <= k)
}

/// The note with the most misses (the highest on a tie), if any note was missed.
pub open spec fn weakest_key(m: Map<u8, u64>) -> Option<u8> {
    if exists|k: u8| is_weakest(m, k) {
        Some(choose|k: u8| is_weakest(m, k))
    } else {
        None
    }
}

/// The weak-note part of the note exercise's detail: ` · weak C4 ×3`, or nothing.
pub open spec fn weak_text(m: Map<u8, u64>) -> Seq<char> {
    match weakest_key(m) {
        Some(k) => if k <= 127 {
            " \u{b7} weak "@ + note_text(k) + " \u{d7}"@ + decimal(m[k] as nat)
        } else {
            seq![]
        },
        None => seq![],
    }
}

/// The notes joined by commas.
pub open spec fn notes_joined(ms: Seq<MidiNote>) -> Seq<char>
    decreases ms.len(),
{
    if ms.len() == 0 {
        seq![]
    } else if ms.len() == 1 {
        note_text(ms[0].byte())
    } else {
        notes_joined(ms.drop_last()) + ","@ + note_text(ms.last().byte())
    }
}

/// The big text of the target panel: the chord in freeplay, the target note (a dot when
/// its name is hidden), the next note of the scale, or the rhythm note.
pub open spec fn target_text(app: App) -> Seq<char> {
    match app.mode {
        Mode::Freeplay => chord_or_dash(app.chord),
        Mode::Notes => if app.note_exercise.hide_name {
            "\u{25cf}"@
        } else {
            note_text(app.note_exercise.target.byte())
        },
        Mode::Scales => note_text(app.scale_exercise.sequence@[app.scale_exercise.index as int].byte()),
        Mode::Rhythm => note_text(app.rhythm_note.byte()),
    }
}

/// The scale exercise's detail, `completion` being the time of the last complete run.
pub open spec fn scale_detail(app: App, completion: Option<&str>) -> Seq<char> {
    let s = app.scale_exercise;
    name_text(s.root.index() as nat) + " "@ + kind_text(s.kind) + " \u{b7} step "@
        + decimal((s.index + 1) as nat) + "/"@ + decimal(s.sequence@.len()) + " \u{b7} "@
        + decimal(s.completed as nat) + " complete \u{b7} last "@
        + (match completion { Some(t) => t@, None => "\u{2014}"@ }) + " \u{b7} mistakes "@
        + (if s.recent_mistakes@.len() == 0 { "\u{2014}"@ } else { notes_joined(s.recent_mistakes@) })
}

/// The detail line of the target panel.
pub open spec fn detail_text(app: App, completion: Option<&str>) -> Seq<char> {
    match app.mode {
        Mode::Freeplay => "Play freely \u{b7} chord detection ignores inversions"@,
        Mode::Notes => "MIDI "@ + decimal(app.note_exercise.target.byte() as nat)
            + " \u{b7} h toggles note-name visibility"@ + weak_text(app.note_exercise.weak_notes@),
        Mode::Scales => scale_detail(app, completion),
        Mode::Rhythm => "Play on each beat \u{b7} perfect \u{b1}35 ms \u{b7} good \u{b1}80 ms \u{b7} window \u{b1}180 ms \u{b7} "@
            + app.last_feedback@,
    }
}

/// The weak-note detail of a miss map, found by trying every note number.
fn weak_part(weak: &BTreeMap<u8, u64>) -> (r: String)
    ensures
        r@ == weak_text(weak@),
{
    let mut best: Option<(u8, u64)> = None;
    let mut k: u16 = 0;
    while k < 256
        invariant
            k <= 256,
            match best {
                None => forall|j: u8| j < k ==> !#[trigger] weak@.contains_key(j),
                Some((b, c)) => {
                    &&& b < k
                    &&& weak@.contains_key(b)
                    &&& weak@[b] == c
                    &&& forall|j: u8| j < k && #[trigger] weak@.contains_key(j) ==> weak@[j] <= c && (weak@[j] == c ==> j <= b)
                },
            },
        decreases 256 - k,
    {
        let key = k as u8;
        match weak.get(&key) {
            Some(count) => {
                let take = match best {
                    None => true,
                    Some((_, c)) => *count >= c,
                };
                if take {
                    best = Some((key, *count));
                }
            },
            None => {},
        }
        k += 1;
    }
    match best {
        None => {
            assert(!exists|k: u8| is_weakest(weak@, k));
            assert(weakest_key(weak@) is None);
            String::new()
        },
        Some((b, c)) => {
            assert(is_weakest(weak@, b));
            let ghost w = choose|k: u8| is_weakest(weak@, k);
            assert(w == b) by {
                assert(is_weakest(weak@, w));
                assert(weak@[w] <= weak@[b] && weak@[b] <= weak@[w]);
            }
            if b <= 127 {
                let mut s = String::new();
                proof { reveal_strlit(" \u{b7} weak "); reveal_strlit(" \u{d7}"); }
                s.append(" \u{b7} weak ");
                let name = MidiNote::new(b).unwrap().to_string();
                s.append(name.as_str());
                s.append(" \u{d7}");
                push_decimal(&mut s, c);
                assert(s@ =~= weak_text(weak@));
                s
            } else {
                String::new()
            }
        },
    }
}

/// The notes joined by commas.
fn join_notes(ms: &std::collections::VecDeque<MidiNote>) -> (r: String)
    ensures
        r@ == notes_joined(ms@),
{
    let mut s = String::new();
    let mut i: usize = 0;
    while i < ms.len()
        invariant
            i <= ms@.len(),
            s@ == notes_joined(ms@.take(i as int)),
        decreases ms@.len() - i,
    {
        let ghost before = ms@.take(i as int);
        if i > 0 {
            proof { reveal_strlit(","); }
            s.append(",");
        }
        let t = ms[i].to_string();
        s.append(t.as_str());
        proof {
            let next = ms@.take(i + 1);
            assert(next.drop_last() =~= before);
            assert(next.last() == ms@[i as int]);
            if i == 0 {
                assert(before =~= Seq::<MidiNote>::empty());
            }
        }
        i += 1;
    }
    assert(ms@.take(ms@.len() as int) =~= ms@);
    s
}

/// The target as the panel shows it: two blanks, then the target left-aligned in twelve
/// columns.
pub open spec fn target_span(app: App) -> Seq<char> {
    "  "@ + pad_right(target_text(app), 12)
}

/// The target panel's two texts: the target span and the detail line. `completion` is the
/// caller's text of the last complete scale run, if there was one.
pub fn target_texts(app: &App, completion: Option<&str>) -> (r: (String, String))
    requires
        app.scale_exercise.wf(),
    ensures
        r.0@ == target_span(*app),
        r.1@ == detail_text(*app, completion),
{
    let (target, detail) = target_and_detail(app, completion);
    proof { reveal_strlit("  "); }
    let mut span = text_of("  ");
    push_padded_right(&mut span, target.as_str(), 12);
    (span, detail)
}

fn target_and_detail(app: &App, completion: Option<&str>) -> (r: (String, String))
    requires
        app.scale_exercise.wf(),
    ensures
        r.0@ == target_text(*app),
        r.1@ == detail_text(*app, completion),
{
    match app.mode {
        Mode::Freeplay => {
            proof { reveal_strlit("Play freely \u{b7} chord detection ignores inversions"); }
            (chord_or_dash_text(app.chord), text_of("Play freely \u{b7} chord detection ignores inversions"))
        },
        Mode::Notes => {
            let exercise = &app.note_exercise;
            let target = if exercise.hide_name {
                proof { reveal_strlit("\u{25cf}"); }
                text_of("\u{25cf}")
            } else {
                exercise.target.to_string()
            };
            let mut detail = String::new();
            proof { reveal_strlit("MIDI "); reveal_strlit(" \u{b7} h toggles note-name visibility"); }
            detail.append("MIDI ");
            push_decimal(&mut detail, exercise.target.value() as u64);
            detail.append(" \u{b7} h toggles note-name visibility");
            let weak = weak_part(&exercise.weak_notes);
            detail.append(weak.as_str());
            assert(detail@ =~= detail_text(*app, completion));
            (target, detail)
        },
        Mode::Scales => {
            let s = &app.scale_exercise;
            let target = s.expected().to_string();
            let mut detail = s.root.to_string();
            proof {
                reveal_strlit(" ");
                reveal_strlit(" \u{b7} step ");
                reveal_strlit("/");
                reveal_strlit(" \u{b7} ");
                reveal_strlit(" complete \u{b7} last ");
                reveal_strlit("\u{2014}");
                reveal_strlit(" \u{b7} mistakes ");
            }
            detail.append(" ");
            let kind = s.kind.to_string();
            detail.append(kind.as_str());
            detail.append(" \u{b7} step ");
            push_decimal(&mut detail, s.index as u64 + 1);
            detail.append("/");
            push_decimal(&mut detail, s.sequence.len() as u64);
            detail.append(" \u{b7} ");
            push_decimal(&mut detail, s.completed as u64);
            detail.append(" complete \u{b7} last ");
            match completion {
                Some(t) => detail.append(t),
                None => detail.append("\u{2014}"),
            }
            detail.append(" \u{b7} mistakes ");
            if s.recent_mistakes.len() == 0 {
                detail.append("\u{2014}");
            } else {
                let joined = join_notes(&s.recent_mistakes);
                detail.append(joined.as_str());
            }
            assert(detail@ =~= detail_text(*app, completion));
            (target, detail)
        },
        Mode::Rhythm => {
            let target = app.rhythm_note.to_string();
            let mut detail = String::new();
            proof {
                reveal_strlit("Play on each beat \u{b7} perfect \u{b1}35 ms \u{b7} good \u{b1}80 ms \u{b7} window \u{b1}180 ms \u{b7} ");
            }
            detail.append("Play on each beat \u{b7} perfect \u{b1}35 ms \u{b7} good \u{b1}80 ms \u{b7} window \u{b1}180 ms \u{b7} ");
            detail.append(app.last_feedback.as_str());
            assert(detail@ =~= detail_text(*app, completion));
            (target, detail)
        },
    }
}

/// The text of a chord, or a dash when there is none.
fn chord_or_dash_text(c: Option<Chord>) -> (r: String)
    ensures
        r@ == chord_or_dash(c),
{
    match c {
        Some(c) => c.to_string(),
        None => {
            proof { reveal_strlit("\u{2014}"); }
            text_of("\u{2014}")
        },
    }
}

/// A name of one or two characters centred in three columns, the odd space on the right.
pub open spec fn centered3(s: Seq<char>) -> Seq<char> {
    if s.len() == 1 {
        " "@ + s + " "@
    } else if s.len() == 2 {
        s + " "@
    } else {
        s
    }
}

/// The pitch-class labels under the keys from C3 to C5, each centred in three columns.
pub fn key_labels() -> (r: Vec<String>)
    ensures
        r@.len() == LABEL_COUNT,
        forall|i: int| 0 <= i < LABEL_COUNT ==> #[trigger] r@[i]@ == centered3(name_text(((LABEL_LOW + i) % 12) as nat)),
{
    let mut labels: Vec<String> = Vec::new();
    let mut i: usize = 0;
    while i < LABEL_COUNT
        invariant
            i <= LABEL_COUNT,
            labels@.len() == i,
            forall|j: int| 0 <= j < i ==> #[trigger] labels@[j]@ == centered3(name_text(((LABEL_LOW + j) % 12) as nat)),
        decreases LABEL_COUNT - i,
    {
        let pitch = PitchClass::new(((LABEL_LOW as usize + i) % 12) as u8);
        let name = pitch.to_string();
        let mut label = String::new();
        proof { reveal_strlit(" "); }
        if name.unicode_len() == 1 {
            label.append(" ");
            label.append(name.as_str());
            label.append(" ");
        } else {
            label.append(name.as_str());
            label.append(" ");
        }
        assert(name@.len() == 1 || name@.len() == 2);
        assert(label@ =~= centered3(name_text(((LABEL_LOW + i) % 12) as nat)));
        labels.push(label);
        i += 1;
    }
    labels
}

/// One sounding key of the keyboard panel: `C4 [ 60] v104`.
pub open spec fn active_entry(p: (MidiNote, NoteState)) -> Seq<char> {
    note_text(p.0.byte()) + " ["@ + pad_left(decimal(p.0.byte() as nat), 3) + "] v"@
        + pad_left(decimal(p.1.velocity as nat), 3)
}

/// The entries joined by two spaces.
pub open spec fn entries_joined(es: Seq<(MidiNote, NoteState)>) -> Seq<char>
    decreases es.len(),
{
    if es.len() == 0 {
        seq![]
    } else if es.len() == 1 {
        active_entry(es[0])
    } else {
        entries_joined(es.drop_last()) + "  "@ + active_entry(es.last())
    }
}

/// The line of sounding keys, lowest first, or a dash when none sounds.
pub open spec fn active_text(ns: Seq<NoteState>) -> Seq<char> {
    let es = active_prefix(ns, ns.len() as int);
    if es.len() == 0 { "active: \u{2014}"@ } else { "active: "@ + entries_joined(es) }
}

fn push_entry(s: &mut String, entry: (MidiNote, NoteState))
    ensures
        final(s)@ == old(s)@ + active_entry(entry),
{
    proof { reveal_strlit(" ["); reveal_strlit("] v"); }
    let (note, state) = entry;
    let name = note.to_string();
    s.append(name.as_str());
    s.append(" [");
    let mut number = String::new();
    push_decimal(&mut number, note.value() as u64);
    push_padded(s, number.as_str(), 3);
    s.append("] v");
    let mut velocity = String::new();
    push_decimal(&mut velocity, state.velocity as u64);
    push_padded(s, velocity.as_str(), 3);
    assert(s@ =~= old(s)@ + active_entry(entry));
}

/// The line of the keyboard panel listing the sounding keys.
pub fn active_line(app: &App) -> (r: String)
    ensures
        r@ == active_text(app.notes@),
{
    let es = app.active_notes();
    assert(app.notes@.len() == 128);
    proof { reveal_strlit("active: \u{2014}"); reveal_strlit("active: "); reveal_strlit("  "); }
    if es.len() == 0 {
        return text_of("active: \u{2014}");
    }
    let mut s = text_of("active: ");
    let mut i: usize = 0;
    while i < es.len()
        invariant
            i <= es@.len(),
            s@ == "active: "@ + entries_joined(es@.take(i as int)),
        decreases es@.len() - i,
    {
        let ghost before = es@.take(i as int);
        if i > 0 {
            s.append("  ");
        }
        push_entry(&mut s, es[i]);
        proof {
            let next = es@.take(i + 1);
            assert(next.drop_last() =~= before);
            assert(next.last() == es@[i as int]);
            if i == 0 {
                assert(before =~= Seq::<(MidiNote, NoteState)>::empty());
                assert(s@ =~= "active: "@ + entries_joined(next));
            } else {
                assert(s@ =~= "active: "@ + entries_joined(next));
            }
        }
        i += 1;
    }
    assert(es@.take(es@.len() as int) =~= es@);
    s
}

/// The newest recent events, at most five, newest first.
pub fn recent_lines(app: &App) -> (r: Vec<String>)
    ensures
        r@.len() == (if app.recent@.len() < 5 { app.recent@.len() } else { 5 }),
        forall|i: int| 0 <= i < r@.len() ==> #[trigger] r@[i] == app.recent@[app.recent@.len() - 1 - i],
{
    let n = app.recent.len();
    let mut lines: Vec<String> = Vec::new();
    let mut i: usize = 0;
    while i < 5 && i < n
        invariant
            n == app.recent@.len(),
            i <= 5,
            i <= n,
            lines@.len() == i,
            forall|j: int| 0 <= j < i ==> #[trigger] lines@[j] == app.recent@[n - 1 - j],
        decreases 5 - i,
    {
        let line = app.recent[n - 1 - i].clone();
        lines.push(line);
        i += 1;
    }
    lines
}

/// The session panel's chord line in freeplay.
pub fn chord_line(app: &App) -> (r: String)
    ensures
        r@ == "detected chord  "@ + chord_or_dash(app.chord),
{
    proof { reveal_strlit("detected chord  "); }
    let mut s = text_of("detected chord  ");
    let chord = chord_or_dash_text(app.chord);
    s.append(chord.as_str());
    s
}

/// A number shown in at least two digits, with a leading zero below ten.
pub open spec fn two_digits(n: nat) -> Seq<char> {
    if n < 10 { "0"@ + decimal(n) } else { decimal(n) }
}

/// The session clock for a number of whole seconds: minutes and seconds, `mm:ss`.
pub open spec fn clock_text(seconds: nat) -> Seq<char> {
    two_digits(seconds / 60) + ":"@ + two_digits(seconds % 60)
}

/// The status line's texts that come from the tutor: the audio output with its state, the
/// tempo, the pedal, and the session clock at `now`.
pub open spec fn status_text(app: App, now: u64) -> (Seq<char>, Seq<char>, Seq<char>, Seq<char>) {
    (
        app.audio_name@ + " ("@ + (if app.audio_ok { "online"@ } else { "offline"@ }) + ")"@,
        decimal(app.bpm as nat) + " BPM"@,
        if app.sustain { "SUS ON"@ } else { "SUS off"@ },
        clock_text((elapsed(now, app.started) / 1_000_000_000) as nat),
    )
}

fn push_two_digits(s: &mut String, n: u64)
    ensures
        final(s)@ == old(s)@ + two_digits(n as nat),
{
    if n < 10 {
        proof { reveal_strlit("0"); }
        s.append("0");
    }
    push_decimal(s, n);
    assert(final(s)@ =~= old(s)@ + two_digits(n as nat));
}

/// The status line's audio, tempo, pedal and clock texts at `now`.
pub fn status_texts(app: &App, now: u64) -> (r: (String, String, String, String))
    ensures
        (r.0@, r.1@, r.2@, r.3@) == status_text(*app, now),
{
    proof {
        reveal_strlit(" (");
        reveal_strlit("online");
        reveal_strlit("offline");
        reveal_strlit(")");
        reveal_strlit(" BPM");
        reveal_strlit("SUS ON");
        reveal_strlit("SUS off");
        reveal_strlit(":");
    }
    let mut audio = app.audio_name.clone();
    audio.append(" (");
    if app.audio_ok {
        audio.append("online");
    } else {
        audio.append("offline");
    }
    audio.append(")");
    let mut tempo = String::new();
    push_decimal(&mut tempo, app.bpm as u64);
    tempo.append(" BPM");
    let pedal = if app.sustain { text_of("SUS ON") } else { text_of("SUS off") };
    let seconds = app.session_duration(now) / 1_000_000_000;
    let mut clock = String::new();
    push_two_digits(&mut clock, seconds / 60);
    clock.append(":");
    push_two_digits(&mut clock, seconds % 60);
    assert(audio@ =~= status_text(*app, now).0);
    assert(tempo@ =~= status_text(*app, now).1);
    assert(clock@ =~= status_text(*app, now).3);
    (audio, tempo, pedal, clock)
}

/// The pieces of the status line, in order: the MIDI input, the audio output, the tempo,
/// the pedal, the volume in percent and the session clock, with their labels and the
/// two-blank gaps between them.
pub open spec fn status_pieces(app: App, now: u64, volume_percent: u64) -> Seq<Seq<char>> {
    let t = status_text(app, now);
    seq![
        "MIDI "@, app.midi_name@, "  "@,
        "AUDIO "@, t.0, "  "@,
        t.1, "  "@,
        t.2, "  "@,
        "VOL "@ + pad_left(decimal(volume_percent as nat), 3) + "%"@, "  "@,
        t.3,
    ]
}

/// The status line's pieces at `now`, for a master volume of `volume_percent` percent.
pub fn status_spans(app: &App, now: u64, volume_percent: u64) -> (r: Vec<String>)
    ensures
        r@.len() == 13,
        forall|i: int| 0 <= i < 13 ==> #[trigger] r@[i]@ == status_pieces(*app, now, volume_percent)[i],
{
    let (audio, tempo, pedal, clock) = status_texts(app, now);
    proof { reveal_strlit("MIDI "); reveal_strlit("  "); reveal_strlit("AUDIO "); reveal_strlit("VOL "); reveal_strlit("%"); }
    let mut volume = text_of("VOL ");
    let mut digits = String::new();
    push_decimal(&mut digits, volume_percent);
    push_padded(&mut volume, digits.as_str(), 3);
    volume.append("%");
    let mut r: Vec<String> = Vec::new();
    r.push(text_of("MIDI "));
    r.push(app.midi_name.clone());
    r.push(text_of("  "));
    r.push(text_of("AUDIO "));
    r.push(audio);
    r.push(text_of("  "));
    r.push(tempo);
    r.push(text_of("  "));
    r.push(pedal);
    r.push(text_of("  "));
    r.push(volume);
    r.push(text_of("  "));
    r.push(clock);
    assert(r@[10]@ =~= status_pieces(*app, now, volume_percent)[10]);
    r
}

/// Pitch class `p` is a black key.
pub open spec fn is_black(p: int) -> bool {
    p == 1 || p == 3 || p == 6 || p == 8 || p == 10
}

/// One key of the on-screen keyboard: whether it is black, whether it sounds, the
/// brightness of its colour, its two glyph rows and its label.
#[derive(Debug)]
pub struct KeyCell {
    pub black: bool,
    pub lit: bool,
    pub brightness: u8,
    pub top: String,
    pub bottom: String,
    pub label: String,
}

/// Key `i` of the labelled keyboard, from C3, as the keyboard panel draws it for the key
/// states `ns`.
pub open spec fn key_cell_is(c: KeyCell, ns: Seq<NoteState>, i: int) -> bool {
    let v = LABEL_LOW + i;
    let black = is_black(v % 12);
    let velocity = ns[v].velocity;
    &&& c.black == black
    &&& c.lit == (velocity > 0)
    &&& c.brightness == (if 90 + velocity > 255 { 255 } else { 90 + velocity })
    &&& c.top@ == (if black { "\u{2588}\u{2588}\u{2588}"@ } else { "   "@ })
    &&& c.bottom@ == (if black { " \u{2551} "@ } else { " \u{2502} "@ })
    &&& c.label@ == centered3(name_text((v % 12) as nat))
}

/// The keys of the keyboard panel, C3 to C5.
pub fn key_cells(app: &App) -> (r: Vec<KeyCell>)
    ensures
        r@.len() == LABEL_COUNT,
        forall|i: int| 0 <= i < LABEL_COUNT ==> #[trigger] key_cell_is(r@[i], app.notes@, i),
{
    let labels = key_labels();
    let mut cells: Vec<KeyCell> = Vec::new();
    let mut i: usize = 0;
    proof {
        reveal_strlit("\u{2588}\u{2588}\u{2588}");
        reveal_strlit("   ");
        reveal_strlit(" \u{2551} ");
        reveal_strlit(" \u{2502} ");
    }
    while i < LABEL_COUNT
        invariant
            i <= LABEL_COUNT,
            cells@.len() == i,
            labels@.len() == LABEL_COUNT,
            app.notes@.len() == 128,
            forall|j: int| 0 <= j < LABEL_COUNT ==> #[trigger] labels@[j]@ == centered3(name_text(((LABEL_LOW + j) % 12) as nat)),
            forall|j: int| 0 <= j < i ==> #[trigger] key_cell_is(cells@[j], app.notes@, j),
        decreases LABEL_COUNT - i,
    {
        let value: usize = LABEL_LOW as usize + i;
        let p = value % 12;
        let black = p == 1 || p == 3 || p == 6 || p == 8 || p == 10;
        let velocity = app.notes[value].velocity;
        let brightness: u8 = if velocity > 165 { 255 } else { 90 + velocity };
        let label = labels[i].clone();
        let cell = KeyCell {
            black,
            lit: velocity > 0,
            brightness,
            top: if black { text_of("\u{2588}\u{2588}\u{2588}") } else { text_of("   ") },
            bottom: if black { text_of(" \u{2551} ") } else { text_of(" \u{2502} ") },
            label,
        };
        assert(key_cell_is(cell, app.notes@, i as int));
        cells.push(cell);
        i += 1;
    }
    cells
}

/// The black keys are the sharps: a key is drawn black exactly when its note name carries a
/// `#`; so the keyboard panel shows five black keys in every octave, none of them next to
/// another, and the keys E–F and B–C are both white.
pub proof fn lemma_black_keys_are_sharps(p: int)
    requires
        0 <= p < 12,
    ensures
        is_black(p) <==> name_text(p as nat).len() == 2,
        is_black(p) <==> name_text(p as nat).last() == '#',
        is_black(p) ==> !is_black((p + 1) % 12) && !is_black((p + 11) % 12),
        !is_black(4) && !is_black(5) && !is_black(11) && !is_black(0),
{
}

} // verus!
