//! MIDI notes, pitch classes and scales.
use vstd::prelude::*;
use vstd::string::*;

use crate::text::{push_signed, signed_decimal, text_of};

verus! {

/// A MIDI note number in `0..=127`.
#[derive(Clone, Copy, Debug, PartialEq, Eq, Structural, Hash, PartialOrd, Ord)]
pub struct MidiNote(u8);

impl MidiNote {
    #[verifier::type_invariant]
    spec fn in_midi_range(self) -> bool {
        self.0 <= 127
    }

    /// The note number carried by this note.
    pub closed spec fn byte(self) -> u8 {
        self.0
    }

    /// The note whose number is `v` (meaningful for `v <= 127`).
    pub closed spec fn from_byte(v: u8) -> MidiNote {
        MidiNote(v)
    }

    /// `Some` note of that number for `0..=127`, `None` above.
    pub fn new(value: u8) -> (r: Option<Self>)
        ensures
            value <= 127 ==> r == Some(MidiNote::from_byte(value)),
            value > 127 ==> r.is_none(),
    {
        if value <= 127 {
            Some(MidiNote(value))
        } else {
            None
        }
    }

    /// The note number.
    pub fn value(self) -> (r: u8)
        ensures
            r == self.byte(),
            r <= 127,
    {
        proof {
            use_type_invariant(&self);
        }
        self.0
    }

    /// The pitch class: the note number modulo 12.
    pub fn pitch_class(self) -> (r: PitchClass)
        ensures
            r == PitchClass::from_index(self.byte() % 12),
    {
        PitchClass::new(self.0)
    }

    /// The MIDI octave: `value / 12 - 1`, so that note 60 lies in octave 4.
    pub fn octave(self) -> (r: i8)
        ensures
            r == self.byte() / 12 - 1,
    {
        proof {
            use_type_invariant(&self);
        }
        (self.0 / 12) as i8 - 1
    }

    /// The note `semitones` higher (lower when negative), or `None` outside `0..=127`.
    pub fn transpose(self, semitones: i8) -> (r: Option<Self>)
        ensures
            0 <= self.byte() + semitones <= 127 ==> r == Some(
                MidiNote::from_byte((self.byte() + semitones) as u8),
            ),
            !(0 <= self.byte() + semitones <= 127) ==> r.is_none(),
    {
        let value: i16 = self.0 as i16 + semitones as i16;
        if 0 <= value && value <= 127 {
            Some(MidiNote(value as u8))
        } else {
            None
        }
    }

    /// The note name followed by its octave, e.g. `C4`, `A#3`, `C-1`.
    pub fn to_string(self) -> (r: String)
        ensures
            r@ == note_text(self.byte()),
    {
        let mut s = self.pitch_class().name().to_string();
        push_signed(&mut s, self.octave() as i64);
        s
    }
}

/// The display text of a note number: its name and octave.
pub open spec fn note_text(v: u8) -> Seq<char> {
    name_text((v % 12) as nat) + signed_decimal(v / 12 - 1)
}

pub broadcast proof fn lemma_from_byte_byte(v: u8)
    ensures
        #[trigger] MidiNote::from_byte(v).byte() == v,
{
}

pub broadcast proof fn lemma_byte_from_byte(n: MidiNote)
    ensures
        MidiNote::from_byte(#[trigger] n.byte()) == n,
{
}

pub broadcast proof fn lemma_pitch_from_index(i: u8)
    ensures
        #[trigger] PitchClass::from_index(i).index() == i,
{
}

pub broadcast proof fn lemma_pitch_index(p: PitchClass)
    ensures
        PitchClass::from_index(#[trigger] p.index()) == p,
{
}

pub broadcast group group_music {
    lemma_from_byte_byte,
    lemma_byte_from_byte,
    lemma_pitch_from_index,
    lemma_pitch_index,
}

/// The twelve note names, sharps for the black keys.
#[derive(Clone, Copy, Debug, PartialEq, Eq, Structural, Hash)]
pub enum NoteName {
    C,
    Cs,
    D,
    Ds,
    E,
    F,
    Fs,
    G,
    Gs,
    A,
    As,
    B,
}

/// The position of a note name in the octave, `C` being 0.
pub open spec fn name_index(n: NoteName) -> nat {
    match n {
        NoteName::C => 0,
        NoteName::Cs => 1,
        NoteName::D => 2,
        NoteName::Ds => 3,
        NoteName::E => 4,
        NoteName::F => 5,
        NoteName::Fs => 6,
        NoteName::G => 7,
        NoteName::Gs => 8,
        NoteName::A => 9,
        NoteName::As => 10,
        NoteName::B => 11,
    }
}

/// The display text of the note name at position `i` of the octave.
pub open spec fn name_text(i: nat) -> Seq<char> {
    if i == 0 { seq!['C'] }
    else if i == 1 { seq!['C', '#'] }
    else if i == 2 { seq!['D'] }
    else if i == 3 { seq!['D', '#'] }
    else if i == 4 { seq!['E'] }
    else if i == 5 { seq!['F'] }
    else if i == 6 { seq!['F', '#'] }
    else if i == 7 { seq!['G'] }
    else if i == 8 { seq!['G', '#'] }
    else if i == 9 { seq!['A'] }
    else if i == 10 { seq!['A', '#'] }
    else { seq!['B'] }
}

impl NoteName {
    /// The display text: the letter, with `#` for sharps.
    pub fn to_string(self) -> (r: String)
        ensures
            r@ == name_text(name_index(self)),
    {
        match self {
            NoteName::C => { proof { reveal_strlit("C"); } text_of("C") },
            NoteName::Cs => { proof { reveal_strlit("C#"); } text_of("C#") },
            NoteName::D => { proof { reveal_strlit("D"); } text_of("D") },
            NoteName::Ds => { proof { reveal_strlit("D#"); } text_of("D#") },
            NoteName::E => { proof { reveal_strlit("E"); } text_of("E") },
            NoteName::F => { proof { reveal_strlit("F"); } text_of("F") },
            NoteName::Fs => { proof { reveal_strlit("F#"); } text_of("F#") },
            NoteName::G => { proof { reveal_strlit("G"); } text_of("G") },
            NoteName::Gs => { proof { reveal_strlit("G#"); } text_of("G#") },
            NoteName::A => { proof { reveal_strlit("A"); } text_of("A") },
            NoteName::As => { proof { reveal_strlit("A#"); } text_of("A#") },
            NoteName::B => { proof { reveal_strlit("B"); } text_of("B") },
        }
    }
}

/// A pitch class `0..12`, `C` being 0.
#[derive(Clone, Copy, Debug, PartialEq, Eq, Structural, Hash)]
pub struct PitchClass(u8);

impl PitchClass {
    #[verifier::type_invariant]
    spec fn in_octave(self) -> bool {
        self.0 < 12
    }

    /// The position in the octave.
    pub closed spec fn index(self) -> u8 {
        self.0
    }

    /// The pitch class at position `i` (meaningful for `i < 12`).
    pub closed spec fn from_index(i: u8) -> PitchClass {
        PitchClass(i)
    }

    /// The pitch class `C`.
    pub fn c() -> (r: Self)
        ensures
            r == PitchClass::from_index(0),
    {
        PitchClass(0)
    }

    /// The pitch class of `value` modulo 12.
    pub fn new(value: u8) -> (r: Self)
        ensures
            r == PitchClass::from_index(value % 12),
    {
        PitchClass(value % 12)
    }

    /// The position in the octave, below 12.
    pub fn value(self) -> (r: u8)
        ensures
            r == self.index(),
            r < 12,
    {
        proof {
            use_type_invariant(&self);
        }
        self.0
    }

    /// The note name of this pitch class.
    pub fn name(self) -> (r: NoteName)
        ensures
            name_index(r) == self.index(),
    {
        proof {
            use_type_invariant(&self);
        }
        match self.0 {
            0 => NoteName::C,
            1 => NoteName::Cs,
            2 => NoteName::D,
            3 => NoteName::Ds,
            4 => NoteName::E,
            5 => NoteName::F,
            6 => NoteName::Fs,
            7 => NoteName::G,
            8 => NoteName::Gs,
            9 => NoteName::A,
            10 => NoteName::As,
            _ => NoteName::B,
        }
    }

    /// The pitch class `semitones` away, wrapping around the octave.
    pub open spec fn transpose_spec(self, semitones: i8) -> PitchClass {
        PitchClass::from_index(((self.index() + semitones) % 12) as u8)
    }

    /// The pitch class `semitones` away, wrapping around the octave.
    pub fn transpose(self, semitones: i8) -> (r: Self)
        ensures
            r == self.transpose_spec(semitones),
    {
        proof {
            use_type_invariant(&self);
        }
        let sum: i16 = self.0 as i16 + semitones as i16;
        let m: i16 = sum % 12;
        let wrapped: i16 = if m < 0 { m + 12 } else { m };
        assert(wrapped == (self.index() + semitones) % 12);
        PitchClass(wrapped as u8)
    }

    /// The name of the pitch class, e.g. `C#`.
    pub fn to_string(self) -> (r: String)
        ensures
            r@ == name_text(self.index() as nat),
    {
        self.name().to_string()
    }
}

/// The scale patterns the tutor offers.
#[derive(Clone, Copy, Debug, PartialEq, Eq, Structural)]
pub enum ScaleKind {
    Chromatic,
    Major,
    NaturalMinor,
    MajorPentatonic,
    MinorPentatonic,
}

/// The semitone offsets of a scale from its root, ending on the octave.
pub open spec fn scale_intervals(kind: ScaleKind) -> Seq<u8> {
    match kind {
        ScaleKind::Chromatic => seq![0u8, 1, 2, 3, 4, 5, 6, 7, 8, 9, 10, 11, 12],
        ScaleKind::Major => seq![0u8, 2, 4, 5, 7, 9, 11, 12],
        ScaleKind::NaturalMinor => seq![0u8, 2, 3, 5, 7, 8, 10, 12],
        ScaleKind::MajorPentatonic => seq![0u8, 2, 4, 7, 9, 12],
        ScaleKind::MinorPentatonic => seq![0u8, 3, 5, 7, 10, 12],
    }
}

/// The position of a scale kind in the order the tutor cycles through them.
pub open spec fn kind_index(kind: ScaleKind) -> int {
    match kind {
        ScaleKind::Chromatic => 0,
        ScaleKind::Major => 1,
        ScaleKind::NaturalMinor => 2,
        ScaleKind::MajorPentatonic => 3,
        ScaleKind::MinorPentatonic => 4,
    }
}

/// The scale kind at position `i` of the cycle (`0 <= i < 5`).
pub open spec fn kind_at(i: int) -> ScaleKind {
    if i == 0 { ScaleKind::Chromatic }
    else if i == 1 { ScaleKind::Major }
    else if i == 2 { ScaleKind::NaturalMinor }
    else if i == 3 { ScaleKind::MajorPentatonic }
    else { ScaleKind::MinorPentatonic }
}

/// The display text of a scale kind.
pub open spec fn kind_text(kind: ScaleKind) -> Seq<char> {
    match kind {
        ScaleKind::Chromatic => "chromatic"@,
        ScaleKind::Major => "major"@,
        ScaleKind::NaturalMinor => "natural minor"@,
        ScaleKind::MajorPentatonic => "major pentatonic"@,
        ScaleKind::MinorPentatonic => "minor pentatonic"@,
    }
}

impl ScaleKind {
    /// The semitone offsets of the scale from its root, ending on the octave.
    pub fn intervals(self) -> (r: Vec<u8>)
        ensures
            r@ == scale_intervals(self),
    {
        let r = match self {
            ScaleKind::Chromatic => vec![0u8, 1, 2, 3, 4, 5, 6, 7, 8, 9, 10, 11, 12],
            ScaleKind::Major => vec![0u8, 2, 4, 5, 7, 9, 11, 12],
            ScaleKind::NaturalMinor => vec![0u8, 2, 3, 5, 7, 8, 10, 12],
            ScaleKind::MajorPentatonic => vec![0u8, 2, 4, 7, 9, 12],
            ScaleKind::MinorPentatonic => vec![0u8, 3, 5, 7, 10, 12],
        };
        assert(r@ =~= scale_intervals(self));
        r
    }

    /// The scale kind at position `i` of the cycle.
    pub fn from_index(i: usize) -> (r: Self)
        requires
            i < 5,
        ensures
            r == kind_at(i as int),
    {
        if i == 0 { ScaleKind::Chromatic }
        else if i == 1 { ScaleKind::Major }
        else if i == 2 { ScaleKind::NaturalMinor }
        else if i == 3 { ScaleKind::MajorPentatonic }
        else { ScaleKind::MinorPentatonic }
    }

    /// The position of this kind in the cycle.
    pub fn index(self) -> (r: usize)
        ensures
            r == kind_index(self),
    {
        match self {
            ScaleKind::Chromatic => 0,
            ScaleKind::Major => 1,
            ScaleKind::NaturalMinor => 2,
            ScaleKind::MajorPentatonic => 3,
            ScaleKind::MinorPentatonic => 4,
        }
    }

    /// The display text, e.g. `natural minor`.
    pub fn to_string(self) -> (r: String)
        ensures
            r@ == kind_text(self),
    {
        match self {
            ScaleKind::Chromatic => { proof { reveal_strlit("chromatic"); } text_of("chromatic") },
            ScaleKind::Major => { proof { reveal_strlit("major"); } text_of("major") },
            ScaleKind::NaturalMinor => { proof { reveal_strlit("natural minor"); } text_of("natural minor") },
            ScaleKind::MajorPentatonic => { proof { reveal_strlit("major pentatonic"); } text_of("major pentatonic") },
            ScaleKind::MinorPentatonic => { proof { reveal_strlit("minor pentatonic"); } text_of("minor pentatonic") },
        }
    }
}

/// A scale: a root note and a pattern of intervals.
#[derive(Clone, Debug, PartialEq, Eq, Structural)]
pub struct Scale {
    pub root: MidiNote,
    pub kind: ScaleKind,
}

/// The note numbers `root + i` for the intervals `i` that stay within `0..=127`, in order.
pub open spec fn notes_in_range(root: int, intervals: Seq<u8>) -> Seq<u8>
    decreases intervals.len(),
{
    if intervals.len() == 0 {
        seq![]
    } else {
        let rest = notes_in_range(root, intervals.drop_last());
        let v = root + intervals.last();
        if 0 <= v <= 127 { rest.push(v as u8) } else { rest }
    }
}

/// A walk up a sequence and back down, the top note played once.
pub open spec fn up_and_down<T>(up: Seq<T>) -> Seq<T> {
    if up.len() == 0 { up } else { up + up.drop_last().reverse() }
}

/// The note numbers of a sequence of notes.
pub open spec fn bytes_of(notes: Seq<MidiNote>) -> Seq<u8> {
    notes.map_values(|n: MidiNote| n.byte())
}

impl Scale {
    /// The notes of the scale from the root up to the octave, leaving out any beyond note 127.
    pub fn ascending(&self) -> (r: Vec<MidiNote>)
        ensures
            bytes_of(r@) == notes_in_range(self.root.byte() as int, scale_intervals(self.kind)),
    {
        broadcast use group_music;
        let intervals = self.kind.intervals();
        let mut notes: Vec<MidiNote> = Vec::new();
        let mut i: usize = 0;
        while i < intervals.len()
            invariant
                i <= intervals.len(),
                intervals@ == scale_intervals(self.kind),
                bytes_of(notes@) == notes_in_range(self.root.byte() as int, intervals@.take(i as int)),
            decreases intervals.len() - i,
        {
            let interval = intervals[i];
            assert(interval <= 12);
            assert(intervals@.take(i + 1).drop_last() =~= intervals@.take(i as int));
            if let Some(note) = self.root.transpose(interval as i8) {
                notes.push(note);
                assert(bytes_of(notes@) =~= notes_in_range(self.root.byte() as int, intervals@.take(i as int)).push(note.byte()));
            }
            i += 1;
        }
        assert(intervals@.take(intervals.len() as int) =~= intervals@);
        notes
    }

    /// The ascending notes followed by the same notes descending, the top note not repeated.
    pub fn ascending_descending(&self) -> (r: Vec<MidiNote>)
        ensures
            bytes_of(r@) == up_and_down(notes_in_range(self.root.byte() as int, scale_intervals(self.kind))),
    {
        let mut notes = self.ascending();
        let ghost up = notes@;
        let n = notes.len();
        if n == 0 {
            return notes;
        }
        let mut j: usize = n - 1;
        while j > 0
            invariant
                0 <= j < n,
                n == up.len(),
                notes@ == up + up.drop_last().reverse().take((n - 1 - j) as int),
            decreases j,
        {
            j -= 1;
            let note = up_index(&notes, j);
            notes.push(note);
            assert(up.drop_last().reverse().take((n - 1 - j) as int)
                =~= up.drop_last().reverse().take((n - 2 - j) as int).push(up[j as int]));
        }
        assert(up.drop_last().reverse().take((n - 1) as int) =~= up.drop_last().reverse());
        assert(bytes_of(notes@) =~= up_and_down(bytes_of(up)));
        notes
    }
}

/// Reads element `j` of a vector of notes.
fn up_index(v: &Vec<MidiNote>, j: usize) -> (r: MidiNote)
    requires
        j < v.len(),
    ensures
        r == v@[j as int],
{
    v[j]
}

/// A walk up and back down a non-empty run starts and ends on its first note and plays
/// every other note twice: its length is twice the run's, less one.
pub proof fn lemma_walk_returns_to_start<T>(up: Seq<T>)
    requires
        up.len() > 0,
    ensures
        up_and_down(up).len() == 2 * up.len() - 1,
        up_and_down(up)[0] == up[0],
        up_and_down(up).last() == up[0],
        forall|i: int| 0 <= i < up.len() ==> #[trigger] up_and_down(up)[i] == up[i],
{
    let w = up_and_down(up);
    let n = up.len() as int;
    if n > 1 {
        assert(w[2 * n - 2] == up.drop_last().reverse()[n - 2]);
    }
}

/// Moving a note up and back down by the same interval gives the note back, whenever the
/// first move stays within `0..=127`.
pub proof fn lemma_transpose_round_trip(n: MidiNote, semitones: i8)
    requires
        n.byte() <= 127,
        0 <= n.byte() + semitones <= 127,
        semitones > i8::MIN,
    ensures
        0 <= MidiNote::from_byte((n.byte() + semitones) as u8).byte() - semitones <= 127,
        MidiNote::from_byte((MidiNote::from_byte((n.byte() + semitones) as u8).byte() - semitones) as u8) == n,
{
    lemma_from_byte_byte((n.byte() + semitones) as u8);
    lemma_byte_from_byte(n);
}

/// Moving a pitch class by `a` and then by `b` semitones is moving it by `a + b`: pitch
/// classes wrap around the octave.
pub proof fn lemma_pitch_transpose_composes(p: PitchClass, a: i8, b: i8)
    requires
        p.index() < 12,
        i8::MIN <= a + b <= i8::MAX,
    ensures
        p.transpose_spec(a).transpose_spec(b) == p.transpose_spec((a + b) as i8),
{
    let first = ((p.index() + a) % 12) as u8;
    lemma_pitch_from_index(first);
    assert((first + b) % 12 == (p.index() + a + b) % 12) by {
        vstd::arithmetic::div_mod::lemma_add_mod_noop(p.index() + a, b as int, 12);
        vstd::arithmetic::div_mod::lemma_mod_twice(b as int, 12);
    }
}

/// Every offset of `a`, moved up by `shift` semitones, is the pitch class of an offset of
/// `b`, and every offset of `b` is reached so: the two scales sound the same pitch classes
/// when `b` is rooted `12 - shift` semitones above `a`'s root.
pub open spec fn same_classes_shifted(a: Seq<u8>, b: Seq<u8>, shift: int) -> bool {
    &&& forall|i: int| 0 <= i < a.len() ==> exists|j: int| 0 <= j < b.len()
        && #[trigger] ((a[i] + shift) % 12) == (#[trigger] b[j]) % 12
    &&& forall|j: int| 0 <= j < b.len() ==> exists|i: int| 0 <= i < a.len()
        && ((#[trigger] a[i]) + shift) % 12 == #[trigger] (b[j] % 12)
}

/// Every offset of `a` is an offset of `b`.
pub open spec fn offsets_within(a: Seq<u8>, b: Seq<u8>) -> bool {
    forall|i: int| 0 <= i < a.len() ==> exists|j: int| 0 <= j < b.len() && #[trigger] b[j] == #[trigger] a[i]
}

/// How the scale kinds relate. A natural minor scale sounds the pitch classes of the major
/// scale three semitones above its root (its relative major), and the minor pentatonic
/// those of the relative major pentatonic; each pentatonic scale keeps five notes of its
/// seven-note scale; the chromatic scale holds every semitone of the octave. Every scale
/// starts on its root, ends on the octave and rises.
pub proof fn lemma_scale_kinds_relate()
    ensures
        same_classes_shifted(scale_intervals(ScaleKind::NaturalMinor), scale_intervals(ScaleKind::Major), 9),
        same_classes_shifted(scale_intervals(ScaleKind::MinorPentatonic), scale_intervals(ScaleKind::MajorPentatonic), 9),
        offsets_within(scale_intervals(ScaleKind::MajorPentatonic), scale_intervals(ScaleKind::Major)),
        offsets_within(scale_intervals(ScaleKind::MinorPentatonic), scale_intervals(ScaleKind::NaturalMinor)),
        forall|d: int| 0 <= d <= 12 ==> #[trigger] scale_intervals(ScaleKind::Chromatic)[d] == d,
        forall|k: ScaleKind| #[trigger] scale_intervals(k)[0] == 0
            && scale_intervals(k).last() == 12
            && forall|i: int| 0 <= i < scale_intervals(k).len() - 1
                ==> #[trigger] scale_intervals(k)[i] < scale_intervals(k)[i + 1],
{
    let mi = scale_intervals(ScaleKind::NaturalMinor);
    let ma = scale_intervals(ScaleKind::Major);
    let mp = scale_intervals(ScaleKind::MinorPentatonic);
    let pp = scale_intervals(ScaleKind::MajorPentatonic);
    assert(mi[0] == 0 && mi[1] == 2 && mi[2] == 3 && mi[3] == 5 && mi[4] == 7 && mi[5] == 8 && mi[6] == 10 && mi[7] == 12);
    assert(ma[0] == 0 && ma[1] == 2 && ma[2] == 4 && ma[3] == 5 && ma[4] == 7 && ma[5] == 9 && ma[6] == 11 && ma[7] == 12);
    assert(mp[0] == 0 && mp[1] == 3 && mp[2] == 5 && mp[3] == 7 && mp[4] == 10 && mp[5] == 12);
    assert(pp[0] == 0 && pp[1] == 2 && pp[2] == 4 && pp[3] == 7 && pp[4] == 9 && pp[5] == 12);
    assert forall|k: ScaleKind| #[trigger] scale_intervals(k)[0] == 0
        && scale_intervals(k).last() == 12
        && forall|i: int| 0 <= i < scale_intervals(k).len() - 1
            ==> #[trigger] scale_intervals(k)[i] < scale_intervals(k)[i + 1] by {
        let c = scale_intervals(ScaleKind::Chromatic);
        assert(c[0] == 0 && c[1] == 1 && c[2] == 2 && c[3] == 3 && c[4] == 4 && c[5] == 5 && c[6] == 6
            && c[7] == 7 && c[8] == 8 && c[9] == 9 && c[10] == 10 && c[11] == 11 && c[12] == 12);
    }
    let c = scale_intervals(ScaleKind::Chromatic);
    assert(c[0] == 0 && c[1] == 1 && c[2] == 2 && c[3] == 3 && c[4] == 4 && c[5] == 5 && c[6] == 6
        && c[7] == 7 && c[8] == 8 && c[9] == 9 && c[10] == 10 && c[11] == 11 && c[12] == 12);
}

} // verus!
