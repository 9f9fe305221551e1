//! Chord recognition from the set of sounding pitch classes, whatever the voicing.
use vstd::prelude::*;
use vstd::string::*;

use crate::music::{group_music, name_text, MidiNote, PitchClass};
use crate::text::text_of;

verus! {

broadcast use group_music;

/// The chord qualities that can be recognised.
#[derive(Clone, Copy, Debug, PartialEq, Eq, Structural)]
pub enum ChordQuality {
    Major,
    Minor,
    Diminished,
    Augmented,
    DominantSeventh,
    MajorSeventh,
    MinorSeventh,
}

/// A recognised chord: its root pitch class and its quality.
#[derive(Clone, Copy, Debug, PartialEq, Eq, Structural)]
pub struct Chord {
    pub root: PitchClass,
    pub quality: ChordQuality,
}

/// The qualities in the order in which they are tried for each root.
pub open spec fn quality_at(k: int) -> ChordQuality {
    if k == 0 { ChordQuality::DominantSeventh }
    else if k == 1 { ChordQuality::MajorSeventh }
    else if k == 2 { ChordQuality::MinorSeventh }
    else if k == 3 { ChordQuality::Major }
    else if k == 4 { ChordQuality::Minor }
    else if k == 5 { ChordQuality::Diminished }
    else { ChordQuality::Augmented }
}

/// The position of a quality in the order in which they are tried.
pub open spec fn quality_rank(q: ChordQuality) -> int {
    match q {
        ChordQuality::DominantSeventh => 0,
        ChordQuality::MajorSeventh => 1,
        ChordQuality::MinorSeventh => 2,
        ChordQuality::Major => 3,
        ChordQuality::Minor => 4,
        ChordQuality::Diminished => 5,
        ChordQuality::Augmented => 6,
    }
}

/// The semitone offsets of the chord tones from the root.
pub open spec fn quality_intervals(q: ChordQuality) -> Seq<u8> {
    match q {
        ChordQuality::DominantSeventh => seq![0u8, 4, 7, 10],
        ChordQuality::MajorSeventh => seq![0u8, 4, 7, 11],
        ChordQuality::MinorSeventh => seq![0u8, 3, 7, 10],
        ChordQuality::Major => seq![0u8, 4, 7],
        ChordQuality::Minor => seq![0u8, 3, 7],
        ChordQuality::Diminished => seq![0u8, 3, 6],
        ChordQuality::Augmented => seq![0u8, 4, 8],
    }
}

/// Some note of `notes` has pitch class `p`.
pub open spec fn has_pitch_class(notes: Seq<MidiNote>, p: int) -> bool {
    exists|i: int| 0 <= i < notes.len() && #[trigger] notes[i].byte() % 12 == p
}

/// `p` is a tone of the chord of that root and quality.
pub open spec fn chord_has(root: int, q: ChordQuality, p: int) -> bool {
    exists|j: int|
        0 <= j < quality_intervals(q).len() && (root + #[trigger] quality_intervals(q)[j]) % 12 == p
}

/// The pitch classes of `notes` are exactly the tones of that chord.
pub open spec fn matches_chord(notes: Seq<MidiNote>, root: int, q: ChordQuality) -> bool {
    forall|p: int| 0 <= p < 12 ==> (#[trigger] has_pitch_class(notes, p) <==> chord_has(root, q, p))
}

/// The first chord, roots from C upwards and qualities in their order for each root,
/// at or after position `k` of that order whose tones are exactly the pitch classes of `notes`.
pub open spec fn chord_search(notes: Seq<MidiNote>, k: int) -> Option<Chord>
    decreases 84 - k,
{
    if k < 0 || k >= 84 {
        None
    } else if matches_chord(notes, k / 7, quality_at(k % 7)) {
        Some(Chord { root: PitchClass::from_index((k / 7) as u8), quality: quality_at(k % 7) })
    } else {
        chord_search(notes, k + 1)
    }
}

/// The chord that the pitch classes of `notes` form, if any.
pub open spec fn chord_of(notes: Seq<MidiNote>) -> Option<Chord> {
    chord_search(notes, 0)
}

/// Both note collections sound the same pitch classes.
pub open spec fn same_pitch_classes(a: Seq<MidiNote>, b: Seq<MidiNote>) -> bool {
    forall|p: int| 0 <= p < 12 ==> (has_pitch_class(a, p) <==> has_pitch_class(b, p))
}

/// The flags `present[p]`, for `p` in `0..12`, of the pitch classes sounding in `notes`.
fn pitch_class_flags(notes: &Vec<MidiNote>) -> (present: Vec<bool>)
    ensures
        present.len() == 12,
        forall|p: int| 0 <= p < 12 ==> present[p] == has_pitch_class(notes@, p),
{
    let mut present: Vec<bool> = vec![false, false, false, false, false, false, false, false, false, false, false, false];
    let mut i: usize = 0;
    while i < notes.len()
        invariant
            i <= notes.len(),
            present.len() == 12,
            forall|p: int| 0 <= p < 12 ==> present[p] == exists|j: int|
                0 <= j < i && #[trigger] notes@[j].byte() % 12 == p,
        decreases notes.len() - i,
    {
        let pc = notes[i].value() % 12;
        present.set(pc as usize, true);
        assert forall|p: int| 0 <= p < 12 implies present[p] == exists|j: int|
            0 <= j < i + 1 && #[trigger] notes@[j].byte() % 12 == p by {
            if p == pc {
                assert(notes@[i as int].byte() % 12 == p);
            }
        }
        i += 1;
    }
    assert forall|p: int| 0 <= p < 12 implies present[p] == has_pitch_class(notes@, p) by {
        if has_pitch_class(notes@, p) {
            let j = choose|j: int| 0 <= j < notes@.len() && #[trigger] notes@[j].byte() % 12 == p;
            assert(0 <= j < i);
        }
    }
    present
}

/// Whether the tones of the chord of `root` and `quality` are exactly the flagged pitch classes.
fn chord_matches(present: &Vec<bool>, root: u8, quality: ChordQuality) -> (r: bool)
    requires
        present.len() == 12,
        root < 12,
    ensures
        r == (forall|p: int| 0 <= p < 12 ==> (present[p] <==> chord_has(root as int, quality, p))),
{
    let intervals = quality.intervals();
    let mut member: Vec<bool> = vec![false, false, false, false, false, false, false, false, false, false, false, false];
    let mut j: usize = 0;
    while j < intervals.len()
        invariant
            j <= intervals.len(),
            intervals@ == quality_intervals(quality),
            member.len() == 12,
            root < 12,
            forall|p: int| 0 <= p < 12 ==> member[p] == exists|k: int|
                0 <= k < j && (root + #[trigger] intervals@[k]) % 12 == p,
        decreases intervals.len() - j,
    {
        let interval = intervals[j];
        assert(interval <= 11);
        let pc = (root + interval) % 12;
        member.set(pc as usize, true);
        assert forall|p: int| 0 <= p < 12 implies member[p] == exists|k: int|
            0 <= k < j + 1 && (root + #[trigger] intervals@[k]) % 12 == p by {
            if p == pc {
                assert((root + intervals@[j as int]) % 12 == p);
            }
        }
        j += 1;
    }
    let mut p: usize = 0;
    while p < 12
        invariant
            p <= 12,
            member.len() == 12,
            present.len() == 12,
            forall|q: int| 0 <= q < 12 ==> member[q] == chord_has(root as int, quality, q),
            forall|q: int| 0 <= q < p ==> (present[q] <==> chord_has(root as int, quality, q)),
        decreases 12 - p,
    {
        if present[p] != member[p] {
            return false;
        }
        p += 1;
    }
    true
}

impl ChordQuality {
    /// The semitone offsets of the chord tones from the root.
    pub fn intervals(self) -> (r: Vec<u8>)
        ensures
            r@ == quality_intervals(self),
    {
        let r = match self {
            ChordQuality::DominantSeventh => vec![0u8, 4, 7, 10],
            ChordQuality::MajorSeventh => vec![0u8, 4, 7, 11],
            ChordQuality::MinorSeventh => vec![0u8, 3, 7, 10],
            ChordQuality::Major => vec![0u8, 4, 7],
            ChordQuality::Minor => vec![0u8, 3, 7],
            ChordQuality::Diminished => vec![0u8, 3, 6],
            ChordQuality::Augmented => vec![0u8, 4, 8],
        };
        assert(r@ =~= quality_intervals(self));
        r
    }

    /// The quality at position `k` of the order in which qualities are tried.
    fn at(k: usize) -> (r: Self)
        requires
            k < 7,
        ensures
            r == quality_at(k as int),
    {
        if k == 0 { ChordQuality::DominantSeventh }
        else if k == 1 { ChordQuality::MajorSeventh }
        else if k == 2 { ChordQuality::MinorSeventh }
        else if k == 3 { ChordQuality::Major }
        else if k == 4 { ChordQuality::Minor }
        else if k == 5 { ChordQuality::Diminished }
        else { ChordQuality::Augmented }
    }

    /// The display text: `major`, `minor`, `diminished`, `augmented`, `7`, `maj7` or `min7`.
    pub fn to_string(self) -> (r: String)
        ensures
            r@ == quality_text(self),
    {
        match self {
            ChordQuality::Major => { proof { reveal_strlit("major"); } text_of("major") },
            ChordQuality::Minor => { proof { reveal_strlit("minor"); } text_of("minor") },
            ChordQuality::Diminished => { proof { reveal_strlit("diminished"); } text_of("diminished") },
            ChordQuality::Augmented => { proof { reveal_strlit("augmented"); } text_of("augmented") },
            ChordQuality::DominantSeventh => { proof { reveal_strlit("7"); } text_of("7") },
            ChordQuality::MajorSeventh => { proof { reveal_strlit("maj7"); } text_of("maj7") },
            ChordQuality::MinorSeventh => { proof { reveal_strlit("min7"); } text_of("min7") },
        }
    }
}

/// The display text of a chord quality.
pub open spec fn quality_text(q: ChordQuality) -> Seq<char> {
    match q {
        ChordQuality::Major => "major"@,
        ChordQuality::Minor => "minor"@,
        ChordQuality::Diminished => "diminished"@,
        ChordQuality::Augmented => "augmented"@,
        ChordQuality::DominantSeventh => "7"@,
        ChordQuality::MajorSeventh => "maj7"@,
        ChordQuality::MinorSeventh => "min7"@,
    }
}

/// The display text of a chord: root name, a space, the quality.
pub open spec fn chord_text(c: Chord) -> Seq<char> {
    name_text(c.root.index() as nat) + seq![' '] + quality_text(c.quality)
}

impl Chord {
    /// The display text, e.g. `C major` or `G 7`.
    pub fn to_string(self) -> (r: String)
        ensures
            r@ == chord_text(self),
    {
        let mut s = self.root.to_string();
        proof { reveal_strlit(" "); }
        s.append(" ");
        let q = self.quality.to_string();
        s.append(q.as_str());
        assert(s@ =~= chord_text(self));
        s
    }
}

/// Recognises a triad or seventh chord from the pitch classes of the notes, ignoring
/// octaves, voicing and repetitions. Roots are tried from C upwards and, for each root,
/// the seventh chords before the triads.
pub fn detect(notes: Vec<MidiNote>) -> (r: Option<Chord>)
    ensures
        r == chord_of(notes@),
        match r {
            Some(c) => {
                &&& c.root.index() < 12
                &&& matches_chord(notes@, c.root.index() as int, c.quality)
                &&& forall|root: int, k: int| 0 <= root < c.root.index() && 0 <= k < 7
                    ==> !matches_chord(notes@, root, quality_at(k))
            },
            None => forall|root: int, k: int|
                0 <= root < 12 && 0 <= k < 7 ==> !matches_chord(notes@, root, quality_at(k)),
        },
{
    let present = pitch_class_flags(&notes);
    let mut root: u8 = 0;
    while root < 12
        invariant
            root <= 12,
            present.len() == 12,
            forall|p: int| 0 <= p < 12 ==> present[p] == has_pitch_class(notes@, p),
            chord_of(notes@) == chord_search(notes@, root * 7),
            forall|r: int, k: int|
                0 <= r < root && 0 <= k < 7 ==> !matches_chord(notes@, r, quality_at(k)),
        decreases 12 - root,
    {
        let mut k: usize = 0;
        while k < 7
            invariant
                root < 12,
                k <= 7,
                present.len() == 12,
                forall|p: int| 0 <= p < 12 ==> present[p] == has_pitch_class(notes@, p),
                chord_of(notes@) == chord_search(notes@, root * 7 + k),
                forall|r: int, kk: int|
                    0 <= r < root && 0 <= kk < 7 ==> !matches_chord(notes@, r, quality_at(kk)),
                forall|kk: int| 0 <= kk < k ==> !matches_chord(notes@, root as int, quality_at(kk)),
            decreases 7 - k,
        {
            let quality = ChordQuality::at(k);
            let found = chord_matches(&present, root, quality);
            let ghost pos = root * 7 + k;
            assert(pos / 7 == root && pos % 7 == k);
            assert(found == matches_chord(notes@, root as int, quality)) by {
                if found {
                    assert forall|p: int| 0 <= p < 12 implies (#[trigger] has_pitch_class(notes@, p)
                        <==> chord_has(root as int, quality, p)) by {
                        assert(present[p] == has_pitch_class(notes@, p));
                    }
                } else {
                    let p = choose|p: int| 0 <= p < 12 && !(present[p] <==> chord_has(root as int, quality, p));
                    assert(present[p] == has_pitch_class(notes@, p));
                }
            }
            if found {
                let c = Chord { root: PitchClass::new(root), quality };
                assert(c.root.index() == root);
                assert(forall|r: int, kk: int| 0 <= r < c.root.index() && 0 <= kk < 7
                    ==> !matches_chord(notes@, r, quality_at(kk)));
                return Some(c);
            }
            k += 1;
        }
        root += 1;
    }
    None
}

/// Chord recognition ignores inversions, doublings and octaves: two collections of notes
/// that sound the same pitch classes are recognised as the same chord (or as none).
pub proof fn lemma_detect_depends_only_on_pitch_classes(a: Seq<MidiNote>, b: Seq<MidiNote>)
    requires
        same_pitch_classes(a, b),
    ensures
        chord_of(a) == chord_of(b),
{
    lemma_search_same(a, b, 0);
}

proof fn lemma_search_same(a: Seq<MidiNote>, b: Seq<MidiNote>, k: int)
    requires
        same_pitch_classes(a, b),
    ensures
        chord_search(a, k) == chord_search(b, k),
    decreases 84 - k,
{
    if 0 <= k < 84 {
        let root = k / 7;
        let q = quality_at(k % 7);
        assert(matches_chord(a, root, q) == matches_chord(b, root, q)) by {
            if matches_chord(a, root, q) {
                assert forall|p: int| 0 <= p < 12 implies (#[trigger] has_pitch_class(b, p)
                    <==> chord_has(root, q, p)) by {
                    assert(has_pitch_class(a, p) <==> has_pitch_class(b, p));
                }
            }
            if matches_chord(b, root, q) {
                assert forall|p: int| 0 <= p < 12 implies (#[trigger] has_pitch_class(a, p)
                    <==> chord_has(root, q, p)) by {
                    assert(has_pitch_class(a, p) <==> has_pitch_class(b, p));
                }
            }
        }
        lemma_search_same(a, b, k + 1);
    }
}

/// Whether `d` semitones above the root is a tone of the chord quality `q` (`0 <= d < 12`).
pub open spec fn has_interval(q: ChordQuality, d: int) -> bool {
    match q {
        ChordQuality::DominantSeventh => d == 0 || d == 4 || d == 7 || d == 10,
        ChordQuality::MajorSeventh => d == 0 || d == 4 || d == 7 || d == 11,
        ChordQuality::MinorSeventh => d == 0 || d == 3 || d == 7 || d == 10,
        ChordQuality::Major => d == 0 || d == 4 || d == 7,
        ChordQuality::Minor => d == 0 || d == 3 || d == 7,
        ChordQuality::Diminished => d == 0 || d == 3 || d == 6,
        ChordQuality::Augmented => d == 0 || d == 4 || d == 8,
    }
}

proof fn lemma_tone_at(root: int, q: ChordQuality, d: int)
    requires
        0 <= root < 12,
        0 <= d < 12,
    ensures
        chord_has(root, q, (root + d) % 12) <==> has_interval(q, d),
{
    let ivs = quality_intervals(q);
    let p = (root + d) % 12;
    if chord_has(root, q, p) {
        let j = choose|j: int| 0 <= j < ivs.len() && (root + #[trigger] ivs[j]) % 12 == p;
        let e = ivs[j] as int;
        assert(has_interval(q, e) && 0 <= e < 12) by {
            if j == 0 {} else if j == 1 {} else if j == 2 {} else {}
        }
        assert(e == d);
    }
    if has_interval(q, d) {
        let j: int = if d == 0 { 0 } else if d == 3 || d == 4 { 1 } else if d == 6 || d == 7 || d == 8 {
            if ivs[1] as int == d { 1 } else { 2 }
        } else { 3 };
        assert(0 <= j < ivs.len() && ivs[j] as int == d) by {
            if d == 7 {
                assert(ivs[2] == 7);
            }
        }
        assert((root + ivs[j]) % 12 == p);
    }
}

/// A set of pitch classes forms at most one chord quality on a given root: recognition
/// names the least root on which the notes form a chord, with the one quality they form.
pub proof fn lemma_one_quality_per_root(notes: Seq<MidiNote>, root: int, q1: ChordQuality, q2: ChordQuality)
    requires
        0 <= root < 12,
        matches_chord(notes, root, q1),
        matches_chord(notes, root, q2),
    ensures
        q1 == q2,
{
    assert forall|d: int| 0 <= d < 12 implies (has_interval(q1, d) <==> has_interval(q2, d)) by {
        lemma_tone_at(root, q1, d);
        lemma_tone_at(root, q2, d);
        assert(has_pitch_class(notes, (root + d) % 12) <==> chord_has(root, q1, (root + d) % 12));
        assert(has_pitch_class(notes, (root + d) % 12) <==> chord_has(root, q2, (root + d) % 12));
    }
    assert(has_interval(q1, 3) == has_interval(q2, 3));
    assert(has_interval(q1, 4) == has_interval(q2, 4));
    assert(has_interval(q1, 6) == has_interval(q2, 6));
    assert(has_interval(q1, 8) == has_interval(q2, 8));
    assert(has_interval(q1, 10) == has_interval(q2, 10));
    assert(has_interval(q1, 11) == has_interval(q2, 11));
}

} // verus!
