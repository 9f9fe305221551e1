use phase::chord::{detect, Chord, ChordQuality};
use phase::music::{MidiNote, PitchClass};

fn notes(values: &[u8]) -> Vec<MidiNote> {
    values.iter().map(|&n| MidiNote::new(n).unwrap()).collect()
}

#[test]
fn detects_triad_in_any_inversion() {
    let root = detect(notes(&[60, 64, 67])).unwrap();
    let inversion = detect(notes(&[64, 67, 72])).unwrap();
    assert_eq!(root, inversion);
    assert_eq!(root.quality, ChordQuality::Major);
}

#[test]
fn detects_required_chord_qualities() {
    let cases = [
        (&[60, 63, 67][..], ChordQuality::Minor),
        (&[60, 63, 66], ChordQuality::Diminished),
        (&[60, 64, 68], ChordQuality::Augmented),
        (&[60, 64, 67, 70], ChordQuality::DominantSeventh),
        (&[60, 64, 67, 71], ChordQuality::MajorSeventh),
        (&[60, 63, 67, 70], ChordQuality::MinorSeventh),
    ];
    for (values, expected) in cases {
        assert_eq!(detect(notes(values)).unwrap().quality, expected);
    }
}

#[test]
fn doubled_and_spread_voicings_give_the_same_chord() {
    let close = detect(notes(&[55, 59, 62])).unwrap();
    let spread = detect(notes(&[43, 62, 71, 79, 86])).unwrap();
    assert_eq!(close, spread);
    assert_eq!(close.root, PitchClass::new(7));
    assert_eq!(close.to_string(), "G major");
}

#[test]
fn too_few_or_too_many_pitch_classes_give_no_chord() {
    assert_eq!(detect(notes(&[])), None);
    assert_eq!(detect(notes(&[60, 72])), None);
    assert_eq!(detect(notes(&[60, 61, 62, 63, 64])), None);
    assert_eq!(detect(notes(&[60, 61, 62])), None);
}

#[test]
fn augmented_chord_takes_the_lowest_possible_root() {
    let chord = detect(notes(&[64, 68, 72])).unwrap();
    assert_eq!(
        chord,
        Chord {
            root: PitchClass::new(0),
            quality: ChordQuality::Augmented
        }
    );
}

#[test]
fn seventh_chord_names() {
    let chord = detect(notes(&[67, 71, 74, 77])).unwrap();
    assert_eq!(chord.to_string(), "G 7");
    let chord = detect(notes(&[62, 65, 69, 72])).unwrap();
    assert_eq!(chord.to_string(), "D min7");
}
