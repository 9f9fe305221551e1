use phase::music::{MidiNote, NoteName, PitchClass, Scale, ScaleKind};

#[test]
fn note_names_and_octaves_follow_midi_standard() {
    assert_eq!(MidiNote::new(60).unwrap().to_string(), "C4");
    assert_eq!(MidiNote::new(69).unwrap().to_string(), "A4");
    assert_eq!(MidiNote::new(0).unwrap().to_string(), "C-1");
}

#[test]
fn pitch_class_arithmetic_wraps() {
    assert_eq!(PitchClass::c().transpose(-1).name(), NoteName::B);
    assert_eq!(PitchClass::new(11).transpose(2).name(), NoteName::Cs);
}

#[test]
fn midi_transposition_checks_bounds() {
    assert_eq!(
        MidiNote::new(60).unwrap().transpose(12).unwrap().value(),
        72
    );
    assert!(MidiNote::new(2).unwrap().transpose(-3).is_none());
    assert!(MidiNote::new(126).unwrap().transpose(2).is_none());
}

#[test]
fn generates_major_scale_both_directions() {
    let scale = Scale {
        root: MidiNote::new(60).unwrap(),
        kind: ScaleKind::Major,
    };
    let ascending: Vec<_> = scale.ascending().into_iter().map(MidiNote::value).collect();
    assert_eq!(ascending, [60, 62, 64, 65, 67, 69, 71, 72]);
    let both = scale.ascending_descending();
    assert_eq!(both.len(), 15);
    assert_eq!(both.last().unwrap().value(), 60);
}

#[test]
fn new_rejects_values_above_127() {
    assert!(MidiNote::new(127).is_some());
    assert!(MidiNote::new(128).is_none());
    assert!(MidiNote::new(255).is_none());
}

#[test]
fn pitch_class_and_octave_of_notes() {
    let n = MidiNote::new(61).unwrap();
    assert_eq!(n.pitch_class().value(), 1);
    assert_eq!(n.octave(), 4);
    assert_eq!(MidiNote::new(11).unwrap().octave(), -1);
    assert_eq!(MidiNote::new(127).unwrap().to_string(), "G9");
    assert_eq!(MidiNote::new(70).unwrap().to_string(), "A#4");
    assert_eq!(PitchClass::new(25).value(), 1);
    assert_eq!(PitchClass::new(3).transpose(-15).value(), 0);
    assert_eq!(PitchClass::new(6).to_string(), "F#");
}

#[test]
fn transposing_there_and_back_returns_the_note() {
    for v in 0..=127u8 {
        let note = MidiNote::new(v).unwrap();
        for k in [-12i8, -5, -1, 0, 1, 7, 12] {
            if let Some(moved) = note.transpose(k) {
                assert_eq!(moved.transpose(-k), Some(note));
            }
        }
    }
}

#[test]
fn scale_near_the_top_drops_notes_beyond_127() {
    let scale = Scale {
        root: MidiNote::new(120).unwrap(),
        kind: ScaleKind::Major,
    };
    let ascending: Vec<u8> = scale.ascending().into_iter().map(MidiNote::value).collect();
    assert_eq!(ascending, [120, 122, 124, 125, 127]);
    let both: Vec<u8> = scale.ascending_descending().into_iter().map(MidiNote::value).collect();
    assert_eq!(both, [120, 122, 124, 125, 127, 125, 124, 122, 120]);
}

#[test]
fn scale_intervals_and_names() {
    assert_eq!(ScaleKind::Chromatic.intervals().len(), 13);
    assert_eq!(ScaleKind::MinorPentatonic.intervals(), vec![0, 3, 5, 7, 10, 12]);
    assert_eq!(ScaleKind::NaturalMinor.to_string(), "natural minor");
    assert_eq!(ScaleKind::from_index(3), ScaleKind::MajorPentatonic);
    assert_eq!(ScaleKind::MinorPentatonic.index(), 4);
    assert_eq!(NoteName::Gs.to_string(), "G#");
}
