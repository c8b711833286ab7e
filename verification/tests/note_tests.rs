use fretboard_trainer::note::{Note, NoteError};

#[test]
fn from_index_round_trips_on_all_valid_indices() {
    for i in 0..=11 {
        let note = Note::from_index(i).unwrap();
        assert_eq!(note.to_index(), i);
    }
}

#[test]
fn from_index_rejects_out_of_range_integers() {
    for i in [-1, 12, 13, 100, -100, i32::MIN, i32::MAX] {
        assert!(matches!(Note::from_index(i), Err(NoteError::OutOfRange)));
    }
}

#[test]
fn add_always_lands_in_range_and_round_trips() {
    for i in 0..=11 {
        let p = Note::from_index(i).unwrap();
        for d in [-100, -24, -13, -12, -11, -1, 0, 1, 11, 12, 13, 24, 100, 144] {
            let q = p.add(d);
            assert!((0..=11).contains(&q.to_index()));
            assert_eq!(q.add(-d), p);
            assert_eq!(p.subtract(d).add(d), p);
        }
    }
}

#[test]
fn add_moves_by_semitones_modulo_twelve() {
    let c = Note::from_index(0).unwrap();
    assert_eq!(c.add(1).to_display_text(), "C#");
    assert_eq!(c.add(12), c);
    assert_eq!(c.add(-1).to_display_text(), "B");
    assert_eq!(c.subtract(1).to_display_text(), "B");
    assert_eq!(c.subtract(-1).to_display_text(), "C#");
}

#[test]
fn from_text_normalizes_to_sharp_spellings() {
    assert_eq!(Note::from_text("C").unwrap().to_display_text(), "C");
    assert_eq!(Note::from_text("Db").unwrap().to_display_text(), "C#");
    assert_eq!(Note::from_text("B#").unwrap().to_display_text(), "C");
    assert_eq!(Note::from_text("Cb").unwrap().to_display_text(), "B");
}

#[test]
fn from_text_rejects_empty_and_unknown_letters() {
    assert!(matches!(Note::from_text(""), Err(NoteError::InvalidNoteText)));
    assert!(matches!(Note::from_text("H"), Err(NoteError::InvalidNoteText)));
    assert!(matches!(Note::from_text("C!"), Err(NoteError::InvalidNoteText)));
    assert!(matches!(Note::from_text("#"), Err(NoteError::InvalidNoteText)));
    assert!(matches!(Note::from_text(" C"), Err(NoteError::InvalidNoteText)));
}

#[test]
fn from_text_applies_stacked_modifiers() {
    assert_eq!(Note::from_text("c##").unwrap(), Note::from_index(2).unwrap());
    assert_eq!(Note::from_text("Ebb").unwrap(), Note::from_index(2).unwrap());
    assert_eq!(Note::from_text("bb").unwrap().to_display_text(), "A#");
    assert_eq!(Note::from_text("b#").unwrap().to_display_text(), "C");
}

#[test]
fn from_text_is_case_insensitive_on_the_letter() {
    for (lower, upper) in [
        ("a", "A"),
        ("b", "B"),
        ("c", "C"),
        ("d", "D"),
        ("e", "E"),
        ("f", "F"),
        ("g", "G"),
    ] {
        assert_eq!(
            Note::from_text(lower).unwrap(),
            Note::from_text(upper).unwrap()
        );
    }
}

#[test]
fn display_names_are_the_canonical_twelve() {
    let names = [
        "C", "C#", "D", "D#", "E", "F", "F#", "G", "G#", "A", "A#", "B",
    ];
    for (i, name) in names.iter().enumerate() {
        assert_eq!(Note::from_index(i as i32).unwrap().to_display_text(), *name);
    }
}
