use fretboard_trainer::fretboard::Fretboard;
use fretboard_trainer::note::Note;

#[test]
fn single_string_single_fret_is_deterministic() {
    let board = Fretboard::new(vec![Note::E], 1);
    for _ in 0..200 {
        assert_eq!(*board.get_random_string(), Note::E);
        assert_eq!(board.get_random_fret(), 0);
    }
}

#[test]
fn standard_tuning_sampling_covers_everything_and_stays_in_range() {
    let strings = vec![Note::E, Note::A, Note::D, Note::G, Note::B, Note::E];
    let board = Fretboard::new(strings.clone(), 22);
    let mut fret_seen = [false; 22];
    let mut note_seen = [false; 12];
    for _ in 0..10000 {
        let fret = board.get_random_fret();
        assert!((0..22).contains(&fret));
        fret_seen[fret as usize] = true;
        let string = *board.get_random_string();
        assert!(strings.contains(&string));
        note_seen[string.to_index() as usize] = true;
    }
    assert!(fret_seen.iter().all(|seen| *seen));
    for s in &strings {
        assert!(note_seen[s.to_index() as usize]);
    }
}

#[test]
fn quiz_note_is_open_string_plus_fret() {
    // Open string A (index 9), fret 3: (9 + 3) % 12 == 0, i.e. C.
    let a = Note::from_index(9).unwrap();
    let note = a.add(3);
    assert_eq!(note.to_index(), 0);
    assert_eq!(note.to_display_text(), "C");

    // Open string B (index 11), fret 2: (11 + 2) % 12 == 1, i.e. C#.
    let b = Note::from_index(11).unwrap();
    let note = b.add(2);
    assert_eq!(note.to_index(), 1);
    assert_eq!(note.to_display_text(), "C#");
}
