use fretboard_trainer::args::{parse_args, ParseArgsError};
use fretboard_trainer::note::Note;

fn tokens(words: &[&str]) -> Vec<String> {
    words.iter().map(|w| w.to_string()).collect()
}

#[test]
fn no_arguments_gives_standard_guitar_defaults() {
    let (strings, frets) = parse_args(&tokens(&[])).unwrap();
    assert_eq!(
        strings,
        vec![Note::E, Note::A, Note::D, Note::G, Note::B, Note::E]
    );
    assert_eq!(frets, 22);
}

#[test]
fn frets_flag_overrides_the_fret_count() {
    let (_, frets) = parse_args(&tokens(&["--frets", "12"])).unwrap();
    assert_eq!(frets, 12);
    let (_, frets) = parse_args(&tokens(&["-f", "24"])).unwrap();
    assert_eq!(frets, 24);
    let (_, frets) = parse_args(&tokens(&["-f", "5", "-f", "7"])).unwrap();
    assert_eq!(frets, 7);
}

#[test]
fn tuning_flag_replaces_the_string_list() {
    let (strings, frets) = parse_args(&tokens(&["--tuning", "D", "A", "d", "G", "a", "D"])).unwrap();
    assert_eq!(
        strings,
        vec![Note::D, Note::A, Note::D, Note::G, Note::A, Note::D]
    );
    assert_eq!(frets, 22);
    let (strings, frets) = parse_args(&tokens(&["-t", "Eb", "Ab", "Db", "Gb", "Bb", "Eb", "-f", "21"])).unwrap();
    assert_eq!(
        strings,
        vec![Note::Ds, Note::Gs, Note::Cs, Note::Fs, Note::As, Note::Ds]
    );
    assert_eq!(frets, 21);
}

#[test]
fn frets_flag_without_a_count_is_an_error() {
    assert!(matches!(
        parse_args(&tokens(&["--frets"])),
        Err(ParseArgsError::NoFretCount)
    ));
}

#[test]
fn non_numeric_fret_count_is_an_error() {
    match parse_args(&tokens(&["-f", "abc"])) {
        Err(ParseArgsError::InvalidFretCount(t)) => assert_eq!(t, "abc"),
        other => panic!("unexpected result: {:?}", other),
    }
    match parse_args(&tokens(&["-f", "2147483648"])) {
        Err(ParseArgsError::InvalidFretCount(t)) => assert_eq!(t, "2147483648"),
        other => panic!("unexpected result: {:?}", other),
    }
}

#[test]
fn negative_fret_count_is_an_error() {
    assert!(matches!(
        parse_args(&tokens(&["--frets", "-3"])),
        Err(ParseArgsError::NegativeFretCount(-3))
    ));
}

#[test]
fn invalid_note_in_tuning_is_an_error() {
    match parse_args(&tokens(&["-t", "E", "H", "D"])) {
        Err(ParseArgsError::InvalidNote(t)) => assert_eq!(t, "H"),
        other => panic!("unexpected result: {:?}", other),
    }
}

#[test]
fn tuning_flag_without_notes_is_an_error() {
    assert!(matches!(
        parse_args(&tokens(&["--tuning"])),
        Err(ParseArgsError::NoNotes)
    ));
    assert!(matches!(
        parse_args(&tokens(&["-t", "-f", "9"])),
        Err(ParseArgsError::NoNotes)
    ));
}

#[test]
fn unrecognized_token_is_an_error() {
    match parse_args(&tokens(&["--color"])) {
        Err(ParseArgsError::InvalidArgument(t)) => assert_eq!(t, "--color"),
        other => panic!("unexpected result: {:?}", other),
    }
    match parse_args(&tokens(&["E"])) {
        Err(ParseArgsError::InvalidArgument(t)) => assert_eq!(t, "E"),
        other => panic!("unexpected result: {:?}", other),
    }
}
