use vstd::prelude::*;

use crate::note::{Note, text_index, valid_note_text};
use crate::text::{i32_text_value, is_i32_text, parse_i32, str_eq};

verus! {

/// The default tuning when no `--tuning` flag is given: standard guitar,
/// low to high.
pub open spec fn default_tuning() -> Seq<Note> {
    seq![Note::E, Note::A, Note::D, Note::G, Note::B, Note::E]
}

/// The default fret count when no `--frets` flag is given.
pub const DEFAULT_FRET_COUNT: i32 = 22;

/// Errors reported for a command line that does not follow the flag
/// grammar; each aborts startup before the quiz loop begins.
#[derive(Debug)]
pub enum ParseArgsError {
    /// A fret-count flag with no following token.
    NoFretCount,
    /// A fret-count token that is not an integer.
    InvalidFretCount(String),
    /// A fret-count token holding a negative integer.
    NegativeFretCount(i32),
    /// A tuning token that is not a note.
    InvalidNote(String),
    /// A tuning flag followed by no notes at all.
    NoNotes,
    /// A token that is neither a recognized flag nor a flag's argument.
    InvalidArgument(String),
}

/// What the command line denotes: either an accepted tuning and fret
/// count, or the first error met reading left to right.
pub enum ArgsOutcome {
    Accepted { strings: Seq<Note>, frets: int },
    NoFretCount,
    InvalidFretCount { token: Seq<char> },
    NegativeFretCount { count: int },
    InvalidNote { token: Seq<char> },
    NoNotes,
    InvalidArgument { token: Seq<char> },
}

/// Whether `t` is one of the two spellings of the fret-count flag.
pub open spec fn is_frets_flag(t: Seq<char>) -> bool {
    t == "--frets"@ || t == "-f"@
}

/// Whether `t` is one of the two spellings of the tuning flag.
pub open spec fn is_tuning_flag(t: Seq<char>) -> bool {
    t == "--tuning"@ || t == "-t"@
}

/// Whether `t` looks like a flag: it starts with `-`. A tuning list
/// stops at the first such token.
pub open spec fn is_flag_like(t: Seq<char>) -> bool {
    t.len() > 0 && t[0] == '-'
}

/// The outcome of reading the remaining tokens `toks`, with `strings`
/// and `frets` the tuning and fret count gathered so far.
pub open spec fn parse_args_spec(toks: Seq<Seq<char>>, strings: Seq<Note>, frets: int) -> ArgsOutcome
    decreases toks.len(), 0int,
{
    if toks.len() == 0 {
        ArgsOutcome::Accepted { strings, frets }
    } else if is_frets_flag(toks[0]) {
        if toks.len() == 1 {
            ArgsOutcome::NoFretCount
        } else if !is_i32_text(toks[1]) {
            ArgsOutcome::InvalidFretCount { token: toks[1] }
        } else if i32_text_value(toks[1]) < 0 {
            ArgsOutcome::NegativeFretCount { count: i32_text_value(toks[1]) }
        } else {
            parse_args_spec(
                toks.subrange(2, toks.len() as int),
                strings,
                i32_text_value(toks[1]),
            )
        }
    } else if is_tuning_flag(toks[0]) {
        parse_tuning_spec(toks.subrange(1, toks.len() as int), Seq::empty(), frets)
    } else {
        ArgsOutcome::InvalidArgument { token: toks[0] }
    }
}

/// The outcome of reading a tuning list that starts at `toks`, with the
/// notes gathered so far in `acc`: notes are taken until the end or the
/// first flag-like token, and an empty list is an error.
pub open spec fn parse_tuning_spec(toks: Seq<Seq<char>>, acc: Seq<Note>, frets: int) -> ArgsOutcome
    decreases toks.len(), 1int,
{
    if toks.len() == 0 || is_flag_like(toks[0]) {
        if acc.len() == 0 {
            ArgsOutcome::NoNotes
        } else {
            parse_args_spec(toks, acc, frets)
        }
    } else if valid_note_text(toks[0]) {
        parse_tuning_spec(
            toks.subrange(1, toks.len() as int),
            acc.push(Note::of_index(text_index(toks[0]))),
            frets,
        )
    } else {
        ArgsOutcome::InvalidNote { token: toks[0] }
    }
}

/// Whether the executable result `r` reports exactly the outcome `out`.
pub open spec fn outcome_matches(
    out: ArgsOutcome,
    r: Result<(Vec<Note>, i32), ParseArgsError>,
) -> bool {
    match out {
        ArgsOutcome::Accepted { strings, frets } => r matches Ok(p) && p.0@ == strings && p.1
            == frets,
        ArgsOutcome::NoFretCount => r matches Err(ParseArgsError::NoFretCount),
        ArgsOutcome::InvalidFretCount { token } => r matches Err(
            ParseArgsError::InvalidFretCount(t),
        ) && t@ == token,
        ArgsOutcome::NegativeFretCount { count } => r matches Err(
            ParseArgsError::NegativeFretCount(c),
        ) && c == count,
        ArgsOutcome::InvalidNote { token } => r matches Err(ParseArgsError::InvalidNote(t)) && t@
            == token,
        ArgsOutcome::NoNotes => r matches Err(ParseArgsError::NoNotes),
        ArgsOutcome::InvalidArgument { token } => r matches Err(
            ParseArgsError::InvalidArgument(t),
        ) && t@ == token,
    }
}

/// Reads the command-line tokens (the program name already removed) into
/// a tuning and a fret count, starting from the defaults; the result is
/// exactly what the token list denotes under the flag grammar.
pub fn parse_args(tokens: &Vec<String>) -> (r: Result<(Vec<Note>, i32), ParseArgsError>)
    ensures
        outcome_matches(
            parse_args_spec(tokens.deep_view(), default_tuning(), DEFAULT_FRET_COUNT as int),
            r,
        ),
{
    let ghost toks = tokens.deep_view();
    let n = tokens.len();
    let mut strings: Vec<Note> = vec![Note::E, Note::A, Note::D, Note::G, Note::B, Note::E];
    let mut fret_count: i32 = DEFAULT_FRET_COUNT;
    proof {
        assert(strings@ =~= default_tuning());
        assert(toks.subrange(0, n as int) =~= toks);
    }
    let mut i: usize = 0;
    while i < n
        invariant
            0 <= i <= n,
            n == tokens@.len(),
            toks == tokens.deep_view(),
            toks.len() == n,
            parse_args_spec(toks, default_tuning(), DEFAULT_FRET_COUNT as int)
                == parse_args_spec(toks.subrange(i as int, n as int), strings@, fret_count as int),
        decreases n - i,
    {
        proof {
            assert(toks.subrange(i as int, n as int)[0] == toks[i as int]);
            assert(toks[i as int] == tokens@[i as int]@);
        }
        let tok = &tokens[i];
        if str_eq(tok.as_str(), "--frets") || str_eq(tok.as_str(), "-f") {
            if i + 1 >= n {
                proof {
                    assert(toks.subrange(i as int, n as int).len() == 1);
                }
                return Err(ParseArgsError::NoFretCount);
            }
            proof {
                assert(toks.subrange(i as int, n as int)[1] == toks[i + 1]);
                assert(toks[i + 1] == tokens@[i + 1]@);
            }
            let num = &tokens[i + 1];
            match parse_i32(num.as_str()) {
                Some(v) => {
                    if v < 0 {
                        return Err(ParseArgsError::NegativeFretCount(v));
                    }
                    proof {
                        let rest = toks.subrange(i as int, n as int);
                        assert(rest.subrange(2, rest.len() as int) =~= toks.subrange(
                            i + 2,
                            n as int,
                        ));
                    }
                    fret_count = v;
                    i = i + 2;
                },
                None => {
                    return Err(ParseArgsError::InvalidFretCount(num.clone()));
                },
            }
        } else if str_eq(tok.as_str(), "--tuning") || str_eq(tok.as_str(), "-t") {
            proof {
                let rest = toks.subrange(i as int, n as int);
                assert(rest.subrange(1, rest.len() as int) =~= toks.subrange(i + 1, n as int));
            }
            let ghost frets_now = fret_count as int;
            let mut acc: Vec<Note> = Vec::new();
            i = i + 1;
            let ghost i0 = i as int;
            loop
                invariant
                    i0 <= i <= n,
                    n == tokens@.len(),
                    toks == tokens.deep_view(),
                    toks.len() == n,
                    parse_args_spec(toks, default_tuning(), DEFAULT_FRET_COUNT as int)
                        == parse_tuning_spec(
                        toks.subrange(i as int, n as int),
                        acc@,
                        frets_now,
                    ),
                    fret_count as int == frets_now,
                ensures
                    i0 <= i <= n,
                    parse_args_spec(toks, default_tuning(), DEFAULT_FRET_COUNT as int)
                        == parse_tuning_spec(
                        toks.subrange(i as int, n as int),
                        acc@,
                        frets_now,
                    ),
                    fret_count as int == frets_now,
                    i == n || is_flag_like(toks[i as int]),
                decreases n - i,
            {
                if i >= n {
                    break;
                }
                proof {
                    assert(toks.subrange(i as int, n as int)[0] == toks[i as int]);
                    assert(toks[i as int] == tokens@[i as int]@);
                }
                let t = &tokens[i];
                let flag_like = t.unicode_len() > 0 && t.as_str().get_char(0) == '-';
                if flag_like {
                    break;
                }
                match Note::from_text(t.as_str()) {
                    Ok(note) => {
                        proof {
                            let rest = toks.subrange(i as int, n as int);
                            assert(rest.subrange(1, rest.len() as int) =~= toks.subrange(
                                i + 1,
                                n as int,
                            ));
                        }
                        acc.push(note);
                        i = i + 1;
                    },
                    Err(_) => {
                        return Err(ParseArgsError::InvalidNote(t.clone()));
                    },
                }
            }
            if acc.len() == 0 {
                return Err(ParseArgsError::NoNotes);
            }
            strings = acc;
        } else {
            return Err(ParseArgsError::InvalidArgument(tok.clone()));
        }
    }
    proof {
        assert(toks.subrange(n as int, n as int) =~= Seq::<Seq<char>>::empty());
    }
    Ok((strings, fret_count))
}

} // verus!
