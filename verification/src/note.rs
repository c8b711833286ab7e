use vstd::prelude::*;
use vstd::arithmetic::div_mod::{
    lemma_fundamental_div_mod, lemma_fundamental_div_mod_converse_mod,
    lemma_mod_division_less_than_divisor,
};
use vstd::string::StrSliceExecFns;

verus! {

/// One of the twelve equal-tempered pitch classes, in semitone order
/// starting at C. Sharps only; flats are accepted on input but are
/// normalized to the sharp spelling.
#[derive(Clone, Copy, Debug, PartialEq, Eq, Structural)]
pub enum Note {
    C,
    Cs,
    D,
    Ds,
    E,
    F,
    Fs,
    G,
    Gs,
    A,
    As,
    B,
}

/// Errors for the fallible `Note` constructors.
#[derive(Clone, Copy, Debug, PartialEq, Eq, Structural)]
pub enum NoteError {
    /// An integer outside [0, 11] was given to index-based construction.
    OutOfRange,
    /// A note string that is not a letter A..G followed by `#`/`b` modifiers.
    InvalidNoteText,
}

impl Note {
    /// The semitone index of this pitch class: C is 0, B is 11.
    pub open spec fn index(self) -> int {
        match self {
            Note::C => 0,
            Note::Cs => 1,
            Note::D => 2,
            Note::Ds => 3,
            Note::E => 4,
            Note::F => 5,
            Note::Fs => 6,
            Note::G => 7,
            Note::Gs => 8,
            Note::A => 9,
            Note::As => 10,
            Note::B => 11,
        }
    }

    /// The semitone index as an executable value.
    pub fn to_index(&self) -> (r: i32)
        ensures
            r == self.index(),
    {
        match self {
            Note::C => 0,
            Note::Cs => 1,
            Note::D => 2,
            Note::Ds => 3,
            Note::E => 4,
            Note::F => 5,
            Note::Fs => 6,
            Note::G => 7,
            Note::Gs => 8,
            Note::A => 9,
            Note::As => 10,
            Note::B => 11,
        }
    }

    /// The pitch class whose semitone index is `i`; meaningful for
    /// `0 <= i < 12` and used only on such values.
    pub open spec fn of_index(i: int) -> Note {
        if i == 0 {
            Note::C
        } else if i == 1 {
            Note::Cs
        } else if i == 2 {
            Note::D
        } else if i == 3 {
            Note::Ds
        } else if i == 4 {
            Note::E
        } else if i == 5 {
            Note::F
        } else if i == 6 {
            Note::Fs
        } else if i == 7 {
            Note::G
        } else if i == 8 {
            Note::Gs
        } else if i == 9 {
            Note::A
        } else if i == 10 {
            Note::As
        } else {
            Note::B
        }
    }

    /// Builds the pitch class with semitone index `i`; any integer outside
    /// [0, 11] is rejected with `OutOfRange`, never wrapped.
    pub fn from_index(i: i32) -> (r: Result<Note, NoteError>)
        ensures
            0 <= i <= 11 ==> r == Ok::<Note, NoteError>(Note::of_index(i as int)),
            !(0 <= i <= 11) ==> r == Err::<Note, NoteError>(NoteError::OutOfRange),
    {
        match i {
            0 => Ok(Note::C),
            1 => Ok(Note::Cs),
            2 => Ok(Note::D),
            3 => Ok(Note::Ds),
            4 => Ok(Note::E),
            5 => Ok(Note::F),
            6 => Ok(Note::Fs),
            7 => Ok(Note::G),
            8 => Ok(Note::Gs),
            9 => Ok(Note::A),
            10 => Ok(Note::As),
            11 => Ok(Note::B),
            _ => Err(NoteError::OutOfRange),
        }
    }
}

impl Note {
    /// The pitch class with semitone index `i`, as executable code.
    fn of_index_exec(i: i32) -> (r: Note)
        requires
            0 <= i < 12,
        ensures
            r == Note::of_index(i as int),
    {
        match i {
            0 => Note::C,
            1 => Note::Cs,
            2 => Note::D,
            3 => Note::Ds,
            4 => Note::E,
            5 => Note::F,
            6 => Note::Fs,
            7 => Note::G,
            8 => Note::Gs,
            9 => Note::A,
            10 => Note::As,
            _ => Note::B,
        }
    }

    /// Adds `delta` semitones to the index `idx` and reduces the result
    /// into [0, 12) by true mathematical modulo, never a negative remainder.
    fn norm(idx: i32, delta: i64) -> (r: i32)
        requires
            0 <= idx < 12,
            -0x8000_0000 <= delta <= 0x8000_0000,
        ensures
            0 <= r < 12,
            r == (idx + delta) % 12,
    {
        let m: u64 = if delta >= 0 {
            (delta as u64) % 12
        } else {
            let mr: u64 = ((-delta) as u64) % 12;
            if mr == 0 {
                0
            } else {
                12 - mr
            }
        };
        proof {
            if delta >= 0 {
                assert(m == delta as int % 12);
            } else {
                let nd = -(delta as int);
                lemma_fundamental_div_mod(nd, 12);
                let qn = nd / 12;
                if m == 0 {
                    lemma_fundamental_div_mod_converse_mod(delta as int, 12, -qn, 0);
                } else {
                    lemma_fundamental_div_mod_converse_mod(
                        delta as int,
                        12,
                        -qn - 1,
                        12 - (nd % 12),
                    );
                }
                assert(m == delta as int % 12);
            }
        }
        let t: u64 = (idx as u64) + m;
        let r: i32 = if t >= 12 {
            (t - 12) as i32
        } else {
            t as i32
        };
        proof {
            lemma_fundamental_div_mod(delta as int, 12);
            let qd = delta as int / 12;
            let k: int = if t >= 12 {
                1int
            } else {
                0int
            };
            lemma_fundamental_div_mod_converse_mod(idx + delta as int, 12, qd + k, r as int);
        }
        r
    }

    /// Transposes this pitch class up by `rhs` semitones (down for a
    /// negative `rhs`), wrapping around the twelve-tone circle.
    pub fn add(&self, rhs: i32) -> (r: Note)
        ensures
            r == Note::of_index((self.index() + rhs) % 12),
    {
        Note::of_index_exec(Note::norm(self.to_index(), rhs as i64))
    }

    /// Transposes this pitch class down by `rhs` semitones (up for a
    /// negative `rhs`), wrapping around the twelve-tone circle.
    pub fn subtract(&self, rhs: i32) -> (r: Note)
        ensures
            r == Note::of_index((self.index() - rhs) % 12),
    {
        Note::of_index_exec(Note::norm(self.to_index(), -(rhs as i64)))
    }
}

/// The semitone index named by a note letter, or -1 when the character
/// is not one of the letters A..G (either case).
pub open spec fn letter_semitone(c: char) -> int {
    if c == 'C' || c == 'c' {
        0
    } else if c == 'D' || c == 'd' {
        2
    } else if c == 'E' || c == 'e' {
        4
    } else if c == 'F' || c == 'f' {
        5
    } else if c == 'G' || c == 'g' {
        7
    } else if c == 'A' || c == 'a' {
        9
    } else if c == 'B' || c == 'b' {
        11
    } else {
        -1
    }
}

/// Whether `c` is an accidental: `#` raises by a semitone, `b` lowers.
pub open spec fn is_modifier(c: char) -> bool {
    c == '#' || c == 'b'
}

/// The total semitone offset of a run of accidentals, applied left to
/// right: +1 per `#` and -1 per any other (i.e. `b`) character.
pub open spec fn modifier_sum(s: Seq<char>) -> int
    decreases s.len(),
{
    if s.len() == 0 {
        0
    } else {
        modifier_sum(s.drop_last()) + (if s.last() == '#' {
            1int
        } else {
            -1int
        })
    }
}

/// Whether `s` is a well-formed note text: a note letter followed by
/// nothing but accidentals.
pub open spec fn valid_note_text(s: Seq<char>) -> bool {
    &&& s.len() > 0
    &&& letter_semitone(s[0]) >= 0
    &&& forall|i: int| 1 <= i < s.len() ==> is_modifier(#[trigger] s[i])
}

/// The semitone index denoted by a well-formed note text: the letter's
/// index plus the accidentals, normalized into [0, 12).
pub open spec fn text_index(s: Seq<char>) -> int {
    (letter_semitone(s[0]) + modifier_sum(s.subrange(1, s.len() as int))) % 12
}

impl Note {
    /// The canonical sharp-spelled name of this pitch class.
    pub open spec fn display_spec(self) -> Seq<char> {
        match self {
            Note::C => "C"@,
            Note::Cs => "C#"@,
            Note::D => "D"@,
            Note::Ds => "D#"@,
            Note::E => "E"@,
            Note::F => "F"@,
            Note::Fs => "F#"@,
            Note::G => "G"@,
            Note::Gs => "G#"@,
            Note::A => "A"@,
            Note::As => "A#"@,
            Note::B => "B"@,
        }
    }

    /// The canonical sharp-spelled name: flats never appear in output,
    /// however the value was constructed.
    pub fn to_display_text(&self) -> (r: &'static str)
        ensures
            r@ == self.display_spec(),
    {
        match self {
            Note::C => "C",
            Note::Cs => "C#",
            Note::D => "D",
            Note::Ds => "D#",
            Note::E => "E",
            Note::F => "F",
            Note::Fs => "F#",
            Note::G => "G",
            Note::Gs => "G#",
            Note::A => "A",
            Note::As => "A#",
            Note::B => "B",
        }
    }

    /// Parses a note from text: a letter name (case-insensitive) followed
    /// by any number of `#` (raise) or `b` (lower) modifiers, applied left
    /// to right and normalized into [0, 12); anything else is rejected
    /// with `InvalidNoteText`.
    pub fn from_text(s: &str) -> (r: Result<Note, NoteError>)
        ensures
            valid_note_text(s@) ==> r == Ok::<Note, NoteError>(Note::of_index(text_index(s@))),
            !valid_note_text(s@) ==> r == Err::<Note, NoteError>(NoteError::InvalidNoteText),
    {
        let n = s.unicode_len();
        if n == 0 {
            return Err(NoteError::InvalidNoteText);
        }
        let c0 = s.get_char(0);
        let mut acc: i32 = if c0 == 'C' || c0 == 'c' {
            0
        } else if c0 == 'D' || c0 == 'd' {
            2
        } else if c0 == 'E' || c0 == 'e' {
            4
        } else if c0 == 'F' || c0 == 'f' {
            5
        } else if c0 == 'G' || c0 == 'g' {
            7
        } else if c0 == 'A' || c0 == 'a' {
            9
        } else if c0 == 'B' || c0 == 'b' {
            11
        } else {
            return Err(NoteError::InvalidNoteText);
        };
        let mut i: usize = 1;
        while i < n
            invariant
                1 <= i <= n,
                n == s@.len(),
                letter_semitone(s@[0]) >= 0,
                forall|j: int| 1 <= j < i ==> is_modifier(#[trigger] s@[j]),
                0 <= acc < 12,
                acc == (letter_semitone(s@[0]) + modifier_sum(s@.subrange(1, i as int))) % 12,
            decreases n - i,
        {
            let c = s.get_char(i);
            let delta: i32 = if c == '#' {
                1
            } else if c == 'b' {
                -1
            } else {
                return Err(NoteError::InvalidNoteText);
            };
            let next: i32 = if acc + delta < 0 {
                11
            } else if acc + delta >= 12 {
                0
            } else {
                acc + delta
            };
            proof {
                let pre = s@.subrange(1, i as int);
                let post = s@.subrange(1, i + 1);
                assert(post.drop_last() =~= pre);
                assert(post.last() == s@[i as int]);
                let base = letter_semitone(s@[0]);
                lemma_fundamental_div_mod(base + modifier_sum(pre), 12);
                let q = (base + modifier_sum(pre)) / 12;
                if acc + delta < 0 {
                    lemma_fundamental_div_mod_converse_mod(
                        base + modifier_sum(post),
                        12,
                        q - 1,
                        11,
                    );
                } else if acc + delta >= 12 {
                    lemma_fundamental_div_mod_converse_mod(base + modifier_sum(post), 12, q + 1, 0);
                } else {
                    lemma_fundamental_div_mod_converse_mod(
                        base + modifier_sum(post),
                        12,
                        q,
                        acc + delta,
                    );
                }
            }
            acc = next;
            i = i + 1;
        }
        proof {
            assert(s@.subrange(1, n as int) =~= s@.subrange(1, s@.len() as int));
        }
        Ok(Note::of_index_exec(acc))
    }
}

/// Every pitch class is the pitch class of its own index: converting an
/// index in [0, 11] to a `Note` and back returns the same index, and two
/// notes with equal indices are the same note.
pub proof fn lemma_index_of_index(i: int)
    requires
        0 <= i <= 11,
    ensures
        Note::of_index(i).index() == i,
        forall|p: Note| p.index() == i ==> p == Note::of_index(i),
{
}

/// Transposition stays on the twelve-tone circle and is undone by the
/// opposite transposition: for any pitch class and any integer delta,
/// the transposed index is in [0, 12), and adding the delta and then its
/// negation returns the original pitch class.
pub proof fn lemma_add_round_trip(p: Note, d: int)
    ensures
        0 <= (p.index() + d) % 12 < 12,
        Note::of_index((Note::of_index((p.index() + d) % 12).index() + (-d)) % 12) == p,
{
    lemma_mod_division_less_than_divisor(p.index() + d, 12);
    let j = (p.index() + d) % 12;
    lemma_index_of_index(j);
    lemma_fundamental_div_mod(p.index() + d, 12);
    let q = (p.index() + d) / 12;
    lemma_fundamental_div_mod_converse_mod(j - d, 12, -q, p.index());
    lemma_index_of_index(p.index());
}

} // verus!
