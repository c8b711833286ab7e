use vstd::prelude::*;

use crate::note::{Note, text_index, valid_note_text};
use crate::text::str_eq;

verus! {

/// One answer typed at the quiz prompt, already trimmed of whitespace.
#[derive(Clone, Copy, Debug, PartialEq, Eq, Structural)]
pub enum UserInput {
    /// The answer named a pitch class.
    Note(Note),
    /// The answer was the exit signal.
    Exit,
}

/// Errors for answers that are neither a note nor the exit signal.
#[derive(Clone, Copy, Debug, PartialEq, Eq, Structural)]
pub enum UserInputError {
    InvalidInput,
}

/// Classifies one trimmed line of user input: the literal `exit`
/// (case-sensitive) is the exit signal; anything else must parse as a
/// note, and is otherwise an input error.
pub fn parse_user_input(s: &str) -> (r: Result<UserInput, UserInputError>)
    ensures
        s@ == "exit"@ ==> r == Ok::<UserInput, UserInputError>(UserInput::Exit),
        s@ != "exit"@ && valid_note_text(s@) ==> r == Ok::<UserInput, UserInputError>(
            UserInput::Note(Note::of_index(text_index(s@))),
        ),
        s@ != "exit"@ && !valid_note_text(s@) ==> r == Err::<UserInput, UserInputError>(
            UserInputError::InvalidInput,
        ),
{
    if str_eq(s, "exit") {
        Ok(UserInput::Exit)
    } else {
        match Note::from_text(s) {
            Ok(note) => Ok(UserInput::Note(note)),
            Err(_) => Err(UserInputError::InvalidInput),
        }
    }
}

} // verus!
