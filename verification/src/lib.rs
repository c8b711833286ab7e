pub mod args;
pub mod display;
pub mod fretboard;
pub mod input;
pub mod note;
pub mod text;
