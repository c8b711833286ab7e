use vstd::prelude::*;

use crate::note::Note;

verus! {

/// Relies on rand::random: draws a value of type `T` from the thread-local
/// generator. Nothing can be promised of a random value, so no clause
/// restricts the result beyond its type.
pub assume_specification<T>[ rand::random::<T> ]() -> (r: T)
    where
        rand::distributions::Standard: rand::distributions::Distribution<T>,
;

/// A linear fretboard: the open-string pitch classes in physical string
/// order, and the number of fret positions (0 is the open string).
pub struct Fretboard {
    strings: Vec<Note>,
    fret_count: i32,
}

impl Fretboard {
    /// The open-string pitch classes, in string order.
    pub closed spec fn strings(self) -> Seq<Note> {
        self.strings@
    }

    /// The number of fret positions; frets range over [0, fret_count).
    pub closed spec fn fret_count(self) -> int {
        self.fret_count as int
    }

    /// A usable fretboard has at least one string and at least one fret
    /// position. Callers must validate before construction.
    pub open spec fn wf(self) -> bool {
        self.strings().len() > 0 && self.fret_count() >= 1
    }

    /// Builds a fretboard from a validated tuning and fret count.
    pub fn new(strings: Vec<Note>, fret_count: i32) -> (r: Fretboard)
        requires
            strings@.len() > 0,
            fret_count >= 1,
        ensures
            r.strings() == strings@,
            r.fret_count() == fret_count,
            r.wf(),
    {
        Fretboard { strings, fret_count }
    }

    /// Picks a string uniformly at random (by modulus reduction of a wide
    /// unsigned draw) and returns its open-string pitch class. Whatever
    /// the draw, the result is one of this fretboard's strings.
    pub fn get_random_string(&self) -> (r: &Note)
        requires
            self.wf(),
        ensures
            exists|i: int| 0 <= i < self.strings().len() && *r == self.strings()[i],
    {
        let x: usize = rand::random::<usize>();
        let i = x % self.strings.len();
        let r = &self.strings[i];
        proof {
            assert(*r == self.strings()[i as int]);
        }
        r
    }

    /// Picks a fret position uniformly at random (by the same modulus
    /// reduction). Whatever the draw, the result is in [0, fret_count).
    pub fn get_random_fret(&self) -> (r: i32)
        requires
            self.wf(),
        ensures
            0 <= r < self.fret_count(),
    {
        let x: u32 = rand::random::<u32>();
        (x % (self.fret_count as u32)) as i32
    }
}

} // verus!
