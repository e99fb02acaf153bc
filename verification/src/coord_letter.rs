//! The column part of a grid coordinate: one of the ten letters `A` through
//! `J`, standing for columns 0 through 9.

use vstd::prelude::*;

verus! {

#[derive(Clone, Copy, Debug, PartialEq, Eq, Structural)]
pub enum CoordLetter {
    A,
    B,
    C,
    D,
    E,
    F,
    G,
    H,
    I,
    J,
}

impl CoordLetter {
    /// The column index this letter stands for, in `[0, 9]`.
    pub open spec fn value(self) -> int {
        match self {
            CoordLetter::A => 0,
            CoordLetter::B => 1,
            CoordLetter::C => 2,
            CoordLetter::D => 3,
            CoordLetter::E => 4,
            CoordLetter::F => 5,
            CoordLetter::G => 6,
            CoordLetter::H => 7,
            CoordLetter::I => 8,
            CoordLetter::J => 9,
        }
    }

    /// The letter for column index `v mod 10`.
    pub open spec fn from_int(v: int) -> CoordLetter {
        let u = v % 10;
        if u == 0 {
            CoordLetter::A
        } else if u == 1 {
            CoordLetter::B
        } else if u == 2 {
            CoordLetter::C
        } else if u == 3 {
            CoordLetter::D
        } else if u == 4 {
            CoordLetter::E
        } else if u == 5 {
            CoordLetter::F
        } else if u == 6 {
            CoordLetter::G
        } else if u == 7 {
            CoordLetter::H
        } else if u == 8 {
            CoordLetter::I
        } else {
            CoordLetter::J
        }
    }

    /// The single character of this letter's text form.
    pub open spec fn as_char(self) -> char {
        match self {
            CoordLetter::A => 'A',
            CoordLetter::B => 'B',
            CoordLetter::C => 'C',
            CoordLetter::D => 'D',
            CoordLetter::E => 'E',
            CoordLetter::F => 'F',
            CoordLetter::G => 'G',
            CoordLetter::H => 'H',
            CoordLetter::I => 'I',
            CoordLetter::J => 'J',
        }
    }

    /// The text form: exactly one character, `A` through `J`.
    pub open spec fn text(self) -> Seq<char> {
        seq![self.as_char()]
    }

    /// The letter a single character parses to, if any.
    pub open spec fn of_char(c: char) -> Option<CoordLetter> {
        if c == 'A' {
            Some(CoordLetter::A)
        } else if c == 'B' {
            Some(CoordLetter::B)
        } else if c == 'C' {
            Some(CoordLetter::C)
        } else if c == 'D' {
            Some(CoordLetter::D)
        } else if c == 'E' {
            Some(CoordLetter::E)
        } else if c == 'F' {
            Some(CoordLetter::F)
        } else if c == 'G' {
            Some(CoordLetter::G)
        } else if c == 'H' {
            Some(CoordLetter::H)
        } else if c == 'I' {
            Some(CoordLetter::I)
        } else if c == 'J' {
            Some(CoordLetter::J)
        } else {
            None
        }
    }

    /// What parsing a whole string yields: the letter of its one character,
    /// or nothing when the length is not exactly one.
    pub open spec fn spec_new(s: Seq<char>) -> Option<CoordLetter> {
        if s.len() == 1 {
            CoordLetter::of_char(s[0])
        } else {
            None
        }
    }

    /// The letter `offset` columns away, or nothing when that falls off the
    /// grid.
    pub open spec fn spec_moved(self, offset: int) -> Option<CoordLetter> {
        let v = self.value() + offset;
        if 0 <= v <= 9 {
            Some(CoordLetter::from_int(v))
        } else {
            None
        }
    }

    /// Parses a column letter: `Some` exactly on the ten one-letter strings
    /// `"A"` through `"J"`.
    pub fn new(from: &str) -> (r: Option<CoordLetter>)
        ensures
            r == CoordLetter::spec_new(from@),
    {
        if from.unicode_len() != 1 {
            return None;
        }
        let c = from.get_char(0);
        if c == 'A' {
            Some(CoordLetter::A)
        } else if c == 'B' {
            Some(CoordLetter::B)
        } else if c == 'C' {
            Some(CoordLetter::C)
        } else if c == 'D' {
            Some(CoordLetter::D)
        } else if c == 'E' {
            Some(CoordLetter::E)
        } else if c == 'F' {
            Some(CoordLetter::F)
        } else if c == 'G' {
            Some(CoordLetter::G)
        } else if c == 'H' {
            Some(CoordLetter::H)
        } else if c == 'I' {
            Some(CoordLetter::I)
        } else if c == 'J' {
            Some(CoordLetter::J)
        } else {
            None
        }
    }

    /// The column index as an executable value.
    pub fn as_index(&self) -> (r: usize)
        ensures
            r == self.value(),
    {
        match self {
            CoordLetter::A => 0,
            CoordLetter::B => 1,
            CoordLetter::C => 2,
            CoordLetter::D => 3,
            CoordLetter::E => 4,
            CoordLetter::F => 5,
            CoordLetter::G => 6,
            CoordLetter::H => 7,
            CoordLetter::I => 8,
            CoordLetter::J => 9,
        }
    }

    /// The letter for column index `u mod 10`.
    pub fn from_usize(u: usize) -> (r: CoordLetter)
        ensures
            r == CoordLetter::from_int(u as int),
    {
        match u % 10 {
            0 => CoordLetter::A,
            1 => CoordLetter::B,
            2 => CoordLetter::C,
            3 => CoordLetter::D,
            4 => CoordLetter::E,
            5 => CoordLetter::F,
            6 => CoordLetter::G,
            7 => CoordLetter::H,
            8 => CoordLetter::I,
            _ => CoordLetter::J,
        }
    }

    /// The letter `offset` columns away, or `None` when that falls off the
    /// grid.
    pub fn new_moved_by(&self, offset: i32) -> (r: Option<CoordLetter>)
        ensures
            r == self.spec_moved(offset as int),
    {
        let moved: i64 = self.as_index() as i64 + offset as i64;
        if moved < 0 {
            return None;
        }
        if moved > 9 {
            return None;
        }
        Some(CoordLetter::from_usize(moved as usize))
    }

    /// The text form, one letter `A` through `J`.
    pub fn to_text(&self) -> (r: String)
        ensures
            r@ == self.text(),
    {
        let s = match self {
            CoordLetter::A => "A",
            CoordLetter::B => "B",
            CoordLetter::C => "C",
            CoordLetter::D => "D",
            CoordLetter::E => "E",
            CoordLetter::F => "F",
            CoordLetter::G => "G",
            CoordLetter::H => "H",
            CoordLetter::I => "I",
            CoordLetter::J => "J",
        };
        proof {
            reveal_strlit("A");
            reveal_strlit("B");
            reveal_strlit("C");
            reveal_strlit("D");
            reveal_strlit("E");
            reveal_strlit("F");
            reveal_strlit("G");
            reveal_strlit("H");
            reveal_strlit("I");
            reveal_strlit("J");
            assert(s@ =~= self.text());
        }
        String::from_str(s)
    }

    /// Parsing the text form gives the letter back.
    pub proof fn lemma_text_round_trip(self)
        ensures
            CoordLetter::spec_new(self.text()) == Some(self),
    {
    }
}

} // verus!
