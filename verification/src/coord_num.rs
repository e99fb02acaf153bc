//! The row part of a grid coordinate: one of the ten numbers `1` through
//! `10`, standing for rows 0 through 9.

use vstd::prelude::*;

verus! {

#[derive(Clone, Copy, Debug, PartialEq, Eq, Structural)]
pub enum CoordNum {
    One,
    Two,
    Three,
    Four,
    Five,
    Six,
    Seven,
    Eight,
    Nine,
    Ten,
}

impl CoordNum {
    /// The row index this number stands for, in `[0, 9]`.
    pub open spec fn value(self) -> int {
        match self {
            CoordNum::One => 0,
            CoordNum::Two => 1,
            CoordNum::Three => 2,
            CoordNum::Four => 3,
            CoordNum::Five => 4,
            CoordNum::Six => 5,
            CoordNum::Seven => 6,
            CoordNum::Eight => 7,
            CoordNum::Nine => 8,
            CoordNum::Ten => 9,
        }
    }

    /// The number for row index `v mod 10`.
    pub open spec fn from_int(v: int) -> CoordNum {
        let u = v % 10;
        if u == 0 {
            CoordNum::One
        } else if u == 1 {
            CoordNum::Two
        } else if u == 2 {
            CoordNum::Three
        } else if u == 3 {
            CoordNum::Four
        } else if u == 4 {
            CoordNum::Five
        } else if u == 5 {
            CoordNum::Six
        } else if u == 6 {
            CoordNum::Seven
        } else if u == 7 {
            CoordNum::Eight
        } else if u == 8 {
            CoordNum::Nine
        } else {
            CoordNum::Ten
        }
    }

    /// The text form: the decimal row number, `1` through `10`.
    pub open spec fn text(self) -> Seq<char> {
        match self {
            CoordNum::One => seq!['1'],
            CoordNum::Two => seq!['2'],
            CoordNum::Three => seq!['3'],
            CoordNum::Four => seq!['4'],
            CoordNum::Five => seq!['5'],
            CoordNum::Six => seq!['6'],
            CoordNum::Seven => seq!['7'],
            CoordNum::Eight => seq!['8'],
            CoordNum::Nine => seq!['9'],
            CoordNum::Ten => seq!['1', '0'],
        }
    }

    /// The number a single digit character `1` through `9` parses to, if any.
    pub open spec fn of_digit(c: char) -> Option<CoordNum> {
        if c == '1' {
            Some(CoordNum::One)
        } else if c == '2' {
            Some(CoordNum::Two)
        } else if c == '3' {
            Some(CoordNum::Three)
        } else if c == '4' {
            Some(CoordNum::Four)
        } else if c == '5' {
            Some(CoordNum::Five)
        } else if c == '6' {
            Some(CoordNum::Six)
        } else if c == '7' {
            Some(CoordNum::Seven)
        } else if c == '8' {
            Some(CoordNum::Eight)
        } else if c == '9' {
            Some(CoordNum::Nine)
        } else {
            None
        }
    }

    /// What parsing a whole string yields: a one-digit row `1` through `9`,
    /// or the two characters `10`; anything else is rejected.
    pub open spec fn spec_new(s: Seq<char>) -> Option<CoordNum> {
        if s.len() == 1 {
            CoordNum::of_digit(s[0])
        } else if s.len() == 2 && s[0] == '1' && s[1] == '0' {
            Some(CoordNum::Ten)
        } else {
            None
        }
    }

    /// The number `offset` rows away, or nothing when that falls off the
    /// grid.
    pub open spec fn spec_moved(self, offset: int) -> Option<CoordNum> {
        let v = self.value() + offset;
        if 0 <= v <= 9 {
            Some(CoordNum::from_int(v))
        } else {
            None
        }
    }

    /// Parses a row number: `Some` exactly on the ten strings `"1"` through
    /// `"10"`.
    pub fn new(from: &str) -> (r: Option<CoordNum>)
        ensures
            r == CoordNum::spec_new(from@),
    {
        let n = from.unicode_len();
        if n == 1 {
            let c = from.get_char(0);
            if c == '1' {
                Some(CoordNum::One)
            } else if c == '2' {
                Some(CoordNum::Two)
            } else if c == '3' {
                Some(CoordNum::Three)
            } else if c == '4' {
                Some(CoordNum::Four)
            } else if c == '5' {
                Some(CoordNum::Five)
            } else if c == '6' {
                Some(CoordNum::Six)
            } else if c == '7' {
                Some(CoordNum::Seven)
            } else if c == '8' {
                Some(CoordNum::Eight)
            } else if c == '9' {
                Some(CoordNum::Nine)
            } else {
                None
            }
        } else if n == 2 {
            let c0 = from.get_char(0);
            let c1 = from.get_char(1);
            if c0 == '1' && c1 == '0' {
                Some(CoordNum::Ten)
            } else {
                None
            }
        } else {
            None
        }
    }

    /// The row index as an executable value.
    pub fn as_index(&self) -> (r: usize)
        ensures
            r == self.value(),
    {
        match self {
            CoordNum::One => 0,
            CoordNum::Two => 1,
            CoordNum::Three => 2,
            CoordNum::Four => 3,
            CoordNum::Five => 4,
            CoordNum::Six => 5,
            CoordNum::Seven => 6,
            CoordNum::Eight => 7,
            CoordNum::Nine => 8,
            CoordNum::Ten => 9,
        }
    }

    /// The number for row index `u mod 10`.
    pub fn from_usize(u: usize) -> (r: CoordNum)
        ensures
            r == CoordNum::from_int(u as int),
    {
        match u % 10 {
            0 => CoordNum::One,
            1 => CoordNum::Two,
            2 => CoordNum::Three,
            3 => CoordNum::Four,
            4 => CoordNum::Five,
            5 => CoordNum::Six,
            6 => CoordNum::Seven,
            7 => CoordNum::Eight,
            8 => CoordNum::Nine,
            _ => CoordNum::Ten,
        }
    }

    /// The number `offset` rows away, or `None` when that falls off the
    /// grid.
    pub fn new_moved_by(&self, offset: i32) -> (r: Option<CoordNum>)
        ensures
            r == self.spec_moved(offset as int),
    {
        let moved: i64 = self.as_index() as i64 + offset as i64;
        if moved < 0 {
            return None;
        }
        if moved > 9 {
            return None;
        }
        Some(CoordNum::from_usize(moved as usize))
    }

    /// The text form, `1` through `10`.
    pub fn to_text(&self) -> (r: String)
        ensures
            r@ == self.text(),
    {
        let s = match self {
            CoordNum::One => "1",
            CoordNum::Two => "2",
            CoordNum::Three => "3",
            CoordNum::Four => "4",
            CoordNum::Five => "5",
            CoordNum::Six => "6",
            CoordNum::Seven => "7",
            CoordNum::Eight => "8",
            CoordNum::Nine => "9",
            CoordNum::Ten => "10",
        };
        proof {
            reveal_strlit("1");
            reveal_strlit("2");
            reveal_strlit("3");
            reveal_strlit("4");
            reveal_strlit("5");
            reveal_strlit("6");
            reveal_strlit("7");
            reveal_strlit("8");
            reveal_strlit("9");
            reveal_strlit("10");
            assert(s@ =~= self.text());
        }
        String::from_str(s)
    }

    /// Parsing the text form gives the number back.
    pub proof fn lemma_text_round_trip(self)
        ensures
            CoordNum::spec_new(self.text()) == Some(self),
    {
    }
}

} // verus!
