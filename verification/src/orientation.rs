//! The direction a plane's nose points. Each orientation selects its own
//! offset table for the plane's footprint.

use vstd::prelude::*;

verus! {

#[derive(Clone, Copy, Debug, PartialEq, Eq, Structural)]
pub enum Orientation {
    North,
    East,
    South,
    West,
}

impl Orientation {
    /// The text form: one of `N`, `E`, `S`, `W`.
    pub open spec fn text(self) -> Seq<char> {
        match self {
            Orientation::North => seq!['N'],
            Orientation::East => seq!['E'],
            Orientation::South => seq!['S'],
            Orientation::West => seq!['W'],
        }
    }

    /// What parsing a whole string yields: exactly one of the four letters.
    pub open spec fn spec_new(s: Seq<char>) -> Option<Orientation> {
        if s.len() != 1 {
            None
        } else if s[0] == 'N' {
            Some(Orientation::North)
        } else if s[0] == 'E' {
            Some(Orientation::East)
        } else if s[0] == 'S' {
            Some(Orientation::South)
        } else if s[0] == 'W' {
            Some(Orientation::West)
        } else {
            None
        }
    }

    /// The orientation numbered `v mod 4`, in the order north, east, south,
    /// west.
    pub open spec fn from_int(v: int) -> Orientation {
        let u = v % 4;
        if u == 0 {
            Orientation::North
        } else if u == 1 {
            Orientation::East
        } else if u == 2 {
            Orientation::South
        } else {
            Orientation::West
        }
    }

    /// Parses an orientation: `Some` exactly on `"N"`, `"E"`, `"S"` and
    /// `"W"`.
    pub fn new(from: &str) -> (r: Option<Orientation>)
        ensures
            r == Orientation::spec_new(from@),
    {
        if from.unicode_len() != 1 {
            return None;
        }
        let c = from.get_char(0);
        if c == 'N' {
            Some(Orientation::North)
        } else if c == 'E' {
            Some(Orientation::East)
        } else if c == 'S' {
            Some(Orientation::South)
        } else if c == 'W' {
            Some(Orientation::West)
        } else {
            None
        }
    }

    /// The orientation numbered `u mod 4`.
    pub fn from_usize(u: usize) -> (r: Orientation)
        ensures
            r == Orientation::from_int(u as int),
    {
        match u % 4 {
            0 => Orientation::North,
            1 => Orientation::East,
            2 => Orientation::South,
            _ => Orientation::West,
        }
    }

    /// The text form, one of `N`, `E`, `S`, `W`.
    pub fn to_text(&self) -> (r: String)
        ensures
            r@ == self.text(),
    {
        let s = match self {
            Orientation::North => "N",
            Orientation::East => "E",
            Orientation::South => "S",
            Orientation::West => "W",
        };
        proof {
            reveal_strlit("N");
            reveal_strlit("E");
            reveal_strlit("S");
            reveal_strlit("W");
            assert(s@ =~= self.text());
        }
        String::from_str(s)
    }
}

} // verus!
