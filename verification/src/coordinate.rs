//! A single cell address on the 10x10 grid: a column letter `A`-`J` paired
//! with a row number `1`-`10`, e.g. `"E5"`. Converts to and from text and to
//! a linear index in `[0, 99]`.

use vstd::prelude::*;

use crate::coord_letter::CoordLetter;
use crate::coord_num::CoordNum;
use crate::rng::random_below;

verus! {

#[derive(Clone, Copy, Debug, PartialEq, Eq, Structural)]
pub struct Coordinate(pub CoordLetter, pub CoordNum);

impl Coordinate {
    /// The column, in `[0, 9]`.
    pub open spec fn x(self) -> int {
        self.0.value()
    }

    /// The row, in `[0, 9]`.
    pub open spec fn y(self) -> int {
        self.1.value()
    }

    /// The linear index: row times ten plus column, in `[0, 99]`.
    pub open spec fn idx(self) -> int {
        self.y() * 10 + self.x()
    }

    /// The text form: the column letter followed by the row number.
    pub open spec fn text(self) -> Seq<char> {
        self.0.text() + self.1.text()
    }

    /// What parsing yields: the first character must be a column letter and
    /// the whole remainder a row number.
    pub open spec fn spec_new(s: Seq<char>) -> Option<Coordinate> {
        if s.len() < 2 {
            None
        } else {
            match (
                CoordLetter::spec_new(s.subrange(0, 1)),
                CoordNum::spec_new(s.subrange(1, s.len() as int)),
            ) {
                (Some(letter), Some(number)) => Some(Coordinate(letter, number)),
                _ => None,
            }
        }
    }

    /// The cell `x` columns and `y` rows away, or nothing when either axis
    /// falls off the grid.
    pub open spec fn spec_moved(self, x: int, y: int) -> Option<Coordinate> {
        match (self.0.spec_moved(x), self.1.spec_moved(y)) {
            (Some(letter), Some(number)) => Some(Coordinate(letter, number)),
            _ => None,
        }
    }

    /// The cell a linear index stands for: column `n mod 10`, row
    /// `n div 10 mod 10`.
    pub open spec fn spec_from_usize(n: int) -> Coordinate {
        Coordinate(CoordLetter::from_int(n % 10), CoordNum::from_int(n / 10))
    }

    /// Parses a coordinate such as `"E5"` or `"J10"`: `Some` exactly when the
    /// first character is a column letter and the remainder a row number.
    pub fn new(from: &str) -> (r: Option<Coordinate>)
        ensures
            r == Coordinate::spec_new(from@),
    {
        let n = from.unicode_len();
        if n < 2 {
            return None;
        }
        let letter = CoordLetter::new(from.substring_char(0, 1));
        let number = CoordNum::new(from.substring_char(1, n));
        match (letter, number) {
            (Some(letter), Some(number)) => Some(Coordinate(letter, number)),
            _ => None,
        }
    }

    /// The cell `x` columns and `y` rows away, or `None` when either axis
    /// falls off the grid.
    pub fn new_moved_by(&self, x: i32, y: i32) -> (r: Option<Coordinate>)
        ensures
            r == self.spec_moved(x as int, y as int),
    {
        match (self.0.new_moved_by(x), self.1.new_moved_by(y)) {
            (Some(moved_letter), Some(moved_num)) => Some(Coordinate(moved_letter, moved_num)),
            _ => None,
        }
    }

    /// A cell drawn uniformly from the 100 grid cells.
    pub fn new_random_coordinate() -> Coordinate {
        let rand_x: usize = random_below(10);
        let rand_y: usize = random_below(10);
        Coordinate(CoordLetter::from_usize(rand_x), CoordNum::from_usize(rand_y))
    }

    /// The cell of a linear index; indices `0` through `99` cover the grid
    /// exactly once.
    pub fn new_from_usize(num: usize) -> (r: Coordinate)
        ensures
            r == Coordinate::spec_from_usize(num as int),
            num < 100 ==> r.idx() == num,
    {
        let x: usize = num % 10;
        let y: usize = num / 10;
        Coordinate(CoordLetter::from_usize(x), CoordNum::from_usize(y))
    }

    /// The (column, row) pair.
    pub fn as_tuple(&self) -> (r: (usize, usize))
        ensures
            r.0 == self.x(),
            r.1 == self.y(),
    {
        (self.0.as_index(), self.1.as_index())
    }

    /// The linear index, in `[0, 99]`.
    pub fn as_usize(&self) -> (r: usize)
        ensures
            r == self.idx(),
            r < 100,
    {
        self.1.as_index() * 10 + self.0.as_index()
    }

    /// The text form, e.g. `"E5"`.
    pub fn to_text(&self) -> (r: String)
        ensures
            r@ == self.text(),
    {
        let mut s = self.0.to_text();
        let num = self.1.to_text();
        s.append(num.as_str());
        s
    }

    /// Round trip through text: every cell parses back from its own text
    /// form.
    pub proof fn lemma_text_round_trip(self)
        ensures
            Coordinate::spec_new(self.text()) == Some(self),
    {
        let s = self.text();
        assert(s.subrange(0, 1) =~= self.0.text());
        assert(s.subrange(1, s.len() as int) =~= self.1.text());
        self.0.lemma_text_round_trip();
        self.1.lemma_text_round_trip();
    }

    /// Round trip through the linear index: every cell is recovered from its
    /// own index.
    pub proof fn lemma_index_round_trip(self)
        ensures
            Coordinate::spec_from_usize(self.idx()) == self,
    {
        assert(self.idx() % 10 == self.x() && self.idx() / 10 == self.y());
    }
}

} // verus!
