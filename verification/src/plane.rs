//! A plane: a head coordinate plus nine offset cells in a fixed,
//! orientation-dependent, asymmetric pattern. Offsets that land outside the
//! grid yield an absent cell; such a plane counts as off-map and may not be
//! placed.

use vstd::prelude::*;

use crate::coordinate::Coordinate;
use crate::orientation::Orientation;

verus! {

/// The `k`-th body cell of a plane headed at `head` and pointing `o`, or
/// nothing when its offset falls off the grid.
pub open spec fn footprint_cell(head: Coordinate, o: Orientation, k: int) -> Option<Coordinate> {
    let off = Plane::offsets(o)[k];
    head.spec_moved(off.0, off.1)
}

#[derive(Clone, Copy)]
pub struct Plane {
    pub head: Coordinate,
    pub orientation: Orientation,
    pub id: usize,
}

impl Plane {
    /// The nine relative offsets of a plane's body, by orientation. The four
    /// tables are independent; the shape is not a rotationally symmetric
    /// cross.
    pub open spec fn offsets(o: Orientation) -> Seq<(int, int)> {
        match o {
            Orientation::North => seq![
                (-2, 1), (-1, 1), (0, 1), (1, 1), (2, 1), (0, 2), (-1, 3), (0, 3), (1, 3),
            ],
            Orientation::South => seq![
                (2, -1), (1, -1), (0, -1), (-1, -1), (-2, -1), (0, -2), (1, -3), (0, -3), (-1, -3),
            ],
            Orientation::East => seq![
                (-1, -2), (-1, -1), (-1, 0), (-1, 1), (-1, 2), (-2, 0), (-3, -1), (-3, 0), (-3, 1),
            ],
            Orientation::West => seq![
                (1, 2), (1, 1), (1, 0), (1, -1), (1, -2), (2, 0), (3, 1), (3, 0), (3, -1),
            ],
        }
    }

    /// The `k`-th body cell, or nothing when its offset falls off the grid.
    pub open spec fn cell(self, k: int) -> Option<Coordinate> {
        footprint_cell(self.head, self.orientation, k)
    }

    /// All nine body cells, in table order.
    pub open spec fn cells(self) -> Seq<Option<Coordinate>> {
        Seq::new(9, |k: int| self.cell(k))
    }

    /// Whether any of the nine body cells falls off the grid.
    pub open spec fn spec_outside(self) -> bool {
        exists|k: int| 0 <= k < 9 && self.cell(k) is None
    }

    /// Whether `c` is one of the nine body cells (the head is not counted).
    pub open spec fn spec_has_tile(self, c: Coordinate) -> bool {
        exists|k: int| 0 <= k < 9 && self.cell(k) == Some(c)
    }

    /// Whether two planes touch: equal heads, a body cell of one on the head
    /// of the other, or a shared body cell.
    pub open spec fn spec_overlaps(self, other: Plane) -> bool {
        ||| self.head == other.head
        ||| self.spec_has_tile(other.head)
        ||| other.spec_has_tile(self.head)
        ||| exists|k: int, j: int|
            0 <= k < 9 && 0 <= j < 9 && self.cell(k) is Some && self.cell(k) == other.cell(j)
    }

    /// The linear indices of the first `k` body cells that are on the grid,
    /// in table order.
    pub open spec fn tiles_prefix(self, k: int) -> Seq<int>
        decreases k,
    {
        if k <= 0 {
            Seq::empty()
        } else {
            self.tiles_prefix(k - 1) + match self.cell(k - 1) {
                Some(c) => seq![c.idx()],
                None => Seq::empty(),
            }
        }
    }

    /// The linear indices of all body cells that are on the grid, in table
    /// order.
    pub open spec fn tiles(self) -> Seq<int> {
        self.tiles_prefix(9)
    }

    /// What constructing from text yields: both parts must parse.
    pub open spec fn spec_new_with_id(
        from: Seq<char>,
        orientation: Seq<char>,
        id: usize,
    ) -> Option<Plane> {
        match (Coordinate::spec_new(from), Orientation::spec_new(orientation)) {
            (Some(c), Some(o)) => Some(Plane { head: c, orientation: o, id }),
            _ => None,
        }
    }

    /// Builds a plane with id 0 from coordinate and orientation text.
    pub fn new(from: &str, orientation: &str) -> (r: Option<Plane>)
        ensures
            r == Plane::spec_new_with_id(from@, orientation@, 0),
    {
        Plane::new_with_id(from, orientation, 0)
    }

    /// Builds a plane from coordinate and orientation text: `Some` exactly
    /// when both parse.
    pub fn new_with_id(from: &str, orientation: &str, id: usize) -> (r: Option<Plane>)
        ensures
            r == Plane::spec_new_with_id(from@, orientation@, id),
    {
        match (Coordinate::new(from), Orientation::new(orientation)) {
            (Some(c), Some(o)) => Some(Plane { head: c, orientation: o, id }),
            _ => None,
        }
    }

    /// A cursor over the nine body cells, in table order.
    pub fn coordinate_iterator(&self) -> (r: PlanePositionIterator)
        ensures
            r@ == self.cells(),
    {
        let it = PlanePositionIterator {
            head: self.head,
            orientation: self.orientation,
            current_tile: 0,
        };
        proof {
            assert(it@ =~= self.cells());
        }
        it
    }

    /// A cursor over the linear indices of the on-grid body cells.
    pub fn tile_iterator(&self) -> (r: TileIterator)
        ensures
            r@ == self.tiles(),
    {
        let mut tiles: Vec<usize> = Vec::new();
        let mut k: usize = 0;
        while k < 9
            invariant
                k <= 9,
                tiles@.map_values(|t: usize| t as int) == self.tiles_prefix(k as int),
            decreases 9 - k,
        {
            let (dx, dy) = offset_at(self.orientation, k);
            match self.head.new_moved_by(dx, dy) {
                Some(c) => {
                    tiles.push(c.as_usize());
                    proof {
                        assert(tiles@.map_values(|t: usize| t as int) =~= self.tiles_prefix(
                            k + 1,
                        ));
                    }
                },
                None => {
                    proof {
                        assert(tiles@.map_values(|t: usize| t as int) =~= self.tiles_prefix(
                            k + 1,
                        ));
                    }
                },
            }
            k += 1;
        }
        let it = TileIterator { tiles, pos: 0 };
        proof {
            assert(it@ =~= self.tiles());
        }
        it
    }

    /// All nine body cells as a vector, in table order; absent entries are
    /// cells whose offset falls off the grid.
    pub fn occupied_cells(&self) -> (r: Vec<Option<Coordinate>>)
        ensures
            r@ == self.cells(),
    {
        let mut cells: Vec<Option<Coordinate>> = Vec::new();
        let mut k: usize = 0;
        while k < 9
            invariant
                k <= 9,
                cells@ == self.cells().subrange(0, k as int),
            decreases 9 - k,
        {
            let (dx, dy) = offset_at(self.orientation, k);
            cells.push(self.head.new_moved_by(dx, dy));
            proof {
                assert(cells@ =~= self.cells().subrange(0, k + 1));
            }
            k += 1;
        }
        proof {
            assert(cells@ =~= self.cells());
        }
        cells
    }

    /// The `k`-th body cell as an executable value.
    pub fn cell_at(&self, k: usize) -> (r: Option<Coordinate>)
        requires
            k < 9,
        ensures
            r == self.cell(k as int),
    {
        let (dx, dy) = offset_at(self.orientation, k);
        self.head.new_moved_by(dx, dy)
    }

    /// The direction the plane points.
    pub fn orientation(&self) -> (r: &Orientation)
        ensures
            *r == self.orientation,
    {
        &self.orientation
    }

    /// The head coordinate; a shot here kills the plane.
    pub fn head(&self) -> (r: &Coordinate)
        ensures
            *r == self.head,
    {
        &self.head
    }

    /// The id the owning board assigned at insertion.
    pub fn id(&self) -> (r: usize)
        ensures
            r == self.id,
    {
        self.id
    }

    /// Whether any body cell falls off the grid; such a plane may not be
    /// placed.
    pub fn is_outside_of_map(&self) -> (r: bool)
        ensures
            r == self.spec_outside(),
    {
        let mut k: usize = 0;
        while k < 9
            invariant
                k <= 9,
                forall|j: int| 0 <= j < k ==> self.cell(j) is Some,
            decreases 9 - k,
        {
            let (dx, dy) = offset_at(self.orientation, k);
            if self.head.new_moved_by(dx, dy).is_none() {
                proof {
                    assert(self.cell(k as int) is None);
                }
                return true;
            }
            k += 1;
        }
        false
    }

    /// Whether two planes touch, as `spec_overlaps` says.
    pub fn is_overlapping_with(&self, other: &Plane) -> (r: bool)
        ensures
            r == self.spec_overlaps(*other),
    {
        if self.head == other.head {
            return true;
        }
        if self.has_tile(&other.head) {
            return true;
        }
        if other.has_tile(&self.head) {
            return true;
        }
        let mut k: usize = 0;
        while k < 9
            invariant
                k <= 9,
                forall|j: int| 0 <= j < k ==> match #[trigger] self.cell(j) {
                    Some(c) => !other.spec_has_tile(c),
                    None => true,
                },
            decreases 9 - k,
        {
            let (dx, dy) = offset_at(self.orientation, k);
            match self.head.new_moved_by(dx, dy) {
                Some(c) => {
                    if other.has_tile(&c) {
                        proof {
                            assert(self.cell(k as int) == Some(c));
                            assert(self.spec_has_tile(c));
                        }
                        return true;
                    }
                },
                None => {},
            }
            k += 1;
        }
        proof {
            if exists|k: int, j: int|
                0 <= k < 9 && 0 <= j < 9 && self.cell(k) is Some && self.cell(k) == other.cell(j) {
                let (kw, jw) = choose|k: int, j: int|
                    0 <= k < 9 && 0 <= j < 9 && self.cell(k) is Some && self.cell(k) == other.cell(
                        j,
                    );
                let c = self.cell(kw)->Some_0;
                assert(other.cell(jw) == Some(c));
                assert(other.spec_has_tile(c));
                assert(match self.cell(kw) {
                    Some(cc) => !other.spec_has_tile(cc),
                    None => true,
                });
            }
        }
        false
    }

    /// Whether `needle` is one of the on-grid body cells (the head is tested
    /// separately, as a kill cell).
    pub fn has_tile(&self, needle: &Coordinate) -> (r: bool)
        ensures
            r == self.spec_has_tile(*needle),
    {
        let mut k: usize = 0;
        while k < 9
            invariant
                k <= 9,
                forall|j: int| 0 <= j < k ==> self.cell(j) != Some(*needle),
            decreases 9 - k,
        {
            let (dx, dy) = offset_at(self.orientation, k);
            match self.head.new_moved_by(dx, dy) {
                Some(c) => {
                    if c == *needle {
                        proof {
                            assert(self.cell(k as int) == Some(*needle));
                        }
                        return true;
                    }
                },
                None => {},
            }
            k += 1;
        }
        false
    }

    /// What one more table slot adds to the on-grid indices: the cell's
    /// index when it is on the grid, nothing otherwise.
    pub proof fn lemma_tiles_prefix_succ(self, k: int)
        requires
            0 <= k < 9,
        ensures
            forall|z: int|
                #[trigger] self.tiles_prefix(k + 1).contains(z) <==> (self.tiles_prefix(k).contains(
                    z,
                ) || (self.cell(k) matches Some(c) && z == c.idx())),
    {
        let pre = self.tiles_prefix(k);
        let post = self.tiles_prefix(k + 1);
        match self.cell(k) {
            Some(c) => {
                assert(post == pre + seq![c.idx()]);
                assert forall|z: int| #[trigger] post.contains(z) implies (pre.contains(z) || z
                    == c.idx()) by {
                    let idx = choose|idx: int| 0 <= idx < post.len() && post[idx] == z;
                    if idx < pre.len() {
                        assert(pre[idx] == z);
                    }
                }
                assert forall|z: int| pre.contains(z) || z == c.idx() implies #[trigger
                ] post.contains(z) by {
                    if pre.contains(z) {
                        let idx = choose|idx: int| 0 <= idx < pre.len() && pre[idx] == z;
                        assert(post[idx] == z);
                    } else {
                        assert(post[pre.len() as int] == z);
                    }
                }
            },
            None => {
                assert(post =~= pre);
            },
        }
    }

    /// Overlap is symmetric: each plane touches the other or neither does.
    pub proof fn lemma_overlap_symmetric(p1: Plane, p2: Plane)
        ensures
            p1.spec_overlaps(p2) == p2.spec_overlaps(p1),
    {
    }

    /// A plane headed at a corner of the grid always loses a body cell off
    /// the edge, whichever way it points.
    pub proof fn lemma_corner_head_outside(p: Plane)
        requires
            p.head.x() == 0 || p.head.x() == 9,
            p.head.y() == 0 || p.head.y() == 9,
        ensures
            p.spec_outside(),
    {
        match p.orientation {
            Orientation::North => {
                if p.head.x() == 0 {
                    assert(p.cell(0) is None);
                } else {
                    assert(p.cell(4) is None);
                }
            },
            Orientation::South => {
                if p.head.x() == 0 {
                    assert(p.cell(4) is None);
                } else {
                    assert(p.cell(0) is None);
                }
            },
            Orientation::East => {
                if p.head.y() == 0 {
                    assert(p.cell(0) is None);
                } else {
                    assert(p.cell(4) is None);
                }
            },
            Orientation::West => {
                if p.head.y() == 0 {
                    assert(p.cell(4) is None);
                } else {
                    assert(p.cell(0) is None);
                }
            },
        }
    }
}

/// The `k`-th relative offset for orientation `o`, as executable values.
fn offset_at(o: Orientation, k: usize) -> (r: (i32, i32))
    requires
        k < 9,
    ensures
        (r.0 as int, r.1 as int) == Plane::offsets(o)[k as int],
{
    match o {
        Orientation::North => match k {
            0 => (-2, 1),
            1 => (-1, 1),
            2 => (0, 1),
            3 => (1, 1),
            4 => (2, 1),
            5 => (0, 2),
            6 => (-1, 3),
            7 => (0, 3),
            _ => (1, 3),
        },
        Orientation::South => match k {
            0 => (2, -1),
            1 => (1, -1),
            2 => (0, -1),
            3 => (-1, -1),
            4 => (-2, -1),
            5 => (0, -2),
            6 => (1, -3),
            7 => (0, -3),
            _ => (-1, -3),
        },
        Orientation::East => match k {
            0 => (-1, -2),
            1 => (-1, -1),
            2 => (-1, 0),
            3 => (-1, 1),
            4 => (-1, 2),
            5 => (-2, 0),
            6 => (-3, -1),
            7 => (-3, 0),
            _ => (-3, 1),
        },
        Orientation::West => match k {
            0 => (1, 2),
            1 => (1, 1),
            2 => (1, 0),
            3 => (1, -1),
            4 => (1, -2),
            5 => (2, 0),
            6 => (3, 1),
            7 => (3, 0),
            _ => (3, -1),
        },
    }
}

/// A cursor over a plane's nine body cells, in table order; its view is the
/// sequence of cells not yet yielded.
pub struct PlanePositionIterator {
    pub head: Coordinate,
    pub orientation: Orientation,
    pub current_tile: usize,
}

impl View for PlanePositionIterator {
    type V = Seq<Option<Coordinate>>;

    open spec fn view(&self) -> Seq<Option<Coordinate>> {
        if self.current_tile >= 9 {
            Seq::empty()
        } else {
            Seq::new(
                (9 - self.current_tile as int) as nat,
                |i: int| footprint_cell(self.head, self.orientation, self.current_tile + i),
            )
        }
    }
}

impl PlanePositionIterator {
    /// Yields the next body cell, absent when its offset falls off the grid,
    /// or `None` once all nine are spent.
    pub fn next(&mut self) -> (r: Option<Option<Coordinate>>)
        ensures
            old(self)@.len() == 0 ==> r is None && *final(self) == *old(self),
            old(self)@.len() > 0 ==> r == Some(old(self)@[0]) && final(self)@ == old(
                self,
            )@.drop_first(),
    {
        if self.current_tile > 8 {
            return None;
        }
        let (dx, dy) = offset_at(self.orientation, self.current_tile);
        let t = self.head.new_moved_by(dx, dy);
        self.current_tile = self.current_tile + 1;
        proof {
            assert(self@ =~= old(self)@.drop_first());
        }
        Some(t)
    }
}

/// A cursor over the linear indices of a plane's on-grid body cells; its
/// view is the sequence of indices not yet yielded.
pub struct TileIterator {
    pub tiles: Vec<usize>,
    pub pos: usize,
}

impl View for TileIterator {
    type V = Seq<int>;

    open spec fn view(&self) -> Seq<int> {
        if self.pos <= self.tiles@.len() {
            self.tiles@.map_values(|t: usize| t as int).skip(self.pos as int)
        } else {
            Seq::empty()
        }
    }
}

impl TileIterator {
    /// Yields the next on-grid body cell index, or `None` once all are
    /// spent.
    pub fn next(&mut self) -> (r: Option<usize>)
        ensures
            old(self)@.len() == 0 ==> r is None && *final(self) == *old(self),
            old(self)@.len() > 0 ==> r == Some(old(self)@[0] as usize) && final(self)@ == old(
                self,
            )@.drop_first(),
    {
        if self.pos >= self.tiles.len() {
            return None;
        }
        let t = self.tiles[self.pos];
        self.pos = self.pos + 1;
        proof {
            assert(self@ =~= old(self)@.drop_first());
        }
        Some(t)
    }
}

} // verus!
