//! One player's grid state: placed planes, killed planes, the hit, miss and
//! kill logs, and the set of linear indices never yet targeted. Owns
//! placement validation and bombardment resolution.

use vstd::prelude::*;

use crate::bombardment_result::BombardmentResult;
use crate::coord_letter::CoordLetter;
use crate::coord_num::CoordNum;
use crate::coordinate::Coordinate;
use crate::orientation::Orientation;
use crate::plane::Plane;
use crate::rng::shuffle;

verus! {

/// The digit character of `d`, for `d` in `[0, 9]`.
pub open spec fn digit_char(d: int) -> char {
    if d == 0 {
        '0'
    } else if d == 1 {
        '1'
    } else if d == 2 {
        '2'
    } else if d == 3 {
        '3'
    } else if d == 4 {
        '4'
    } else if d == 5 {
        '5'
    } else if d == 6 {
        '6'
    } else if d == 7 {
        '7'
    } else if d == 8 {
        '8'
    } else {
        '9'
    }
}

/// The decimal rendering of a non-negative integer.
pub open spec fn spec_decimal(u: int) -> Seq<char>
    recommends
        u >= 0,
    decreases u,
{
    if u <= 9 {
        seq![digit_char(u)]
    } else {
        spec_decimal(u / 10) + seq![digit_char(u % 10)]
    }
}

/// Renders a number in decimal, for error messages that name a plane id.
fn decimal_string(u: usize) -> (r: String)
    ensures
        r@ == spec_decimal(u as int),
    decreases u,
{
    let d = u % 10;
    let ds = match d {
        0 => "0",
        1 => "1",
        2 => "2",
        3 => "3",
        4 => "4",
        5 => "5",
        6 => "6",
        7 => "7",
        8 => "8",
        _ => "9",
    };
    proof {
        reveal_strlit("0");
        reveal_strlit("1");
        reveal_strlit("2");
        reveal_strlit("3");
        reveal_strlit("4");
        reveal_strlit("5");
        reveal_strlit("6");
        reveal_strlit("7");
        reveal_strlit("8");
        reveal_strlit("9");
        assert(ds@ =~= seq![digit_char(d as int)]);
    }
    if u <= 9 {
        String::from_str(ds)
    } else {
        let mut s = decimal_string(u / 10);
        s.append(ds);
        s
    }
}

/// The message stored and returned when placement is attempted after a shot
/// has been resolved.
pub open spec fn msg_phase_closed() -> Seq<char> {
    "Cannot add planes mid-game"@
}

/// The message stored and returned when the head or orientation text does
/// not parse.
pub open spec fn msg_cannot_spawn(head: Seq<char>, orientation: Seq<char>) -> Seq<char> {
    "plane cannot spawn at "@ + head + " in direction "@ + orientation
}

/// The message stored and returned when the plane's footprint leaves the
/// grid.
pub open spec fn msg_off_map() -> Seq<char> {
    "Plane would fall off the map, try again."@
}

/// The message stored and returned when the plane touches the already
/// placed plane with the given id.
pub open spec fn msg_overlap(id: int) -> Seq<char> {
    "Plane would overlap with another one: "@ + spec_decimal(id) + ", try again."@
}

/// Removes the first occurrence of `x`, if any. On a duplicate-free vector
/// this removes the value entirely.
pub(crate) fn remove_value(v: &mut Vec<usize>, x: usize)
    requires
        old(v)@.no_duplicates(),
    ensures
        final(v)@.no_duplicates(),
        !final(v)@.contains(x),
        forall|y: usize| y != x ==> (final(v)@.contains(y) <==> old(v)@.contains(y)),
        forall|y: usize| final(v)@.contains(y) ==> old(v)@.contains(y),
        old(v)@.contains(x) ==> final(v)@.len() == old(v)@.len() - 1,
        !old(v)@.contains(x) ==> *final(v) == *old(v),
{
    let mut i: usize = 0;
    while i < v.len()
        invariant
            v == old(v),
            v@.no_duplicates(),
            i <= v@.len(),
            forall|j: int| 0 <= j < i ==> v@[j] != x,
        decreases v@.len() - i,
    {
        if v[i] == x {
            let ghost prev = v@;
            v.remove(i);
            proof {
                prev.remove_ensures(i as int);
                assert forall|idx: int| 0 <= idx < v@.len() implies #[trigger] v@[idx] == (if idx
                    < i {
                    prev[idx]
                } else {
                    prev[idx + 1]
                }) by {
                    if idx < i {
                        assert(prev.remove(i as int)[idx] == prev[idx]);
                    } else {
                        assert(prev.remove(i as int)[idx] == prev[idx + 1]);
                    }
                }
                assert forall|y: usize| #[trigger] v@.contains(y) implies prev.contains(y) by {
                    let idx = choose|idx: int| 0 <= idx < v@.len() && v@[idx] == y;
                    if idx < i {
                        assert(prev[idx] == y);
                    } else {
                        assert(prev[idx + 1] == y);
                    }
                }
                assert forall|y: usize| y != x && prev.contains(y) implies v@.contains(y) by {
                    let idx = choose|idx: int| 0 <= idx < prev.len() && prev[idx] == y;
                    if idx < i {
                        assert(v@[idx] == y);
                    } else {
                        assert(idx != i);
                        assert(v@[idx - 1] == y);
                    }
                }
                assert forall|a: int, b: int| 0 <= a < b < v@.len() implies v@[a] != v@[b] by {
                    let pa: int = if a < i { a } else { a + 1 };
                    let pb: int = if b < i { b } else { b + 1 };
                    assert(v@[a] == prev[pa]);
                    assert(v@[b] == prev[pb]);
                    assert(prev[pa] != prev[pb]);
                }
                assert(!v@.contains(x)) by {
                    if v@.contains(x) {
                        let idx = choose|idx: int| 0 <= idx < v@.len() && v@[idx] == x;
                        if idx < i {
                            assert(prev[idx] == x && prev[i as int] == x);
                        } else {
                            assert(prev[idx + 1] == x && prev[i as int] == x);
                        }
                    }
                }
            }
            return ;
        }
        i += 1;
    }
    proof {
        assert(!v@.contains(x)) by {
            if v@.contains(x) {
                let idx = choose|idx: int| 0 <= idx < v@.len() && v@[idx] == x;
                assert(v@[idx] != x);
            }
        }
    }
}

#[derive(Clone)]
pub struct Board {
    pub planes: Vec<Plane>,
    pub killed_planes: Vec<Plane>,
    pub hits: Vec<Coordinate>,
    pub misses: Vec<Coordinate>,
    pub kills: Vec<Coordinate>,
    pub empty_indices: Vec<usize>,
    pub previous_error_message: Option<String>,
}

impl Board {
    /// The board's invariant: the never-targeted indices are distinct grid
    /// indices, and every plane on the board sits wholly on the grid, with
    /// the active planes pairwise non-overlapping.
    pub open spec fn wf(self) -> bool {
        &&& self.empty_indices@.no_duplicates()
        &&& forall|i: int|
            0 <= i < self.empty_indices@.len() ==> #[trigger] self.empty_indices@[i] < 100
        &&& forall|i: int|
            0 <= i < self.planes@.len() ==> !(#[trigger] self.planes@[i]).spec_outside()
        &&& forall|i: int|
            0 <= i < self.killed_planes@.len() ==> !(
            #[trigger] self.killed_planes@[i]).spec_outside()
        &&& forall|i: int, j: int|
            0 <= i < j < self.planes@.len() ==> !self.planes@[i].spec_overlaps(self.planes@[j])
    }

    /// Whether bombardment has begun: placement is closed once any hit or
    /// miss has been logged.
    pub open spec fn spec_in_gameplay(self) -> bool {
        self.hits@.len() > 0 || self.misses@.len() > 0
    }

    /// Whether `c` is a body cell of some active plane.
    pub open spec fn active_tile_at(self, c: Coordinate) -> bool {
        exists|i: int| 0 <= i < self.planes@.len() && (#[trigger] self.planes@[i]).spec_has_tile(c)
    }

    /// Whether `c` is the head of some active plane.
    pub open spec fn active_head_at(self, c: Coordinate) -> bool {
        exists|i: int| 0 <= i < self.planes@.len() && (#[trigger] self.planes@[i]).head == c
    }

    /// Whether `p` touches some active plane.
    pub open spec fn overlaps_active(self, p: Plane) -> bool {
        exists|i: int| 0 <= i < self.planes@.len() && p.spec_overlaps(#[trigger] self.planes@[i])
    }

    /// The position of the first active plane that `p` touches, scanning
    /// from `i`; the length when there is none.
    pub open spec fn first_overlap_from(self, p: Plane, i: int) -> int
        decreases self.planes@.len() - i,
    {
        if i < 0 || i >= self.planes@.len() {
            self.planes@.len() as int
        } else if p.spec_overlaps(self.planes@[i]) {
            i
        } else {
            self.first_overlap_from(p, i + 1)
        }
    }

    /// A failed placement leaves everything but the stored error message as
    /// it was.
    pub open spec fn failed_with(self, pre: Board, msg: Seq<char>) -> bool {
        &&& self.planes == pre.planes
        &&& self.killed_planes == pre.killed_planes
        &&& self.hits == pre.hits
        &&& self.misses == pre.misses
        &&& self.kills == pre.kills
        &&& self.empty_indices == pre.empty_indices
        &&& self.previous_error_message matches Some(m) && m@ == msg
    }

    /// The position of the active plane whose head is `c`; meaningful only
    /// when `active_head_at(c)` holds, and then unique, since active planes
    /// never share a head.
    pub open spec fn head_plane_index(self, c: Coordinate) -> int {
        choose|i: int| 0 <= i < self.planes@.len() && self.planes@[i].head == c
    }

    /// The scan for an overlapping plane stops at the first one it meets.
    proof fn lemma_first_overlap_found(self, p: Plane, k: int, i: int)
        requires
            0 <= k <= i < self.planes@.len(),
            forall|j: int| k <= j < i ==> !p.spec_overlaps(#[trigger] self.planes@[j]),
            p.spec_overlaps(self.planes@[i]),
        ensures
            self.first_overlap_from(p, k) == i,
        decreases i - k,
    {
        if k < i {
            self.lemma_first_overlap_found(p, k + 1, i);
        }
    }

    /// A board as `new` returns it: no planes, empty logs, every grid index
    /// still targetable, and no stored error.
    pub open spec fn is_fresh(self) -> bool {
        &&& self.planes@.len() == 0
        &&& self.killed_planes@.len() == 0
        &&& self.hits@.len() == 0
        &&& self.misses@.len() == 0
        &&& self.kills@.len() == 0
        &&& self.empty_indices@.len() == 100
        &&& forall|i: int| 0 <= i < 100 ==> #[trigger] self.empty_indices@[i] == i
        &&& self.previous_error_message is None
    }

    /// Everything but the outcome logs is as it was: placement, the
    /// never-targeted set and the stored error are untouched.
    pub open spec fn same_placement(pre: Board, post: Board) -> bool {
        &&& post.planes == pre.planes
        &&& post.empty_indices == pre.empty_indices
        &&& post.previous_error_message == pre.previous_error_message
    }

    /// A fresh board: no planes, empty logs, and all 100 indices never yet
    /// targeted.
    pub fn new() -> (r: Board)
        ensures
            r.wf(),
            r.is_fresh(),
    {
        let mut empty_indices: Vec<usize> = Vec::new();
        let mut i: usize = 0;
        while i < 100
            invariant
                i <= 100,
                empty_indices@.len() == i,
                forall|j: int| 0 <= j < i ==> #[trigger] empty_indices@[j] == j,
            decreases 100 - i,
        {
            empty_indices.push(i);
            i += 1;
        }
        Board {
            planes: Vec::new(),
            killed_planes: Vec::new(),
            hits: Vec::new(),
            misses: Vec::new(),
            kills: Vec::new(),
            empty_indices,
            previous_error_message: None,
        }
    }

    /// The last placement error message, or the empty string when the last
    /// placement succeeded.
    pub fn get_previous_hit_message(&self) -> (r: String)
        ensures
            match self.previous_error_message {
                Some(m) => r@ == m@,
                None => r@ == Seq::<char>::empty(),
            },
    {
        match &self.previous_error_message {
            Some(msg) => msg.clone(),
            None => String::new(),
        }
    }

    /// Whether placement is closed: true once any shot has been resolved
    /// here.
    fn is_in_gameplay(&self) -> (r: bool)
        ensures
            r == self.spec_in_gameplay(),
    {
        !self.hits.is_empty() || !self.misses.is_empty()
    }

    /// Whether the fleet is complete: three planes placed, counting killed
    /// ones.
    pub fn is_initialized(&self) -> (r: bool)
        ensures
            r == (self.planes@.len() + self.killed_planes@.len() == 3),
    {
        let a = self.planes.len();
        let b = self.killed_planes.len();
        if a > 3 || b > 3 {
            return false;
        }
        a + b == 3
    }

    /// The active planes, in placement order.
    pub fn planes(&self) -> (r: &Vec<Plane>)
        ensures
            r@ == self.planes@,
    {
        &self.planes
    }

    /// The planes killed by a head hit, in kill order.
    pub fn killed_planes(&self) -> (r: &Vec<Plane>)
        ensures
            r@ == self.killed_planes@,
    {
        &self.killed_planes
    }

    /// The killed-planes list, for callers that record a revealed plane.
    pub fn killed_planes_mut(&mut self) -> (r: &mut Vec<Plane>)
        ensures
            *r == old(self).killed_planes,
            *final(self) == (Board { killed_planes: *final(r), ..*old(self) }),
    {
        &mut self.killed_planes
    }

    /// The logged hits, in shot order.
    pub fn hits(&self) -> (r: &Vec<Coordinate>)
        ensures
            r@ == self.hits@,
    {
        &self.hits
    }

    /// The hit log, for callers that mirror an outcome onto a scrapbook.
    pub fn hits_mut(&mut self) -> (r: &mut Vec<Coordinate>)
        ensures
            *r == old(self).hits,
            *final(self) == (Board { hits: *final(r), ..*old(self) }),
    {
        &mut self.hits
    }

    /// The logged misses, in shot order.
    pub fn misses(&self) -> (r: &Vec<Coordinate>)
        ensures
            r@ == self.misses@,
    {
        &self.misses
    }

    /// The miss log, for callers that mirror an outcome onto a scrapbook.
    pub fn misses_mut(&mut self) -> (r: &mut Vec<Coordinate>)
        ensures
            *r == old(self).misses,
            *final(self) == (Board { misses: *final(r), ..*old(self) }),
    {
        &mut self.misses
    }

    /// The logged kills, in shot order.
    pub fn kills(&self) -> (r: &Vec<Coordinate>)
        ensures
            r@ == self.kills@,
    {
        &self.kills
    }

    /// The kill log, for callers that mirror an outcome onto a scrapbook.
    pub fn kills_mut(&mut self) -> (r: &mut Vec<Coordinate>)
        ensures
            *r == old(self).kills,
            *final(self) == (Board { kills: *final(r), ..*old(self) }),
    {
        &mut self.kills
    }

    /// The linear indices never yet targeted here, each below 100.
    pub fn empty_indices(&self) -> (r: &Vec<usize>)
        ensures
            r@ == self.empty_indices@,
    {
        &self.empty_indices
    }

    /// The never-targeted indices, for callers that sample a target.
    pub fn empty_indices_mut(&mut self) -> (r: &mut Vec<usize>)
        ensures
            *r == old(self).empty_indices,
            *final(self) == (Board { empty_indices: *final(r), ..*old(self) }),
    {
        &mut self.empty_indices
    }

    /// Forgets the active planes; everything else, the killed list and the
    /// never-targeted indices included, stays.
    pub fn clear_planes(&mut self)
        ensures
            final(self).planes@ == Seq::<Plane>::empty(),
            final(self).killed_planes == old(self).killed_planes,
            final(self).hits == old(self).hits,
            final(self).misses == old(self).misses,
            final(self).kills == old(self).kills,
            final(self).empty_indices == old(self).empty_indices,
            final(self).previous_error_message == old(self).previous_error_message,
    {
        self.planes = Vec::new();
    }

    /// Places a plane described by head and orientation text. Checked in
    /// order: placement must still be open, the text must parse, the
    /// footprint must stay on the grid, and the plane must not touch an
    /// active plane. On success the new plane gets id `planes.len() + 1`,
    /// its head and body cells leave the never-targeted set, and the stored
    /// error is cleared; on failure the board is unchanged but for the
    /// stored message, so the caller may retry.
    #[verifier::loop_isolation(false)]
    pub fn add_new_plane_at(&mut self, head: &str, orientation: &str) -> (r: Result<usize, String>)
        requires
            old(self).wf(),
            old(self).planes@.len() < usize::MAX,
        ensures
            final(self).wf(),
            final(self).killed_planes == old(self).killed_planes,
            final(self).hits == old(self).hits,
            final(self).misses == old(self).misses,
            final(self).kills == old(self).kills,
            ({
                let parsed = Plane::spec_new_with_id(
                    head@,
                    orientation@,
                    (old(self).planes@.len() + 1) as usize,
                );
                let p = parsed->Some_0;
                &&& old(self).spec_in_gameplay() ==> (r matches Err(e) && e@ == msg_phase_closed()
                    && final(self).failed_with(*old(self), msg_phase_closed()))
                &&& (!old(self).spec_in_gameplay() && parsed is None) ==> (r matches Err(e) && e@
                    == msg_cannot_spawn(head@, orientation@) && final(self).failed_with(
                    *old(self),
                    msg_cannot_spawn(head@, orientation@),
                ))
                &&& (!old(self).spec_in_gameplay() && parsed is Some && p.spec_outside()) ==> (
                r matches Err(e) && e@ == msg_off_map() && final(self).failed_with(
                    *old(self),
                    msg_off_map(),
                ))
                &&& (!old(self).spec_in_gameplay() && parsed is Some && !p.spec_outside() && old(
                    self,
                ).overlaps_active(p)) ==> (r matches Err(e) && e@ == msg_overlap(
                    old(self).planes@[old(self).first_overlap_from(p, 0)].id as int,
                ) && final(self).failed_with(
                    *old(self),
                    msg_overlap(old(self).planes@[old(self).first_overlap_from(p, 0)].id as int),
                ))
                &&& (!old(self).spec_in_gameplay() && parsed is Some && !p.spec_outside() && !old(
                    self,
                ).overlaps_active(p)) ==> {
                    &&& r == Ok::<usize, String>((old(self).planes@.len() + 1) as usize)
                    &&& final(self).planes@ == old(self).planes@.push(p)
                    &&& final(self).previous_error_message is None
                    &&& forall|y: usize|
                        #[trigger] final(self).empty_indices@.contains(y) <==> (old(
                            self,
                        ).empty_indices@.contains(y) && y as int != p.head.idx()
                            && !p.tiles().contains(y as int))
                }
            }),
    {
        if self.is_in_gameplay() {
            let t = String::from_str("Cannot add planes mid-game");
            self.previous_error_message = Some(t.clone());
            return Err(t);
        }
        let id = self.planes.len() + 1;
        let t_plane = Plane::new_with_id(head, orientation, id);
        match t_plane {
            None => {
                let mut t = String::from_str("plane cannot spawn at ");
                t.append(head);
                t.append(" in direction ");
                t.append(orientation);
                self.previous_error_message = Some(t.clone());
                Err(t)
            },
            Some(plane) => {
                if plane.is_outside_of_map() {
                    let t = String::from_str("Plane would fall off the map, try again.");
                    self.previous_error_message = Some(t.clone());
                    return Err(t);
                }
                let mut i: usize = 0;
                while i < self.planes.len()
                    invariant
                        self == old(self),
                        i <= self.planes@.len(),
                        forall|j: int|
                            0 <= j < i ==> !plane.spec_overlaps(#[trigger] self.planes@[j]),
                    decreases self.planes@.len() - i,
                {
                    if plane.is_overlapping_with(&self.planes[i]) {
                        proof {
                            self.lemma_first_overlap_found(plane, 0, i as int);
                        }
                        let other_id = self.planes[i].id();
                        let mut t = String::from_str("Plane would overlap with another one: ");
                        let rendered = decimal_string(other_id);
                        t.append(rendered.as_str());
                        t.append(", try again.");
                        self.previous_error_message = Some(t.clone());
                        return Err(t);
                    }
                    i += 1;
                }
                let head_offset = plane.head().as_usize();
                remove_value(&mut self.empty_indices, head_offset);
                let mut k: usize = 0;
                while k < 9
                    invariant
                        k <= 9,
                        self.planes == old(self).planes,
                        self.killed_planes == old(self).killed_planes,
                        self.hits == old(self).hits,
                        self.misses == old(self).misses,
                        self.kills == old(self).kills,
                        self.previous_error_message == old(self).previous_error_message,
                        old(self).wf(),
                        self.empty_indices@.no_duplicates(),
                        head_offset == plane.head.idx(),
                        forall|y: usize|
                            #[trigger] self.empty_indices@.contains(y) <==> (old(
                                self,
                            ).empty_indices@.contains(y) && y != head_offset
                                && !plane.tiles_prefix(k as int).contains(y as int)),
                    decreases 9 - k,
                {
                    proof {
                        plane.lemma_tiles_prefix_succ(k as int);
                    }
                    match plane.cell_at(k) {
                        Some(c) => {
                            remove_value(&mut self.empty_indices, c.as_usize());
                        },
                        None => {},
                    }
                    k += 1;
                }
                proof {
                    assert forall|i2: int|
                        0 <= i2 < self.empty_indices@.len() implies #[trigger] self.empty_indices@[i2]
                        < 100 by {
                        let y = self.empty_indices@[i2];
                        assert(self.empty_indices@.contains(y));
                        assert(old(self).empty_indices@.contains(y));
                        let j = choose|j: int|
                            0 <= j < old(self).empty_indices@.len() && old(self).empty_indices@[j]
                                == y;
                        assert(old(self).empty_indices@[j] < 100);
                    }
                    assert forall|i2: int|
                        0 <= i2 < old(self).planes@.len() implies !old(self).planes@[i2].spec_overlaps(
                        plane,
                    ) by {
                        Plane::lemma_overlap_symmetric(old(self).planes@[i2], plane);
                        assert(!plane.spec_overlaps(old(self).planes@[i2]));
                    }
                }
                self.planes.push(plane);
                self.previous_error_message = None;
                Ok(id)
            },
        }
    }

    /// How one resolved shot at `coord` with outcome `r` takes `pre` to
    /// `post`: the cell leaves the never-targeted set, and exactly one of
    /// the hit, kill or miss effects applies.
    pub open spec fn resolves_shot(
        pre: Board,
        post: Board,
        coord: Coordinate,
        r: BombardmentResult,
    ) -> bool {
        &&& post.kills == pre.kills
        &&& post.previous_error_message == pre.previous_error_message
        &&& forall|y: usize|
            #[trigger] post.empty_indices@.contains(y) <==> (pre.empty_indices@.contains(y) && y
                as int != coord.idx())
        &&& pre.empty_indices@.contains(coord.idx() as usize) ==> post.empty_indices@.len()
            == pre.empty_indices@.len() - 1
        &&& !pre.empty_indices@.contains(coord.idx() as usize) ==> post.empty_indices
            == pre.empty_indices
        &&& pre.active_tile_at(coord) ==> {
            &&& r is Hit
            &&& post.hits@ == pre.hits@.push(coord)
            &&& post.planes == pre.planes
            &&& post.killed_planes == pre.killed_planes
            &&& post.misses == pre.misses
        }
        &&& (!pre.active_tile_at(coord) && pre.active_head_at(coord)) ==> {
            let i = pre.head_plane_index(coord);
            &&& r is Kill
            &&& post.planes@ == pre.planes@.remove(i)
            &&& post.killed_planes@ == pre.killed_planes@.push(pre.planes@[i])
            &&& post.hits == pre.hits
            &&& post.misses == pre.misses
        }
        &&& (!pre.active_tile_at(coord) && !pre.active_head_at(coord)) ==> {
            &&& r is Miss
            &&& post.misses@ == pre.misses@.push(coord)
            &&& post.planes == pre.planes
            &&& post.killed_planes == pre.killed_planes
            &&& post.hits == pre.hits
        }
    }

    /// Resolves a shot at `coord`. The cell always leaves the never-targeted
    /// set. A body cell of an active plane logs a hit; the head of an active
    /// plane moves that plane to the killed list; anything else logs a miss.
    /// Active planes never overlap, so at most one plane can claim the cell.
    #[verifier::loop_isolation(false)]
    pub fn hit_at(&mut self, coord: Coordinate) -> (r: BombardmentResult)
        requires
            old(self).wf(),
        ensures
            final(self).wf(),
            Board::resolves_shot(*old(self), *final(self), coord, r),
            r is Hit || r is Kill || r is Miss,
    {
        remove_value(&mut self.empty_indices, coord.as_usize());
        proof {
            assert forall|i2: int|
                0 <= i2 < self.empty_indices@.len() implies #[trigger] self.empty_indices@[i2]
                < 100 by {
                let y = self.empty_indices@[i2];
                assert(self.empty_indices@.contains(y));
                assert(old(self).empty_indices@.contains(y));
                let j = choose|j: int|
                    0 <= j < old(self).empty_indices@.len() && old(self).empty_indices@[j] == y;
                assert(old(self).empty_indices@[j] < 100);
            }
        }
        let ghost targeted = self.empty_indices;
        let mut i: usize = 0;
        while i < self.planes.len()
            invariant
                i <= self.planes@.len(),
                self.planes == old(self).planes,
                self.killed_planes == old(self).killed_planes,
                self.hits == old(self).hits,
                self.misses == old(self).misses,
                self.kills == old(self).kills,
                self.previous_error_message == old(self).previous_error_message,
                self.empty_indices == targeted,
                forall|j: int|
                    0 <= j < i ==> !(#[trigger] self.planes@[j]).spec_has_tile(coord)
                        && self.planes@[j].head != coord,
            decreases self.planes@.len() - i,
        {
            if self.planes[i].has_tile(&coord) {
                self.hits.push(coord);
                proof {
                    assert(old(self).planes@[i as int].spec_has_tile(coord));
                    assert(old(self).active_tile_at(coord));
                }
                return BombardmentResult::Hit;
            }
            if self.planes[i].head == coord {
                proof {
                    assert(old(self).active_head_at(coord));
                    assert forall|j: int|
                        0 <= j < old(self).planes@.len() implies !(
                    #[trigger] old(self).planes@[j]).spec_has_tile(coord) by {
                        if j != i {
                            assert(old(self).planes@[j].spec_has_tile(coord) ==> old(
                                self,
                            ).planes@[j].spec_overlaps(old(self).planes@[i as int]));
                            if j < i {
                                assert(!old(self).planes@[j].spec_overlaps(
                                    old(self).planes@[i as int],
                                ));
                            } else {
                                Plane::lemma_overlap_symmetric(
                                    old(self).planes@[j],
                                    old(self).planes@[i as int],
                                );
                                assert(!old(self).planes@[i as int].spec_overlaps(
                                    old(self).planes@[j],
                                ));
                            }
                        }
                    }
                    assert(!old(self).active_tile_at(coord));
                    let ci = old(self).head_plane_index(coord);
                    assert(0 <= ci < old(self).planes@.len() && old(self).planes@[ci].head
                        == coord);
                    if ci != i {
                        let a = if ci < i { ci } else { i as int };
                        let b = if ci < i { i as int } else { ci };
                        assert(old(self).planes@[a].spec_overlaps(old(self).planes@[b]));
                    }
                }
                let ghost prev_planes = self.planes@;
                let killed_plane = self.planes.remove(i);
                self.killed_planes.push(killed_plane);
                proof {
                    prev_planes.remove_ensures(i as int);
                    assert forall|a: int, b: int|
                        0 <= a < b < self.planes@.len() implies !self.planes@[a].spec_overlaps(
                        self.planes@[b],
                    ) by {
                        let pa: int = if a < i { a } else { a + 1 };
                        let pb: int = if b < i { b } else { b + 1 };
                        assert(self.planes@[a] == prev_planes[pa]);
                        assert(self.planes@[b] == prev_planes[pb]);
                        assert(!prev_planes[pa].spec_overlaps(prev_planes[pb]));
                    }
                    assert forall|a: int|
                        0 <= a < self.planes@.len() implies !(
                    #[trigger] self.planes@[a]).spec_outside() by {
                        let pa: int = if a < i { a } else { a + 1 };
                        assert(self.planes@[a] == prev_planes[pa]);
                        assert(!prev_planes[pa].spec_outside());
                    }
                }
                return BombardmentResult::Kill;
            }
            i += 1;
        }
        self.misses.push(coord);
        BombardmentResult::Miss
    }

    /// A fixed fleet of three non-overlapping, on-grid planes. It backs
    /// `new_random` when the random search exhausts its round budget, so
    /// that randomized generation still always returns a full fleet.
    fn fallback_fleet() -> (r: Board)
        ensures
            r.wf(),
            r.planes@.len() == 3,
            forall|i: int| 0 <= i < 3 ==> (#[trigger] r.planes@[i]).id == i + 1,
            r.killed_planes@.len() == 0,
            r.hits@.len() == 0,
            r.misses@.len() == 0,
            r.kills@.len() == 0,
    {
        let p1 = Plane {
            head: Coordinate(CoordLetter::C, CoordNum::One),
            orientation: Orientation::North,
            id: 1,
        };
        let p2 = Plane {
            head: Coordinate(CoordLetter::H, CoordNum::One),
            orientation: Orientation::North,
            id: 2,
        };
        let p3 = Plane {
            head: Coordinate(CoordLetter::C, CoordNum::Six),
            orientation: Orientation::North,
            id: 3,
        };
        proof {
            assert(p1.cell(0) == Some(Coordinate(CoordLetter::A, CoordNum::Two)));
            assert(p1.cell(1) == Some(Coordinate(CoordLetter::B, CoordNum::Two)));
            assert(p1.cell(2) == Some(Coordinate(CoordLetter::C, CoordNum::Two)));
            assert(p1.cell(3) == Some(Coordinate(CoordLetter::D, CoordNum::Two)));
            assert(p1.cell(4) == Some(Coordinate(CoordLetter::E, CoordNum::Two)));
            assert(p1.cell(5) == Some(Coordinate(CoordLetter::C, CoordNum::Three)));
            assert(p1.cell(6) == Some(Coordinate(CoordLetter::B, CoordNum::Four)));
            assert(p1.cell(7) == Some(Coordinate(CoordLetter::C, CoordNum::Four)));
            assert(p1.cell(8) == Some(Coordinate(CoordLetter::D, CoordNum::Four)));
            assert(p2.cell(0) == Some(Coordinate(CoordLetter::F, CoordNum::Two)));
            assert(p2.cell(1) == Some(Coordinate(CoordLetter::G, CoordNum::Two)));
            assert(p2.cell(2) == Some(Coordinate(CoordLetter::H, CoordNum::Two)));
            assert(p2.cell(3) == Some(Coordinate(CoordLetter::I, CoordNum::Two)));
            assert(p2.cell(4) == Some(Coordinate(CoordLetter::J, CoordNum::Two)));
            assert(p2.cell(5) == Some(Coordinate(CoordLetter::H, CoordNum::Three)));
            assert(p2.cell(6) == Some(Coordinate(CoordLetter::G, CoordNum::Four)));
            assert(p2.cell(7) == Some(Coordinate(CoordLetter::H, CoordNum::Four)));
            assert(p2.cell(8) == Some(Coordinate(CoordLetter::I, CoordNum::Four)));
            assert(p3.cell(0) == Some(Coordinate(CoordLetter::A, CoordNum::Seven)));
            assert(p3.cell(1) == Some(Coordinate(CoordLetter::B, CoordNum::Seven)));
            assert(p3.cell(2) == Some(Coordinate(CoordLetter::C, CoordNum::Seven)));
            assert(p3.cell(3) == Some(Coordinate(CoordLetter::D, CoordNum::Seven)));
            assert(p3.cell(4) == Some(Coordinate(CoordLetter::E, CoordNum::Seven)));
            assert(p3.cell(5) == Some(Coordinate(CoordLetter::C, CoordNum::Eight)));
            assert(p3.cell(6) == Some(Coordinate(CoordLetter::B, CoordNum::Nine)));
            assert(p3.cell(7) == Some(Coordinate(CoordLetter::C, CoordNum::Nine)));
            assert(p3.cell(8) == Some(Coordinate(CoordLetter::D, CoordNum::Nine)));
            assert(!p1.spec_outside());
            assert(!p2.spec_outside());
            assert(!p3.spec_outside());
            assert(!p1.spec_overlaps(p2));
            assert(!p1.spec_overlaps(p3));
            assert(!p2.spec_overlaps(p3));
        }
        let mut planes: Vec<Plane> = Vec::new();
        planes.push(p1);
        planes.push(p2);
        planes.push(p3);
        let mut board = Board::new();
        board.planes = planes;
        proof {
            assert(board.planes@[0] == p1);
            assert(board.planes@[1] == p2);
            assert(board.planes@[2] == p3);
        }
        board
    }

    /// A self-initializing fleet: picks random head candidates, tries the
    /// four orientations in a freshly shuffled order, and keeps going until
    /// three planes stand; a round that stalls after 100 candidates clears
    /// the board and starts over. The rounds are capped, and a fixed fleet
    /// stands in on exhaustion, so the board returned always carries exactly
    /// three active, mutually non-overlapping, on-grid planes.
    #[verifier::loop_isolation(false)]
    pub fn new_random() -> (r: Board)
        ensures
            r.wf(),
            r.planes@.len() == 3,
            forall|i: int| 0 <= i < 3 ==> (#[trigger] r.planes@[i]).id == i + 1,
            forall|i: int| 0 <= i < 3 ==> !(#[trigger] r.planes@[i]).spec_outside(),
            forall|i: int, j: int| 0 <= i < j < 3 ==> !r.planes@[i].spec_overlaps(r.planes@[j]),
            r.killed_planes@.len() == 0,
            r.hits@.len() == 0,
            r.misses@.len() == 0,
            r.kills@.len() == 0,
    {
        let mut temp_board = Board::new();
        let mut random_orientations: Vec<usize> = vec![0, 1, 2, 3];
        let mut round: usize = 0;
        while round < 1000
            invariant
                temp_board.wf(),
                temp_board.planes@.len() <= 3,
                forall|i: int|
                    0 <= i < temp_board.planes@.len() ==> (#[trigger] temp_board.planes@[i]).id == i
                        + 1,
                temp_board.killed_planes@.len() == 0,
                temp_board.hits@.len() == 0,
                temp_board.misses@.len() == 0,
                temp_board.kills@.len() == 0,
                random_orientations@.len() == 4,
            decreases 1000 - round,
        {
            let mut attempt: usize = 0;
            while attempt < 100 && temp_board.planes.len() < 3
                invariant
                    temp_board.wf(),
                    temp_board.planes@.len() <= 3,
                    forall|i: int|
                        0 <= i < temp_board.planes@.len() ==> (
                        #[trigger] temp_board.planes@[i]).id == i + 1,
                    temp_board.killed_planes@.len() == 0,
                    temp_board.hits@.len() == 0,
                    temp_board.misses@.len() == 0,
                    temp_board.kills@.len() == 0,
                    random_orientations@.len() == 4,
                decreases 100 - attempt,
            {
                let head_candidate = Coordinate::new_random_coordinate();
                let raw_head = head_candidate.to_text();
                shuffle(&mut random_orientations);
                let ghost fleet_before: int = temp_board.planes@.len() as int;
                let mut placed = false;
                let mut j: usize = 0;
                while j < 4
                    invariant
                        temp_board.wf(),
                        temp_board.killed_planes@.len() == 0,
                        temp_board.hits@.len() == 0,
                        temp_board.misses@.len() == 0,
                        temp_board.kills@.len() == 0,
                        random_orientations@.len() == 4,
                        fleet_before < 3,
                        forall|i: int|
                            0 <= i < temp_board.planes@.len() ==> (
                            #[trigger] temp_board.planes@[i]).id == i + 1,
                        !placed ==> temp_board.planes@.len() == fleet_before,
                        placed ==> temp_board.planes@.len() == fleet_before + 1,
                    decreases 4 - j,
                {
                    if !placed {
                        let orientation_candidate = Orientation::from_usize(random_orientations[j]);
                        let raw_orientation = orientation_candidate.to_text();
                        match temp_board.add_new_plane_at(
                            raw_head.as_str(),
                            raw_orientation.as_str(),
                        ) {
                            Ok(_) => {
                                placed = true;
                            },
                            Err(_) => {},
                        }
                    }
                    j += 1;
                }
                attempt += 1;
            }
            if temp_board.planes.len() == 3 {
                return temp_board;
            }
            temp_board.clear_planes();
            round += 1;
        }
        Board::fallback_fleet()
    }

    /// The first plane in the sequence that occupies `at` with a body cell
    /// or its head.
    pub open spec fn find_in(s: Seq<Plane>, at: Coordinate) -> Option<Plane>
        decreases s.len(),
    {
        if s.len() == 0 {
            None
        } else if s[0].spec_has_tile(at) || s[0].head == at {
            Some(s[0])
        } else {
            Board::find_in(s.drop_first(), at)
        }
    }

    /// Whatever `find_in` returns came out of the sequence it searched.
    pub proof fn lemma_find_in_membership(s: Seq<Plane>, at: Coordinate)
        ensures
            Board::find_in(s, at) matches Some(p) ==> s.contains(p),
        decreases s.len(),
    {
        if s.len() > 0 && !(s[0].spec_has_tile(at) || s[0].head == at) {
            Board::lemma_find_in_membership(s.drop_first(), at);
            if Board::find_in(s.drop_first(), at) is Some {
                let p = Board::find_in(s.drop_first(), at)->Some_0;
                let i = choose|i: int| 0 <= i < s.drop_first().len() && s.drop_first()[i] == p;
                assert(s[i + 1] == p);
            }
        }
    }

    /// What the lookup at `at` yields: the first matching active plane, and
    /// failing that the first matching killed plane.
    pub open spec fn spec_find_plane_at(self, at: Coordinate) -> Option<Plane> {
        if Board::find_in(self.planes@, at) is Some {
            Board::find_in(self.planes@, at)
        } else {
            Board::find_in(self.killed_planes@, at)
        }
    }

    /// Looks up the plane, active or killed, that occupies `at` with a body
    /// cell or its head; used to surface a killed plane's shape.
    #[verifier::loop_isolation(false)]
    pub fn find_plane_at(&self, at: &Coordinate) -> (r: Option<&Plane>)
        ensures
            match r {
                Some(p) => self.spec_find_plane_at(*at) == Some(*p),
                None => self.spec_find_plane_at(*at) is None,
            },
    {
        proof {
            assert(self.planes@.skip(0) =~= self.planes@);
            assert(self.killed_planes@.skip(0) =~= self.killed_planes@);
        }
        let mut i: usize = 0;
        while i < self.planes.len()
            invariant
                i <= self.planes@.len(),
                Board::find_in(self.planes@.skip(i as int), *at) == Board::find_in(
                    self.planes@,
                    *at,
                ),
            decreases self.planes@.len() - i,
        {
            let found = self.planes[i].has_tile(at) || self.planes[i].head == *at;
            proof {
                assert(self.planes@.skip(i as int)[0] == self.planes@[i as int]);
                assert(self.planes@.skip(i as int).drop_first() =~= self.planes@.skip(i + 1));
            }
            if found {
                return Some(&self.planes[i]);
            }
            i += 1;
        }
        proof {
            assert(Board::find_in(self.planes@, *at) is None);
        }
        let mut k: usize = 0;
        while k < self.killed_planes.len()
            invariant
                k <= self.killed_planes@.len(),
                Board::find_in(self.killed_planes@.skip(k as int), *at) == Board::find_in(
                    self.killed_planes@,
                    *at,
                ),
            decreases self.killed_planes@.len() - k,
        {
            let found = self.killed_planes[k].has_tile(at) || self.killed_planes[k].head == *at;
            proof {
                assert(self.killed_planes@.skip(k as int)[0] == self.killed_planes@[k as int]);
                assert(self.killed_planes@.skip(k as int).drop_first() =~= self.killed_planes@.skip(
                    k + 1,
                ));
            }
            if found {
                return Some(&self.killed_planes[k]);
            }
            k += 1;
        }
        None
    }

    /// The first plane in the sequence carrying the given id.
    pub open spec fn find_by_id(s: Seq<Plane>, id: usize) -> Option<Plane>
        decreases s.len(),
    {
        if s.len() == 0 {
            None
        } else if s[0].id == id {
            Some(s[0])
        } else {
            Board::find_by_id(s.drop_first(), id)
        }
    }

    /// Looks up the first active plane with the given id; killed planes are
    /// not searched.
    #[verifier::loop_isolation(false)]
    pub fn get_plane_by_id(&self, id: usize) -> (r: Option<&Plane>)
        ensures
            match r {
                Some(p) => Board::find_by_id(self.planes@, id) == Some(*p),
                None => Board::find_by_id(self.planes@, id) is None,
            },
    {
        proof {
            assert(self.planes@.skip(0) =~= self.planes@);
        }
        let mut i: usize = 0;
        while i < self.planes.len()
            invariant
                i <= self.planes@.len(),
                Board::find_by_id(self.planes@.skip(i as int), id) == Board::find_by_id(
                    self.planes@,
                    id,
                ),
            decreases self.planes@.len() - i,
        {
            proof {
                assert(self.planes@.skip(i as int)[0] == self.planes@[i as int]);
                assert(self.planes@.skip(i as int).drop_first() =~= self.planes@.skip(i + 1));
            }
            if self.planes[i].id() == id {
                return Some(&self.planes[i]);
            }
            i += 1;
        }
        None
    }
}

} // verus!
