//! A whole match: your board and the opponent's real board, the two
//! scrapbooks each side fills in by bombarding the other, and the turn-phase
//! state machine that alternates between them.

use vstd::prelude::*;

use crate::board::Board;
use crate::board::remove_value;
use crate::bombardment_result::BombardmentResult;
use crate::coordinate::Coordinate;
use crate::game_play::GamePlay;
use crate::rng::random_below;

verus! {

#[derive(Clone)]
pub struct Game {
    pub gameplay: GamePlay,
    pub board_you: Board,
    pub board_opponent: Board,
    pub scrapbook_you: Board,
    pub scrapbook_opponent: Board,
    /// Policy flag threaded in at construction for showing a killed plane's
    /// shape on the scrapbook; the shape is currently copied on every kill.
    pub reveal_killed: bool,
}

impl Game {
    /// The match invariant: all four boards are well formed.
    pub open spec fn wf(self) -> bool {
        &&& self.board_you.wf()
        &&& self.board_opponent.wf()
        &&& self.scrapbook_you.wf()
        &&& self.scrapbook_opponent.wf()
    }

    /// The phase `next_logical_state` moves to, per the transition table;
    /// the two victory states are terminal.
    pub open spec fn spec_next(self) -> GamePlay {
        match self.gameplay {
            GamePlay::YouPlaceNewPlane => {
                if self.board_opponent.planes@.len() + self.board_opponent.killed_planes@.len()
                    == 3 {
                    GamePlay::OpponentBombards
                } else {
                    GamePlay::OpponentPlacesNewPlane
                }
            },
            GamePlay::OpponentPlacesNewPlane => {
                if self.board_you.planes@.len() + self.board_you.killed_planes@.len() == 3 {
                    GamePlay::YouBombard
                } else {
                    GamePlay::YouPlaceNewPlane
                }
            },
            GamePlay::YouBombard => {
                if self.board_opponent.planes@.len() == 0 {
                    GamePlay::YouWon
                } else {
                    GamePlay::OpponentBombards
                }
            },
            GamePlay::OpponentBombards => {
                if self.board_you.planes@.len() == 0 {
                    GamePlay::OpponentWon
                } else {
                    GamePlay::YouBombard
                }
            },
            GamePlay::YouWon => GamePlay::YouWon,
            GamePlay::OpponentWon => GamePlay::OpponentWon,
        }
    }

    /// A fresh match: four empty boards, a random side to open, and the
    /// reveal policy as asked.
    pub fn new_random_starter(reveal_killed: bool) -> (r: Game)
        ensures
            r.wf(),
            r.gameplay is YouPlaceNewPlane || r.gameplay is OpponentPlacesNewPlane,
            r.board_you.is_fresh(),
            r.board_opponent.is_fresh(),
            r.scrapbook_you.is_fresh(),
            r.scrapbook_opponent.is_fresh(),
            r.reveal_killed == reveal_killed,
    {
        Game {
            gameplay: GamePlay::new_random_state(),
            board_you: Board::new(),
            board_opponent: Board::new(),
            scrapbook_you: Board::new(),
            scrapbook_opponent: Board::new(),
            reveal_killed,
        }
    }

    /// Advances the turn phase by the transition table, reading only which
    /// fleets are complete and which still have active planes; nothing else
    /// changes, and the victory states stay where they are.
    pub fn next_logical_state(&mut self)
        ensures
            final(self).gameplay == old(self).spec_next(),
            final(self).board_you == old(self).board_you,
            final(self).board_opponent == old(self).board_opponent,
            final(self).scrapbook_you == old(self).scrapbook_you,
            final(self).scrapbook_opponent == old(self).scrapbook_opponent,
            final(self).reveal_killed == old(self).reveal_killed,
    {
        match self.gameplay {
            GamePlay::YouPlaceNewPlane => {
                if !self.board_opponent.is_initialized() {
                    self.gameplay = GamePlay::OpponentPlacesNewPlane;
                } else {
                    self.gameplay = GamePlay::OpponentBombards;
                }
            },
            GamePlay::OpponentPlacesNewPlane => {
                if !self.board_you.is_initialized() {
                    self.gameplay = GamePlay::YouPlaceNewPlane;
                } else {
                    self.gameplay = GamePlay::YouBombard;
                }
            },
            GamePlay::YouBombard => {
                if self.board_opponent.planes().len() == 0 {
                    self.gameplay = GamePlay::YouWon;
                } else {
                    self.gameplay = GamePlay::OpponentBombards;
                }
            },
            GamePlay::OpponentBombards => {
                if self.board_you.planes().len() == 0 {
                    self.gameplay = GamePlay::OpponentWon;
                } else {
                    self.gameplay = GamePlay::YouBombard;
                }
            },
            GamePlay::YouWon => {},
            GamePlay::OpponentWon => {},
        }
    }

    /// Your bombardment of the opponent's board. Text that does not parse
    /// costs nothing and asks for a retry; otherwise the shot is resolved on
    /// the opponent's real board and the outcome is mirrored into your
    /// scrapbook, a kill revealing the killed plane's shape there.
    pub fn you_hit_at(&mut self, target: &str) -> (r: BombardmentResult)
        requires
            old(self).wf(),
        ensures
            final(self).wf(),
            final(self).gameplay == old(self).gameplay,
            final(self).reveal_killed == old(self).reveal_killed,
            final(self).board_you == old(self).board_you,
            final(self).scrapbook_opponent == old(self).scrapbook_opponent,
            ({
                let parsed = Coordinate::spec_new(target@);
                let coord = parsed->Some_0;
                &&& parsed is None ==> (r is Retry && *final(self) == *old(self))
                &&& parsed is Some ==> ((r is Hit || r is Kill || r is Miss)
                    && Board::resolves_shot(
                    old(self).board_opponent,
                    final(self).board_opponent,
                    coord,
                    r,
                ) && Board::same_placement(old(self).scrapbook_you, final(self).scrapbook_you))
                &&& (parsed is Some && r is Hit) ==> {
                    &&& final(self).scrapbook_you.hits@ == old(self).scrapbook_you.hits@.push(
                        coord,
                    )
                    &&& final(self).scrapbook_you.misses == old(self).scrapbook_you.misses
                    &&& final(self).scrapbook_you.kills == old(self).scrapbook_you.kills
                    &&& final(self).scrapbook_you.killed_planes == old(
                        self,
                    ).scrapbook_you.killed_planes
                }
                &&& (parsed is Some && r is Miss) ==> {
                    &&& final(self).scrapbook_you.misses@ == old(self).scrapbook_you.misses@.push(
                        coord,
                    )
                    &&& final(self).scrapbook_you.hits == old(self).scrapbook_you.hits
                    &&& final(self).scrapbook_you.kills == old(self).scrapbook_you.kills
                    &&& final(self).scrapbook_you.killed_planes == old(
                        self,
                    ).scrapbook_you.killed_planes
                }
                &&& (parsed is Some && r is Kill) ==> {
                    &&& final(self).scrapbook_you.hits@ == old(self).scrapbook_you.hits@.push(
                        coord,
                    )
                    &&& final(self).scrapbook_you.kills@ == old(self).scrapbook_you.kills@.push(
                        coord,
                    )
                    &&& final(self).scrapbook_you.misses == old(self).scrapbook_you.misses
                    &&& match final(self).board_opponent.spec_find_plane_at(coord) {
                        Some(p) => final(self).scrapbook_you.killed_planes@ == old(
                            self,
                        ).scrapbook_you.killed_planes@.push(p),
                        None => final(self).scrapbook_you.killed_planes == old(
                            self,
                        ).scrapbook_you.killed_planes,
                    }
                }
            }),
    {
        match Coordinate::new(target) {
            None => BombardmentResult::Retry,
            Some(coord) => {
                let result = self.board_opponent.hit_at(coord);
                match result {
                    BombardmentResult::Hit => {
                        self.scrapbook_you.hits.push(coord);
                    },
                    BombardmentResult::Miss => {
                        self.scrapbook_you.misses.push(coord);
                    },
                    BombardmentResult::Kill => {
                        let maybe_plane = self.board_opponent.find_plane_at(&coord);
                        match maybe_plane {
                            Some(plane) => {
                                proof {
                                    Board::lemma_find_in_membership(
                                        self.board_opponent.planes@,
                                        coord,
                                    );
                                    Board::lemma_find_in_membership(
                                        self.board_opponent.killed_planes@,
                                        coord,
                                    );
                                    if self.board_opponent.planes@.contains(*plane) {
                                        let i = choose|i: int|
                                            0 <= i < self.board_opponent.planes@.len()
                                                && self.board_opponent.planes@[i] == *plane;
                                        assert(!self.board_opponent.planes@[i].spec_outside());
                                    } else {
                                        assert(self.board_opponent.killed_planes@.contains(
                                            *plane,
                                        ));
                                        let i = choose|i: int|
                                            0 <= i < self.board_opponent.killed_planes@.len()
                                                && self.board_opponent.killed_planes@[i]
                                                == *plane;
                                        assert(!self.board_opponent.killed_planes@[i].spec_outside());
                                    }
                                }
                                self.scrapbook_you.killed_planes.push(*plane);
                            },
                            None => {},
                        }
                        self.scrapbook_you.kills.push(coord);
                        self.scrapbook_you.hits.push(coord);
                    },
                    BombardmentResult::Retry => {},
                }
                result
            },
        }
    }

    /// The randomized opponent's bombardment of your board: a cell drawn
    /// uniformly from those it never targeted, removed from that set,
    /// resolved on your board and mirrored into its scrapbook. With no cell
    /// left it asks for a retry and changes nothing.
    pub fn opponent_hits_randomly(&mut self) -> (r: (BombardmentResult, Option<Coordinate>))
        requires
            old(self).wf(),
        ensures
            final(self).wf(),
            final(self).gameplay == old(self).gameplay,
            final(self).reveal_killed == old(self).reveal_killed,
            final(self).board_opponent == old(self).board_opponent,
            final(self).scrapbook_you == old(self).scrapbook_you,
            old(self).scrapbook_opponent.empty_indices@.len() == 0 ==> (r.0 is Retry && r.1
                is None && *final(self) == *old(self)),
            old(self).scrapbook_opponent.empty_indices@.len() > 0 ==> (r.1 is Some && (r.0 is Hit
                || r.0 is Kill || r.0 is Miss)),
            r.1 matches Some(tile) ==> {
                &&& old(self).scrapbook_opponent.empty_indices@.contains(tile.idx() as usize)
                &&& forall|y: usize|
                    #[trigger] final(self).scrapbook_opponent.empty_indices@.contains(y) <==> (old(
                        self,
                    ).scrapbook_opponent.empty_indices@.contains(y) && y as int != tile.idx())
                &&& final(self).scrapbook_opponent.empty_indices@.len() == old(
                    self,
                ).scrapbook_opponent.empty_indices@.len() - 1
                &&& Board::resolves_shot(old(self).board_you, final(self).board_you, tile, r.0)
                &&& final(self).scrapbook_opponent.planes == old(self).scrapbook_opponent.planes
                &&& final(self).scrapbook_opponent.killed_planes == old(
                    self,
                ).scrapbook_opponent.killed_planes
                &&& final(self).scrapbook_opponent.previous_error_message == old(
                    self,
                ).scrapbook_opponent.previous_error_message
                &&& r.0 is Hit ==> (final(self).scrapbook_opponent.hits@ == old(
                    self,
                ).scrapbook_opponent.hits@.push(tile) && final(self).scrapbook_opponent.misses
                    == old(self).scrapbook_opponent.misses && final(self).scrapbook_opponent.kills
                    == old(self).scrapbook_opponent.kills)
                &&& r.0 is Miss ==> (final(self).scrapbook_opponent.misses@ == old(
                    self,
                ).scrapbook_opponent.misses@.push(tile) && final(self).scrapbook_opponent.hits
                    == old(self).scrapbook_opponent.hits && final(self).scrapbook_opponent.kills
                    == old(self).scrapbook_opponent.kills)
                &&& r.0 is Kill ==> (final(self).scrapbook_opponent.kills@ == old(
                    self,
                ).scrapbook_opponent.kills@.push(tile) && final(self).scrapbook_opponent.hits
                    == old(self).scrapbook_opponent.hits && final(self).scrapbook_opponent.misses
                    == old(self).scrapbook_opponent.misses)
            },
    {
        if self.scrapbook_opponent.empty_indices.len() == 0 {
            return (BombardmentResult::Retry, None);
        }
        let wanted: usize = random_below(self.scrapbook_opponent.empty_indices.len());
        let tile_num: usize = self.scrapbook_opponent.empty_indices[wanted];
        proof {
            assert(old(self).scrapbook_opponent.empty_indices@.contains(tile_num));
        }
        remove_value(&mut self.scrapbook_opponent.empty_indices, tile_num);
        proof {
            assert forall|i2: int|
                0 <= i2 < self.scrapbook_opponent.empty_indices@.len() implies #[trigger] self.scrapbook_opponent.empty_indices@[i2]
                < 100 by {
                let y = self.scrapbook_opponent.empty_indices@[i2];
                assert(self.scrapbook_opponent.empty_indices@.contains(y));
                assert(old(self).scrapbook_opponent.empty_indices@.contains(y));
                let j = choose|j: int|
                    0 <= j < old(self).scrapbook_opponent.empty_indices@.len() && old(
                        self,
                    ).scrapbook_opponent.empty_indices@[j] == y;
                assert(old(self).scrapbook_opponent.empty_indices@[j] < 100);
            }
        }
        let tile = Coordinate::new_from_usize(tile_num);
        let result = self.board_you.hit_at(tile);
        match result {
            BombardmentResult::Hit => {
                self.scrapbook_opponent.hits.push(tile);
            },
            BombardmentResult::Miss => {
                self.scrapbook_opponent.misses.push(tile);
            },
            BombardmentResult::Kill => {
                self.scrapbook_opponent.kills.push(tile);
            },
            BombardmentResult::Retry => {},
        }
        (result, Some(tile))
    }
}

/// Sampling without replacement: once the opponent has targeted a cell,
/// that cell is out of the never-targeted set, so the next draw from it is
/// a different cell.
pub proof fn lemma_without_replacement(
    before: Board,
    after: Board,
    first: Coordinate,
    second: Coordinate,
)
    requires
        forall|y: usize|
            #[trigger] after.empty_indices@.contains(y) <==> (before.empty_indices@.contains(y)
                && y as int != first.idx()),
        after.empty_indices@.contains(second.idx() as usize),
    ensures
        first != second,
{
    assert(0 <= second.idx() < 100);
    assert(second.idx() as usize as int == second.idx());
    assert(second.idx() != first.idx());
}

} // verus!
