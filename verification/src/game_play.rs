//! The turn-phase state machine: who acts next, from placement through
//! alternating bombardment to one of the two terminal victory states.

use vstd::prelude::*;

use crate::rng::random_bool;

verus! {

#[derive(Clone, Copy, Debug, PartialEq, Eq, Structural)]
pub enum GamePlay {
    YouPlaceNewPlane,
    OpponentPlacesNewPlane,
    YouBombard,
    OpponentBombards,
    YouWon,
    OpponentWon,
}

impl GamePlay {
    /// One of the two placement states, chosen at random, so either side
    /// may open the match.
    pub fn new_random_state() -> (r: GamePlay)
        ensures
            r is YouPlaceNewPlane || r is OpponentPlacesNewPlane,
    {
        if random_bool() {
            GamePlay::YouPlaceNewPlane
        } else {
            GamePlay::OpponentPlacesNewPlane
        }
    }
}

} // verus!
