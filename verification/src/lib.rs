//! Core engine for a Battleship-like game played with plane-shaped ships on a
//! 10x10 grid: coordinates, plane footprints, per-player boards with placement
//! validation and bombardment resolution, and the alternating-turn state
//! machine between a human player and a randomized opponent.

mod coord_letter;
pub use crate::coord_letter::CoordLetter;

mod coord_num;
pub use crate::coord_num::CoordNum;

mod coordinate;
pub use crate::coordinate::Coordinate;

mod orientation;
pub use crate::orientation::Orientation;

mod plane;
pub use crate::plane::Plane;
pub use crate::plane::PlanePositionIterator;
pub use crate::plane::TileIterator;

mod bombardment_result;
pub use crate::bombardment_result::BombardmentResult;

mod board;
pub use crate::board::Board;

mod game_play;
pub use crate::game_play::GamePlay;

mod game;
pub use crate::game::Game;
pub use crate::game::lemma_without_replacement;

mod rng;
