//! The outcome of targeting one cell: a body cell gives `Hit`, a head gives
//! `Kill`, anything else `Miss`. `Retry` is reserved for bombardment calls
//! whose target text did not parse; it does not consume a turn.

use vstd::prelude::*;

verus! {

#[derive(Clone, Copy, Debug, PartialEq, Eq, Structural)]
pub enum BombardmentResult {
    Hit,
    Miss,
    Kill,
    Retry,
}

impl BombardmentResult {
    /// Whether the shot damaged a plane: true for `Hit` and `Kill`, false
    /// for `Miss` and `Retry`.
    pub fn into_bool(self) -> (r: bool)
        ensures
            r == (self is Hit || self is Kill),
    {
        match self {
            BombardmentResult::Retry => false,
            BombardmentResult::Miss => false,
            BombardmentResult::Hit => true,
            BombardmentResult::Kill => true,
        }
    }
}

} // verus!
