use crate::game::{Board, Position};
use vstd::prelude::*;

pub mod human;
pub mod minimax;
pub mod random;

pub use human::HumanAgent;
pub use minimax::MinimaxAgent;
pub use random::RandomAgent;
pub use random::SillyAgent;

verus! {

/// A strategy that picks the next move of a game.
pub trait Agent {
    /// The answers that this agent may give on `board`.
    spec fn allows(&self, board: Board, m: Option<Position>) -> bool;

    /// A legal move for the player to move, or `None` when the board is over.
    fn next_move(&self, board: &Board) -> (r: Option<Position>)
        ensures
            self.allows(*board, r),
            r.is_some() ==> board.is_legal(r.unwrap()),
            board.spec_state() is TurnOf ==> r.is_some(),
    ;
}

} // verus!
