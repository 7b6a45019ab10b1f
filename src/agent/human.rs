use crate::game::{Board, Cell, Position};
use vstd::prelude::*;

verus! {

/// A player at the keyboard. Reading the input is left to the caller; this
/// type decides which input stands for a move.
pub struct HumanAgent;

impl HumanAgent {
    /// The move that the number `input` names, if that cell is free.
    pub fn accept(board: &Board, input: usize) -> (r: Option<Position>)
        ensures
            r is Some <==> board.is_legal(Position(input)),
            r is Some ==> r == Some(Position(input)),
    {
        if 1 <= input && input <= 9 && board.get(Position(input)) == Cell::Empty {
            Some(Position(input))
        } else {
            None
        }
    }
}

} // verus!
