use crate::agent::Agent;
use crate::game::{lemma_moves_are_legal, lemma_turn_has_moves, Board, Position};
use vstd::prelude::*;

verus! {

/// Relies on rand::random: a usize drawn from the thread's generator; nothing
/// is known of its value.
#[verifier::external_body]
fn random_usize() -> usize {
    rand::random::<usize>()
}

/// Makes random moves.
pub struct RandomAgent;

/// Another name for the random strategy.
pub type SillyAgent = RandomAgent;

impl RandomAgent {
    /// The move that the number `r` selects among `moves`, or `None` when there is none.
    pub fn pick(moves: &Vec<Position>, r: usize) -> (m: Option<Position>)
        ensures
            moves@.len() == 0 ==> m is None,
            moves@.len() > 0 ==> m == Some(moves@[r as int % moves@.len() as int]),
    {
        if moves.len() == 0 {
            None
        } else {
            Some(moves[r % moves.len()])
        }
    }
}

impl Agent for RandomAgent {
    /// Any move among the empty cells; `None` only when there is none.
    open spec fn allows(&self, board: Board, m: Option<Position>) -> bool {
        &&& m is None <==> board.spec_moves().len() == 0
        &&& m is Some ==> board.spec_moves().contains(m.unwrap())
    }

    fn next_move(&self, board: &Board) -> (r: Option<Position>) {
        let positions = board.available_moves();
        let n = random_usize();
        let m = Self::pick(&positions, n);
        proof {
            if m is Some {
                let k = n as int % positions@.len() as int;
                assert(positions@[k] == m.unwrap());
                assert(board.spec_moves().contains(m.unwrap()));
                lemma_moves_are_legal(board);
            }
            if board.spec_state() is TurnOf {
                lemma_turn_has_moves(board);
            }
        }
        m
    }
}

} // verus!
