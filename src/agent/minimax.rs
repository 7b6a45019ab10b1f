use crate::agent::Agent;
use crate::game::{count, lemma_mark_empty_cell, state_of, to_move, Board, Cell, Player, Position, State};
use vstd::prelude::*;

verus! {

/// The score of `cells` for the player to move, given the best score
/// `best` that this player can reach with one mark: 1 for a win, 0 for a
/// tie, -1 for a loss.
#[verifier::opaque]
pub open spec fn score_of(cells: Seq<Cell>, best: int) -> int {
    match state_of(cells) {
        State::Won(w) => if w == to_move(cells) {
            1
        } else {
            -1
        },
        State::TurnOf(_) => best,
        _ => 0,
    }
}

/// The best score that `p` can reach by marking one of the first `k` cells,
/// with the zero-based index of the first cell that reaches it; `(-2, -1)`
/// when none of them is empty. Each reply is scored by optimal play in turn;
/// `d` bounds the depth of the search and is the number of empty cells.
#[verifier::opaque]
pub open spec fn best_choice(cells: Seq<Cell>, p: Player, k: nat, d: nat) -> (int, int)
    decreases d, k,
{
    if k == 0 || k > 9 || d == 0 {
        (-2, -1)
    } else {
        let prev = best_choice(cells, p, (k - 1) as nat, d);
        let i = k - 1;
        if cells[i] == Cell::Empty {
            let child = cells.update(i, Cell::Marked(p));
            let reply = best_choice(child, to_move(child), 9, (d - 1) as nat).0;
            let s = -score_of(child, reply);
            if s > prev.0 {
                (s, i)
            } else {
                prev
            }
        } else {
            prev
        }
    }
}

/// The best mark for `p` on `cells`, searched to the end of the game.
pub open spec fn best_of(cells: Seq<Cell>, p: Player, k: nat) -> (int, int) {
    best_choice(cells, p, k, count(cells, Cell::Empty))
}

/// The outcome of optimal play from `cells` for the player to move:
/// 1 for a win, 0 for a tie, -1 for a loss.
pub open spec fn value(cells: Seq<Cell>) -> int {
    score_of(cells, best_of(cells, to_move(cells), 9).0)
}

proof fn lemma_best_choice_none(cells: Seq<Cell>, p: Player)
    ensures
        best_of(cells, p, 0) == (-2int, -1int),
{
    reveal_with_fuel(best_choice, 1);
}

proof fn lemma_best_choice_step(cells: Seq<Cell>, p: Player, k: nat)
    requires
        cells.len() == 9,
        1 <= k <= 9,
        count(cells, Cell::Empty) > 0,
    ensures
        best_of(cells, p, k) == {
            let prev = best_of(cells, p, (k - 1) as nat);
            let i = k - 1;
            if cells[i] == Cell::Empty {
                let s = -value(cells.update(i, Cell::Marked(p)));
                if s > prev.0 {
                    (s, i)
                } else {
                    prev
                }
            } else {
                prev
            }
        },
{
    reveal_with_fuel(best_choice, 1);
    let i = k - 1;
    if cells[i] == Cell::Empty {
        let child = cells.update(i, Cell::Marked(p));
        lemma_mark_empty_cell(cells, i as int, p);
    }
}

/// The move that exhaustive search picks: the first in ascending order among
/// those with the best score; `None` where nobody is to move.
#[verifier::opaque]
pub open spec fn minimax_move(cells: Seq<Cell>) -> Option<Position> {
    match state_of(cells) {
        State::TurnOf(p) => Some(Position((best_of(cells, p, 9).1 + 1) as usize)),
        _ => None,
    }
}

/// Plays by exhaustive adversarial search.
pub struct MinimaxAgent;

impl MinimaxAgent {
    /// Score and move of optimal play from `board`.
    fn search(board: &Board) -> (r: (i8, Option<Position>))
        ensures
            r.0 == value(board@),
            -1 <= r.0 <= 1,
            r.1 == minimax_move(board@),
            r.1.is_some() ==> board.is_legal(r.1.unwrap()),
            board.spec_state() is TurnOf ==> r.1.is_some(),
        decreases count(board@, Cell::Empty),
    {
        proof {
            board.lemma_len();
        }
        match board.state() {
            State::Won(w) => {
                proof {
                    reveal(score_of);
                    reveal(minimax_move);
                }
                let s: i8 = if w == board.next_player() {
                    1
                } else {
                    -1
                };
                (s, None)
            },
            State::TurnOf(p) => {
                let mut best: i8 = -2;
                let mut choice: Option<usize> = None;
                let mut i: usize = 0;
                proof {
                    reveal(score_of);
                    reveal(minimax_move);
                    lemma_best_choice_none(board@, p);
                    let k = choose|k: int| 0 <= k < 9 && board@[k] == Cell::Empty;
                    assert(board@[k] == Cell::Empty);
                }
                while i < 9
                    invariant
                        i <= 9,
                        board@.len() == 9,
                        value(board@) == best_of(board@, p, 9).0,
                        minimax_move(board@) == Some(
                            Position((best_of(board@, p, 9).1 + 1) as usize),
                        ),
                        exists|k: int| 0 <= k < 9 && board@[k] == Cell::Empty,
                        count(board@, Cell::Empty) > 0,
                        best_of(board@, p, i as nat).0 == best as int,
                        best_of(board@, p, i as nat).1 == match choice {
                            Some(j) => j as int,
                            None => -1,
                        },
                        choice is None <==> best == -2,
                        choice is Some ==> choice.unwrap() < 9 && board@[choice.unwrap() as int]
                            == Cell::Empty,
                        -2 <= best <= 1,
                        (exists|j: int| 0 <= j < i && board@[j] == Cell::Empty) ==> best >= -1,
                    decreases 9 - i,
                {
                    proof {
                        lemma_best_choice_step(board@, p, (i + 1) as nat);
                    }
                    let pos = Position::from_idx(i);
                    if board.get(pos) == Cell::Empty {
                        let mut child = *board;
                        child.set(pos, Cell::Marked(p));
                        let (v, _) = Self::search(&child);
                        let s: i8 = -v;
                        if s > best {
                            best = s;
                            choice = Some(i);
                        }
                    }
                    i = i + 1;
                }
                let j = choice.unwrap();
                (best, Some(Position::from_idx(j)))
            },
            _ => {
                proof {
                    reveal(score_of);
                    reveal(minimax_move);
                }
                (0, None)
            },
        }
    }

    /// The move of optimal play, the first in ascending order among equally good ones.
    pub fn best_move(board: &Board) -> (r: Option<Position>)
        ensures
            r == minimax_move(board@),
            r.is_some() ==> board.is_legal(r.unwrap()),
            board.spec_state() is TurnOf ==> r.is_some(),
    {
        let (_, m) = Self::search(board);
        m
    }
}

impl Agent for MinimaxAgent {
    /// Only the move of exhaustive search.
    open spec fn allows(&self, board: Board, m: Option<Position>) -> bool {
        m == minimax_move(board@)
    }

    fn next_move(&self, board: &Board) -> (r: Option<Position>) {
        Self::best_move(board)
    }
}

} // verus!
