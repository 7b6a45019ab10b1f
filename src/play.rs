use crate::agent::{Agent, RandomAgent};
use crate::game::{
    count, lemma_mark_empty_cell, lemma_turn_keeps_counts, Board, Cell, Player, Position, State,
};
use vstd::prelude::*;

verus! {

/// Somebody has won, or the board is full.
pub open spec fn is_terminal(s: State) -> bool {
    s is Won || s is Tie
}

/// `after` keeps every mark of `before`.
pub open spec fn extends(before: Seq<Cell>, after: Seq<Cell>) -> bool {
    forall|i: int| 0 <= i < 9 && before[i] != Cell::Empty ==> after[i] == before[i]
}

/// `after` is `before` with the empty cell `pos` marked for the player to
/// move, and `pos` is an answer that the agent of that player allows on `before`.
pub open spec fn agent_turn<A: Agent, B: Agent>(
    player_x: &A,
    player_o: &B,
    before: Board,
    after: Board,
    pos: Position,
) -> bool {
    &&& before.spec_state() is TurnOf
    &&& before.is_legal(pos)
    &&& after@ == before@.update(pos.0 - 1, Cell::Marked(before.spec_state()->TurnOf_0))
    &&& match before.spec_state()->TurnOf_0 {
        Player::X => player_x.allows(before, Some(pos)),
        Player::O => player_o.allows(before, Some(pos)),
    }
}

/// `after` follows from `before` by one turn of the agent of the player to move.
pub open spec fn step<A: Agent, B: Agent>(
    player_x: &A,
    player_o: &B,
    before: Board,
    after: Board,
) -> bool {
    exists|pos: Position| agent_turn(player_x, player_o, before, after, pos)
}

/// `boards` is a game played by the two agents: each board after the first
/// follows from the one before by a turn of the agent of the player to move.
pub open spec fn played_by<A: Agent, B: Agent>(
    player_x: &A,
    player_o: &B,
    boards: Seq<Board>,
) -> bool {
    forall|k: int|
        0 <= k < boards.len() - 1 ==> #[trigger] step(player_x, player_o, boards[k], boards[k + 1])
}

proof fn lemma_played_by_push<A: Agent, B: Agent>(
    player_x: &A,
    player_o: &B,
    boards: Seq<Board>,
    next: Board,
)
    requires
        boards.len() >= 1,
        played_by(player_x, player_o, boards),
        step(player_x, player_o, boards.last(), next),
    ensures
        played_by(player_x, player_o, boards.push(next)),
{
    let longer = boards.push(next);
    assert forall|k: int| 0 <= k < longer.len() - 1 implies #[trigger] step(
        player_x,
        player_o,
        longer[k],
        longer[k + 1],
    ) by {
        if k < boards.len() - 1 {
            assert(longer[k] == boards[k] && longer[k + 1] == boards[k + 1]);
            assert(step(player_x, player_o, boards[k], boards[k + 1]));
        } else {
            assert(longer[k] == boards.last() && longer[k + 1] == next);
        }
    }
}

/// Lets the agent of the player to move make one mark, and returns the new state.
pub fn play_turn<A: Agent, B: Agent>(board: &mut Board, player_x: &A, player_o: &B) -> (r: State)
    requires
        old(board).spec_state() is TurnOf,
    ensures
        r == final(board).spec_state(),
        r != State::Impossible,
        extends(old(board)@, final(board)@),
        count(final(board)@, Cell::Empty) == count(old(board)@, Cell::Empty) - 1,
        step(player_x, player_o, *old(board), *final(board)),
{
    proof {
        board.lemma_len();
    }
    let player = match board.state() {
        State::TurnOf(p) => p,
        // not reached: a player is to move
        _ => Player::X,
    };
    let mv = match player {
        Player::X => player_x.next_move(board),
        Player::O => player_o.next_move(board),
    };
    if let Some(pos) = mv {
        let ghost before = *board;
        board.turn(pos);
        proof {
            lemma_mark_empty_cell(before@, pos.0 - 1, player);
            lemma_turn_keeps_counts(before@, pos.0 - 1);
            assert(agent_turn(player_x, player_o, before, *board, pos));
        }
    }
    board.state()
}

/// Plays the game out, each player's mark chosen by its agent, and returns
/// the final state. A finished board is returned as it is.
pub fn play<A: Agent, B: Agent>(board: &mut Board, player_x: &A, player_o: &B) -> (r: State)
    requires
        old(board).spec_state() != State::Impossible,
    ensures
        r == final(board).spec_state(),
        is_terminal(r),
        extends(old(board)@, final(board)@),
        is_terminal(old(board).spec_state()) ==> *final(board) == *old(board),
        exists|boards: Seq<Board>|
            {
                &&& boards.len() >= 1
                &&& boards[0] == *old(board)
                &&& boards.last() == *final(board)
                &&& #[trigger] played_by(player_x, player_o, boards)
            },
{
    let ghost mut boards: Seq<Board> = seq![*board];
    loop
        invariant
            board.spec_state() != State::Impossible,
            extends(old(board)@, board@),
            is_terminal(old(board).spec_state()) ==> *board == *old(board),
            boards.len() >= 1,
            boards[0] == *old(board),
            boards.last() == *board,
            played_by(player_x, player_o, boards),
        decreases count(board@, Cell::Empty),
    {
        let s = board.state();
        match s {
            State::TurnOf(_) => {
                play_turn(board, player_x, player_o);
                proof {
                    lemma_played_by_push(player_x, player_o, boards, *board);
                    boards = boards.push(*board);
                }
            },
            _ => {
                assert(played_by(player_x, player_o, boards));
                return s;
            },
        }
    }
}

/// `s` is how some game played by the two agents from the empty board ends.
pub open spec fn game_outcome<A: Agent, B: Agent>(player_x: &A, player_o: &B, s: State) -> bool {
    exists|boards: Seq<Board>|
        {
            &&& boards.len() >= 1
            &&& forall|i: int| 0 <= i < 9 ==> boards[0]@[i] == Cell::Empty
            &&& #[trigger] played_by(player_x, player_o, boards)
            &&& boards.last().spec_state() == s
            &&& is_terminal(s)
        }
}

/// How often `s` occurs in `finals`.
pub open spec fn occurrences(finals: Seq<State>, s: State) -> nat
    decreases finals.len(),
{
    if finals.len() == 0 {
        0
    } else {
        occurrences(finals.drop_last(), s) + if finals.last() == s {
            1nat
        } else {
            0nat
        }
    }
}

/// How many games ended in each terminal state.
#[derive(Debug, Clone, Copy, PartialEq, Eq)]
pub struct GameStats {
    pub ties: usize,
    pub x_wins: usize,
    pub o_wins: usize,
}

impl GameStats {
    pub open spec fn total(self) -> int {
        self.ties + self.x_wins + self.o_wins
    }

    /// The number of games that ended in `s`; none ends in a state that is not terminal.
    pub open spec fn spec_count(self, s: State) -> nat {
        match s {
            State::Tie => self.ties as nat,
            State::Won(Player::X) => self.x_wins as nat,
            State::Won(Player::O) => self.o_wins as nat,
            _ => 0,
        }
    }

    /// The states that occurred with their counts, in the order of `State`.
    pub open spec fn spec_entries(self) -> Seq<(State, usize)> {
        let ties = if self.ties > 0 {
            seq![(State::Tie, self.ties)]
        } else {
            seq![]
        };
        let x_wins = if self.x_wins > 0 {
            seq![(State::Won(Player::X), self.x_wins)]
        } else {
            seq![]
        };
        let o_wins = if self.o_wins > 0 {
            seq![(State::Won(Player::O), self.o_wins)]
        } else {
            seq![]
        };
        ties + x_wins + o_wins
    }

    pub fn new() -> (r: Self)
        ensures
            r.ties == 0 && r.x_wins == 0 && r.o_wins == 0,
    {
        GameStats { ties: 0, x_wins: 0, o_wins: 0 }
    }

    /// Counts one more game that ended in `s`.
    pub fn record(&mut self, s: State)
        requires
            is_terminal(s),
            old(self).total() < usize::MAX,
        ensures
            final(self).total() == old(self).total() + 1,
            forall|t: State| #[trigger]
                final(self).spec_count(t) == old(self).spec_count(t) + if t == s {
                    1int
                } else {
                    0int
                },
    {
        match s {
            State::Won(Player::X) => {
                self.x_wins = self.x_wins + 1;
            },
            State::Won(Player::O) => {
                self.o_wins = self.o_wins + 1;
            },
            _ => {
                self.ties = self.ties + 1;
            },
        }
    }

    pub fn count(&self, s: State) -> (r: usize)
        ensures
            r == self.spec_count(s),
    {
        match s {
            State::Tie => self.ties,
            State::Won(Player::X) => self.x_wins,
            State::Won(Player::O) => self.o_wins,
            _ => 0,
        }
    }

    /// The states that occurred with their counts, in the order of `State`.
    pub fn entries(&self) -> (r: Vec<(State, usize)>)
        ensures
            r@ == self.spec_entries(),
    {
        let mut r: Vec<(State, usize)> = Vec::new();
        if self.ties > 0 {
            r.push((State::Tie, self.ties));
        }
        if self.x_wins > 0 {
            r.push((State::Won(Player::X), self.x_wins));
        }
        if self.o_wins > 0 {
            r.push((State::Won(Player::O), self.o_wins));
        }
        assert(r@ =~= self.spec_entries());
        r
    }
}

/// Plays `iterations` games from the empty board between the same two
/// agents, and counts how each ended.
pub fn run_stats<A: Agent, B: Agent>(iterations: usize, player_x: &A, player_o: &B) -> (r:
    GameStats)
    ensures
        r.total() == iterations,
        forall|s: State| !is_terminal(s) ==> #[trigger] r.spec_count(s) == 0,
        exists|finals: Seq<State>|
            {
                &&& finals.len() == iterations
                &&& forall|k: int|
                    0 <= k < finals.len() ==> game_outcome(player_x, player_o, #[trigger] finals[k])
                &&& forall|s: State| #[trigger] r.spec_count(s) == occurrences(finals, s)
            },
{
    let mut results = GameStats::new();
    let mut i: usize = 0;
    let ghost mut finals: Seq<State> = seq![];
    while i < iterations
        invariant
            i <= iterations,
            results.total() == i,
            finals.len() == i,
            forall|k: int|
                0 <= k < finals.len() ==> game_outcome(player_x, player_o, #[trigger] finals[k]),
            forall|s: State| #[trigger] results.spec_count(s) == occurrences(finals, s),
        decreases iterations - i,
    {
        let mut board = Board::new();
        let state = play(&mut board, player_x, player_o);
        assert(game_outcome(player_x, player_o, state));
        results.record(state);
        proof {
            let longer = finals.push(state);
            assert(longer.drop_last() =~= finals);
            assert forall|s: State| #[trigger]
                results.spec_count(s) == occurrences(longer, s) by {
                assert(occurrences(longer, s) == occurrences(finals, s) + if state == s {
                    1nat
                } else {
                    0nat
                });
            }
            finals = longer;
        }
        i = i + 1;
    }
    results
}

/// Plays `iterations` games between two random agents, and counts how each ended.
pub fn game_stats(iterations: usize) -> (r: GameStats)
    ensures
        r.total() == iterations,
        forall|s: State| !is_terminal(s) ==> #[trigger] r.spec_count(s) == 0,
        exists|finals: Seq<State>|
            {
                &&& finals.len() == iterations
                &&& forall|k: int|
                    0 <= k < finals.len() ==> game_outcome(
                        &RandomAgent,
                        &RandomAgent,
                        #[trigger] finals[k],
                    )
                &&& forall|s: State| #[trigger] r.spec_count(s) == occurrences(finals, s)
            },
{
    run_stats(iterations, &RandomAgent, &RandomAgent)
}

} // verus!
