//! The game addressed by column and row, each from 0 to 2, or by the
//! zero-based index of a cell; the rules are those of `game::Board`.

use crate::game;
use crate::game::Position;
use vstd::prelude::*;
use vstd::string::StringExecFns;

verus! {

#[derive(Debug, PartialEq, Eq, Clone, Copy, Structural)]
pub enum Player {
    X,
    O,
}

#[derive(Debug, PartialEq, Eq, Clone, Copy, Structural)]
pub enum State {
    Impossible,
    Tie,
    Won(Player),
    TurnOf(Player),
}

#[derive(Debug, Clone, Copy, PartialEq, Eq, Structural)]
pub enum Cell {
    Empty,
    X,
    O,
}

pub open spec fn player_from(p: game::Player) -> Player {
    match p {
        game::Player::X => Player::X,
        game::Player::O => Player::O,
    }
}

pub open spec fn state_from(s: game::State) -> State {
    match s {
        game::State::Impossible => State::Impossible,
        game::State::Tie => State::Tie,
        game::State::Won(p) => State::Won(player_from(p)),
        game::State::TurnOf(p) => State::TurnOf(player_from(p)),
    }
}

pub open spec fn cell_from(c: game::Cell) -> Cell {
    match c {
        game::Cell::Empty => Cell::Empty,
        game::Cell::Marked(game::Player::X) => Cell::X,
        game::Cell::Marked(game::Player::O) => Cell::O,
    }
}

fn convert_player(p: game::Player) -> (r: Player)
    ensures
        r == player_from(p),
{
    match p {
        game::Player::X => Player::X,
        game::Player::O => Player::O,
    }
}

fn convert_state(s: game::State) -> (r: State)
    ensures
        r == state_from(s),
{
    match s {
        game::State::Impossible => State::Impossible,
        game::State::Tie => State::Tie,
        game::State::Won(p) => State::Won(convert_player(p)),
        game::State::TurnOf(p) => State::TurnOf(convert_player(p)),
    }
}

impl Cell {
    /// The mark of `player`.
    pub fn from(player: &Player) -> (r: Self)
        ensures
            *player == Player::X ==> r == Cell::X,
            *player == Player::O ==> r == Cell::O,
    {
        match player {
            Player::X => Cell::X,
            Player::O => Cell::O,
        }
    }
}

pub open spec fn cell_char(c: game::Cell) -> char {
    match c {
        game::Cell::Empty => '.',
        game::Cell::Marked(game::Player::X) => 'X',
        game::Cell::Marked(game::Player::O) => 'O',
    }
}

/// The first `n` cells as text, one character a cell and a line break after
/// each row.
pub open spec fn text_of(cells: Seq<game::Cell>, n: int) -> Seq<char>
    decreases n,
{
    if n <= 0 {
        seq![]
    } else {
        let s = text_of(cells, n - 1).push(cell_char(cells[n - 1]));
        if (n - 1) % 3 == 2 {
            s.push('\n')
        } else {
            s
        }
    }
}

pub struct TicTacToe {
    board: game::Board,
}

impl View for TicTacToe {
    type V = Seq<game::Cell>;

    closed spec fn view(&self) -> Seq<game::Cell> {
        self.board@
    }
}

impl TicTacToe {
    /// The game has nine cells.
    pub proof fn lemma_len(&self)
        ensures
            self@.len() == 9,
    {
        self.board.lemma_len();
    }

    pub open spec fn spec_state(&self) -> State {
        state_from(game::state_of(self@))
    }

    pub fn new() -> (r: Self)
        ensures
            r@.len() == 9,
            forall|i: int| 0 <= i < 9 ==> r@[i] == game::Cell::Empty,
            r.spec_state() == State::TurnOf(Player::X),
    {
        let board = game::Board::new();
        proof {
            board.lemma_len();
        }
        TicTacToe { board }
    }

    pub fn state(&self) -> (r: State)
        ensures
            r == self.spec_state(),
    {
        convert_state(self.board.state())
    }

    /// The cell at the zero-based index `idx`.
    pub fn cell_at(&self, idx: usize) -> (r: Cell)
        requires
            idx < 9,
        ensures
            r == cell_from(self@[idx as int]),
    {
        match self.board.get(Position::from_idx(idx)) {
            game::Cell::Empty => Cell::Empty,
            game::Cell::Marked(game::Player::X) => Cell::X,
            game::Cell::Marked(game::Player::O) => Cell::O,
        }
    }

    /// Make a turn for the next player at column `col` and row `row`.
    pub fn turn(&mut self, col: usize, row: usize) -> (r: bool)
        requires
            row * 3 + col < 9,
            game::state_of(old(self)@) is TurnOf,
        ensures
            r == (old(self)@[row * 3 + col] == game::Cell::Empty),
            r ==> final(self)@ == old(self)@.update(
                row * 3 + col,
                game::Cell::Marked(game::state_of(old(self)@)->TurnOf_0),
            ),
            !r ==> final(self)@ == old(self)@,
    {
        self.turn_idx(Self::idx(col, row))
    }

    /// Make a turn for the next player using array index for locating the cell.
    pub fn turn_idx(&mut self, idx: usize) -> (r: bool)
        requires
            idx < 9,
            game::state_of(old(self)@) is TurnOf,
        ensures
            r == (old(self)@[idx as int] == game::Cell::Empty),
            r ==> final(self)@ == old(self)@.update(
                idx as int,
                game::Cell::Marked(game::state_of(old(self)@)->TurnOf_0),
            ),
            !r ==> final(self)@ == old(self)@,
    {
        self.board.turn(Position::from_idx(idx))
    }

    /// Zero-based indices of the empty cells, in ascending order.
    pub fn available_moves_idx(&self) -> (r: Vec<usize>)
        ensures
            r@ == game::empty_positions(self@, 9).map_values(|p: Position| (p.0 - 1) as usize),
    {
        let moves = self.board.available_moves();
        proof {
            game::lemma_moves_are_legal(&self.board);
        }
        let mut r: Vec<usize> = Vec::new();
        let mut k: usize = 0;
        while k < moves.len()
            invariant
                k <= moves@.len(),
                moves@ == self.board.spec_moves(),
                forall|j: int| 0 <= j < moves@.len() ==> (#[trigger] moves@[j]).0 >= 1,
                r@.len() == k,
                forall|j: int| 0 <= j < k ==> r@[j] == (#[trigger] moves@[j]).0 - 1,
            decreases moves@.len() - k,
        {
            r.push(moves[k].as_idx());
            k = k + 1;
        }
        assert(r@ =~= moves@.map_values(|p: Position| (p.0 - 1) as usize));
        r
    }

    /// The board as three lines of text: `.` for an empty cell, else the mark.
    pub fn to_text(&self) -> (r: String)
        ensures
            r@ == text_of(self@, 9),
    {
        let mut text = String::new();
        let mut i: usize = 0;
        while i < 9
            invariant
                i <= 9,
                text@ == text_of(self@, i as int),
            decreases 9 - i,
        {
            let ghost before = text@;
            match self.board.get(Position::from_idx(i)) {
                game::Cell::Empty => {
                    text.append(".");
                    proof {
                        reveal_strlit(".");
                    }
                },
                game::Cell::Marked(game::Player::X) => {
                    text.append("X");
                    proof {
                        reveal_strlit("X");
                    }
                },
                game::Cell::Marked(game::Player::O) => {
                    text.append("O");
                    proof {
                        reveal_strlit("O");
                    }
                },
            }
            assert(text@ =~= before.push(cell_char(self@[i as int])));
            if i % 3 == 2 {
                let ghost row = text@;
                text.append("\n");
                proof {
                    reveal_strlit("\n");
                }
                assert(text@ =~= row.push('\n'));
            }
            i = i + 1;
        }
        text
    }

    fn idx(col: usize, row: usize) -> (r: usize)
        requires
            row * 3 + col < 9,
        ensures
            r == row * 3 + col,
    {
        row * 3 + col
    }
}

} // verus!
