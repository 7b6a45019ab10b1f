use vstd::prelude::*;

verus! {

/// A cell of the board, numbered 1 to 9 in row-major order from the top left corner.
#[derive(Debug, PartialEq, Eq, Clone, Copy, Structural)]
pub struct Position(pub usize);

impl Position {
    /// The position names one of the nine cells.
    pub open spec fn valid(self) -> bool {
        1 <= self.0 <= 9
    }

    /// Zero-based index of this position.
    pub fn as_idx(&self) -> (r: usize)
        requires
            self.0 >= 1,
        ensures
            r == self.0 - 1,
    {
        self.0 - 1
    }

    /// Position of the cell at the zero-based index `idx`.
    pub fn from_idx(idx: usize) -> (r: Self)
        requires
            idx < usize::MAX,
        ensures
            r.0 == idx + 1,
    {
        Position(idx + 1)
    }
}

#[derive(Debug, PartialEq, Eq, Clone, Copy, Hash, PartialOrd, Ord, Structural)]
pub enum Player {
    X,
    O,
}

impl Player {
    pub open spec fn opponent(self) -> Player {
        match self {
            Player::X => Player::O,
            Player::O => Player::X,
        }
    }
}

#[derive(Debug, PartialEq, Eq, Clone, Copy, Hash, PartialOrd, Ord, Structural)]
pub enum State {
    Impossible,
    Tie,
    Won(Player),
    TurnOf(Player),
}

#[derive(Debug, Clone, Copy, PartialEq, Eq, Structural)]
pub enum Cell {
    Empty,
    Marked(Player),
}

pub open spec fn indicator(b: bool) -> nat {
    if b {
        1
    } else {
        0
    }
}

/// Number of the nine cells that hold `c`.
pub open spec fn count(cells: Seq<Cell>, c: Cell) -> nat {
    indicator(cells[0] == c) + indicator(cells[1] == c) + indicator(cells[2] == c)
        + indicator(cells[3] == c) + indicator(cells[4] == c) + indicator(cells[5] == c)
        + indicator(cells[6] == c) + indicator(cells[7] == c) + indicator(cells[8] == c)
}

/// Number of the first `n` cells that hold `c`.
pub open spec fn count_prefix(cells: Seq<Cell>, c: Cell, n: int) -> nat
    decreases n,
{
    if n <= 0 {
        0
    } else {
        count_prefix(cells, c, n - 1) + indicator(cells[n - 1] == c)
    }
}

pub proof fn lemma_count_prefix_full(cells: Seq<Cell>, c: Cell)
    ensures
        count_prefix(cells, c, 9) == count(cells, c),
{
    reveal_with_fuel(count_prefix, 10);
}

/// Zero-based indices of the cells of the `t`-th winning line:
/// three rows, three columns, two diagonals.
pub open spec fn triplet(t: int) -> (int, int, int) {
    if t == 0 {
        (0, 1, 2)
    } else if t == 1 {
        (3, 4, 5)
    } else if t == 2 {
        (6, 7, 8)
    } else if t == 3 {
        (0, 3, 6)
    } else if t == 4 {
        (1, 4, 7)
    } else if t == 5 {
        (2, 5, 8)
    } else if t == 6 {
        (0, 4, 8)
    } else {
        (2, 4, 6)
    }
}

/// All three cells of the `t`-th line are marked by `p`.
pub open spec fn line_complete(cells: Seq<Cell>, t: int, p: Player) -> bool {
    &&& cells[triplet(t).0] == Cell::Marked(p)
    &&& cells[triplet(t).1] == Cell::Marked(p)
    &&& cells[triplet(t).2] == Cell::Marked(p)
}

pub open spec fn wins(cells: Seq<Cell>, p: Player) -> bool {
    exists|t: int| 0 <= t < 8 && #[trigger] line_complete(cells, t, p)
}

pub open spec fn full(cells: Seq<Cell>) -> bool {
    forall|i: int| 0 <= i < 9 ==> cells[i] != Cell::Empty
}

/// The player whose mark comes next, judging by the number of marks alone.
#[verifier::opaque]
pub open spec fn to_move(cells: Seq<Cell>) -> Player {
    if count(cells, Cell::Marked(Player::X)) == count(cells, Cell::Marked(Player::O)) {
        Player::X
    } else {
        Player::O
    }
}

/// X moves first and the players alternate, so X has as many marks as O or one more.
pub open spec fn counts_ok(cells: Seq<Cell>) -> bool {
    let xc = count(cells, Cell::Marked(Player::X));
    let oc = count(cells, Cell::Marked(Player::O));
    xc == oc || xc == oc + 1
}

/// The status of the game, derived from the cells alone.
pub open spec fn state_of(cells: Seq<Cell>) -> State {
    if !counts_ok(cells) {
        State::Impossible
    } else if wins(cells, Player::X) {
        State::Won(Player::X)
    } else if wins(cells, Player::O) {
        State::Won(Player::O)
    } else if full(cells) {
        State::Tie
    } else {
        State::TurnOf(to_move(cells))
    }
}

/// Positions of the empty cells among the first `n`, in ascending order.
pub open spec fn empty_positions(cells: Seq<Cell>, n: int) -> Seq<Position>
    decreases n,
{
    if n <= 0 {
        seq![]
    } else if cells[n - 1] == Cell::Empty {
        empty_positions(cells, n - 1).push(Position(n as usize))
    } else {
        empty_positions(cells, n - 1)
    }
}

#[derive(Clone, Copy)]
pub struct Board([Cell; 9]);

impl View for Board {
    type V = Seq<Cell>;

    closed spec fn view(&self) -> Seq<Cell> {
        self.0@
    }
}

impl Board {
    pub proof fn lemma_len(&self)
        ensures
            self@.len() == 9,
    {
    }

    pub open spec fn spec_state(&self) -> State {
        state_of(self@)
    }

    /// `pos` names an empty cell.
    pub open spec fn is_legal(&self, pos: Position) -> bool {
        pos.valid() && self@[pos.0 - 1] == Cell::Empty
    }

    pub open spec fn spec_moves(&self) -> Seq<Position> {
        empty_positions(self@, 9)
    }

    pub fn get(&self, pos: Position) -> (r: Cell)
        requires
            pos.valid(),
        ensures
            r == self@[pos.0 - 1],
    {
        self.0[pos.as_idx()]
    }

    pub fn set(&mut self, pos: Position, cell: Cell)
        requires
            pos.valid(),
        ensures
            final(self)@ == old(self)@.update(pos.0 - 1, cell),
    {
        self.0[pos.as_idx()] = cell;
    }

    /// An empty board; X moves first.
    pub fn new() -> (r: Self)
        ensures
            forall|i: int| 0 <= i < 9 ==> r@[i] == Cell::Empty,
            r.spec_state() == State::TurnOf(Player::X),
    {
        let b = Board([Cell::Empty; 9]);
        proof {
            reveal(to_move);
        }
        assert(!wins(b@, Player::X)) by {
            if wins(b@, Player::X) {
                let t = choose|t: int| 0 <= t < 8 && #[trigger] line_complete(b@, t, Player::X);
                assert(b@[triplet(t).0] == Cell::Empty);
            }
        }
        assert(!wins(b@, Player::O)) by {
            if wins(b@, Player::O) {
                let t = choose|t: int| 0 <= t < 8 && #[trigger] line_complete(b@, t, Player::O);
                assert(b@[triplet(t).0] == Cell::Empty);
            }
        }
        assert(!full(b@)) by {
            assert(b@[0] == Cell::Empty);
        }
        b
    }

    fn count(&self, c: Cell) -> (r: usize)
        ensures
            r == count(self@, c),
    {
        let mut n: usize = 0;
        let mut i: usize = 0;
        while i < 9
            invariant
                i <= 9,
                n == count_prefix(self@, c, i as int),
                n <= i,
            decreases 9 - i,
        {
            if self.0[i] == c {
                n = n + 1;
            }
            i = i + 1;
        }
        proof {
            lemma_count_prefix_full(self@, c);
        }
        n
    }
    /// Zero-based indices of the cells of the `t`-th winning line.
    fn triplet(t: usize) -> (r: (usize, usize, usize))
        requires
            t < 8,
        ensures
            r.0 == triplet(t as int).0,
            r.1 == triplet(t as int).1,
            r.2 == triplet(t as int).2,
            r.0 < 9 && r.1 < 9 && r.2 < 9,
    {
        match t {
            0 => (0, 1, 2),
            1 => (3, 4, 5),
            2 => (6, 7, 8),
            3 => (0, 3, 6),
            4 => (1, 4, 7),
            5 => (2, 5, 8),
            6 => (0, 4, 8),
            _ => (2, 4, 6),
        }
    }

    fn has_won(&self, player: Player) -> (r: bool)
        ensures
            r == wins(self@, player),
    {
        let mark = Cell::Marked(player);
        let mut t: usize = 0;
        while t < 8
            invariant
                t <= 8,
                mark == Cell::Marked(player),
                forall|u: int| 0 <= u < t ==> !#[trigger] line_complete(self@, u, player),
            decreases 8 - t,
        {
            let (a, b, c) = Self::triplet(t);
            if self.0[a] == mark && self.0[b] == mark && self.0[c] == mark {
                assert(line_complete(self@, t as int, player));
                return true;
            }
            t = t + 1;
        }
        false
    }

    fn is_tie(&self) -> (r: bool)
        ensures
            r == full(self@),
    {
        let mut i: usize = 0;
        while i < 9
            invariant
                i <= 9,
                forall|j: int| 0 <= j < i ==> self@[j] != Cell::Empty,
            decreases 9 - i,
        {
            if self.0[i] == Cell::Empty {
                return false;
            }
            i = i + 1;
        }
        true
    }

    /// The player whose mark comes next, judging by the number of marks alone.
    pub fn next_player(&self) -> (r: Player)
        ensures
            r == to_move(self@),
    {
        proof {
            reveal(to_move);
        }
        if self.count(Cell::Marked(Player::X)) == self.count(Cell::Marked(Player::O)) {
            Player::X
        } else {
            Player::O
        }
    }

    pub fn state(&self) -> (r: State)
        ensures
            r == state_of(self@),
    {
        proof {
            reveal(to_move);
        }
        let x_count = self.count(Cell::Marked(Player::X));
        let o_count = self.count(Cell::Marked(Player::O));
        if x_count > o_count + 1 || o_count > x_count {
            State::Impossible
        } else if self.has_won(Player::X) {
            State::Won(Player::X)
        } else if self.has_won(Player::O) {
            State::Won(Player::O)
        } else if self.is_tie() {
            State::Tie
        } else if x_count == o_count {
            State::TurnOf(Player::X)
        } else {
            State::TurnOf(Player::O)
        }
    }

    /// Marks `pos` for the player whose turn it is. An occupied cell is refused
    /// with `false` and the board is left as it was.
    pub fn turn(&mut self, pos: Position) -> (r: bool)
        requires
            old(self).spec_state() is TurnOf,
            pos.valid(),
        ensures
            r == old(self).is_legal(pos),
            r ==> final(self)@ == old(self)@.update(
                pos.0 - 1,
                Cell::Marked(old(self).spec_state()->TurnOf_0),
            ),
            !r ==> final(self)@ == old(self)@,
    {
        match self.state() {
            State::TurnOf(player) => {
                let cell = self.get(pos);
                if cell != Cell::Empty {
                    false
                } else {
                    self.set(pos, Cell::Marked(player));
                    true
                }
            },
            _ => false,
        }
    }

    /// Positions of the empty cells, in ascending order.
    pub fn available_moves(&self) -> (r: Vec<Position>)
        ensures
            r@ == self.spec_moves(),
            r@.len() == 9 - count(self@, Cell::Marked(Player::X)) - count(
                self@,
                Cell::Marked(Player::O),
            ),
    {
        let mut moves: Vec<Position> = Vec::new();
        let mut i: usize = 0;
        while i < 9
            invariant
                i <= 9,
                moves@ == empty_positions(self@, i as int),
            decreases 9 - i,
        {
            if self.0[i] == Cell::Empty {
                moves.push(Position::from_idx(i));
            }
            i = i + 1;
        }
        proof {
            lemma_moves_len(self@);
        }
        moves
    }
}

pub proof fn lemma_empty_positions_len(cells: Seq<Cell>, n: int)
    ensures
        empty_positions(cells, n).len() == count_prefix(cells, Cell::Empty, n),
    decreases n,
{
    if n > 0 {
        lemma_empty_positions_len(cells, n - 1);
    }
}

/// Every cell is empty or marked by one of the players.
pub proof fn lemma_counts_sum(cells: Seq<Cell>)
    ensures
        count(cells, Cell::Empty) + count(cells, Cell::Marked(Player::X)) + count(
            cells,
            Cell::Marked(Player::O),
        ) == 9,
{
    lemma_counts_sum_prefix(cells, 9);
    lemma_count_prefix_full(cells, Cell::Empty);
    lemma_count_prefix_full(cells, Cell::Marked(Player::X));
    lemma_count_prefix_full(cells, Cell::Marked(Player::O));
}

proof fn lemma_counts_sum_prefix(cells: Seq<Cell>, n: int)
    requires
        n >= 0,
    ensures
        count_prefix(cells, Cell::Empty, n) + count_prefix(cells, Cell::Marked(Player::X), n)
            + count_prefix(cells, Cell::Marked(Player::O), n) == n,
    decreases n,
{
    if n > 0 {
        lemma_counts_sum_prefix(cells, n - 1);
        lemma_cell_kinds(cells[n - 1]);
    }
}

proof fn lemma_cell_kinds(c: Cell)
    ensures
        indicator(c == Cell::Empty) + indicator(c == Cell::Marked(Player::X)) + indicator(
            c == Cell::Marked(Player::O),
        ) == 1,
{
    match c {
        Cell::Empty => {},
        Cell::Marked(Player::X) => {},
        Cell::Marked(Player::O) => {},
    }
}

/// There are as many moves as empty cells, nine less the marks.
pub proof fn lemma_moves_len(cells: Seq<Cell>)
    ensures
        empty_positions(cells, 9).len() == count(cells, Cell::Empty),
        empty_positions(cells, 9).len() == 9 - count(cells, Cell::Marked(Player::X)) - count(
            cells,
            Cell::Marked(Player::O),
        ),
{
    lemma_empty_positions_len(cells, 9);
    lemma_count_prefix_full(cells, Cell::Empty);
    lemma_counts_sum(cells);
}

/// The moves among the first `n` cells are exactly the valid positions of
/// the empty cells among them, in strictly ascending order.
pub proof fn lemma_empty_positions_members(cells: Seq<Cell>, n: int)
    requires
        0 <= n <= 9,
    ensures
        forall|k: int|
            0 <= k < empty_positions(cells, n).len() ==> {
                let p = #[trigger] empty_positions(cells, n)[k];
                1 <= p.0 <= n && cells[p.0 - 1] == Cell::Empty
            },
        forall|i: int|
            0 <= i < n && cells[i] == Cell::Empty ==> empty_positions(cells, n).contains(
                Position((i + 1) as usize),
            ),
        forall|j: int, k: int|
            0 <= j < k < empty_positions(cells, n).len() ==> empty_positions(cells, n)[j].0
                < empty_positions(cells, n)[k].0,
    decreases n,
{
    if n > 0 {
        lemma_empty_positions_members(cells, n - 1);
        let prev = empty_positions(cells, n - 1);
        if cells[n - 1] == Cell::Empty {
            let cur = prev.push(Position(n as usize));
            assert forall|i: int|
                0 <= i < n && cells[i] == Cell::Empty implies cur.contains(
                Position((i + 1) as usize),
            ) by {
                if i < n - 1 {
                    let k = choose|k: int|
                        0 <= k < prev.len() && prev[k] == Position((i + 1) as usize);
                    assert(cur[k] == prev[k]);
                } else {
                    assert(cur[prev.len() as int] == Position(n as usize));
                }
            }
        }
    }
}

/// Marking an empty cell for `p` leaves one empty cell less, one mark of
/// `p` more, and the marks of the other player as they were.
pub proof fn lemma_mark_empty_cell(cells: Seq<Cell>, i: int, p: Player)
    requires
        cells.len() == 9,
        0 <= i < 9,
        cells[i] == Cell::Empty,
    ensures
        count(cells.update(i, Cell::Marked(p)), Cell::Empty) == count(cells, Cell::Empty) - 1,
        count(cells.update(i, Cell::Marked(p)), Cell::Marked(p)) == count(
            cells,
            Cell::Marked(p),
        ) + 1,
        count(cells.update(i, Cell::Marked(p)), Cell::Marked(p.opponent())) == count(
            cells,
            Cell::Marked(p.opponent()),
        ),
{
    let child = cells.update(i, Cell::Marked(p));
    assert forall|j: int| 0 <= j < 9 && j != i implies child[j] == cells[j] by {}
    assert(child[i] != Cell::Empty);
    assert(child[i] != Cell::Marked(p.opponent()));
}

/// A legal turn keeps the marks of the two players in step: a board reached
/// by legal turns from the empty board is never impossible.
pub proof fn lemma_turn_keeps_counts(cells: Seq<Cell>, i: int)
    requires
        cells.len() == 9,
        0 <= i < 9,
        cells[i] == Cell::Empty,
        state_of(cells) is TurnOf,
    ensures
        counts_ok(cells.update(i, Cell::Marked(state_of(cells)->TurnOf_0))),
        state_of(cells.update(i, Cell::Marked(state_of(cells)->TurnOf_0))) != State::Impossible,
{
    reveal(to_move);
    let p = state_of(cells)->TurnOf_0;
    lemma_mark_empty_cell(cells, i, p);
}

/// A board on which a player is to move has at least one move.
pub proof fn lemma_turn_has_moves(b: &Board)
    requires
        b.spec_state() is TurnOf,
    ensures
        b.spec_moves().len() > 0,
{
    lemma_moves_are_legal(b);
    let i = choose|i: int| 0 <= i < 9 && b@[i] == Cell::Empty;
    assert(b.is_legal(Position((i + 1) as usize)));
}

/// The moves are the legal positions, in ascending order.
pub proof fn lemma_moves_are_legal(b: &Board)
    ensures
        forall|k: int| 0 <= k < b.spec_moves().len() ==> b.is_legal(#[trigger] b.spec_moves()[k]),
        forall|pos: Position| b.is_legal(pos) ==> b.spec_moves().contains(pos),
        forall|j: int, k: int|
            0 <= j < k < b.spec_moves().len() ==> b.spec_moves()[j].0 < b.spec_moves()[k].0,
{
    lemma_empty_positions_members(b@, 9);
    assert forall|pos: Position| b.is_legal(pos) implies b.spec_moves().contains(pos) by {
        assert(Position(((pos.0 - 1) + 1) as usize) == pos);
    }
}

/// The state is a function of the cells alone: two boards with the same
/// cells are in the same state, however often it is asked.
pub proof fn lemma_state_depends_on_cells_only(a: &Board, b: &Board)
    requires
        a@ == b@,
    ensures
        a.spec_state() == b.spec_state(),
{
}

/// `cells` is reached from the empty board by `n` legal turns.
pub open spec fn reachable(cells: Seq<Cell>, n: nat) -> bool
    decreases n,
{
    if n == 0 {
        cells.len() == 9 && forall|i: int| 0 <= i < 9 ==> cells[i] == Cell::Empty
    } else {
        exists|prev: Seq<Cell>, i: int|
            #![trigger prev.update(i, Cell::Marked(state_of(prev)->TurnOf_0))]
            reachable(prev, (n - 1) as nat) && state_of(prev) is TurnOf && 0 <= i < 9
                && prev[i] == Cell::Empty && cells == prev.update(
                i,
                Cell::Marked(state_of(prev)->TurnOf_0),
            )
    }
}

/// A board reached from the empty board by `n` legal turns has `9 - n`
/// empty cells and its marks in step, so its state is never impossible.
pub proof fn lemma_reachable_never_impossible(cells: Seq<Cell>, n: nat)
    requires
        reachable(cells, n),
    ensures
        cells.len() == 9,
        counts_ok(cells),
        count(cells, Cell::Empty) == 9 - n,
        state_of(cells) != State::Impossible,
    decreases n,
{
    if n > 0 {
        let (prev, i) = choose|prev: Seq<Cell>, i: int|
            #![trigger prev.update(i, Cell::Marked(state_of(prev)->TurnOf_0))]
            reachable(prev, (n - 1) as nat) && state_of(prev) is TurnOf && 0 <= i < 9
                && prev[i] == Cell::Empty && cells == prev.update(
                i,
                Cell::Marked(state_of(prev)->TurnOf_0),
            );
        lemma_reachable_never_impossible(prev, (n - 1) as nat);
        lemma_turn_keeps_counts(prev, i);
        lemma_mark_empty_cell(prev, i, state_of(prev)->TurnOf_0);
    }
}

/// A successful turn takes exactly one move away.
pub proof fn lemma_turn_removes_one_move(before: &Board, after: &Board, pos: Position)
    requires
        before.spec_state() is TurnOf,
        before.is_legal(pos),
        after@ == before@.update(pos.0 - 1, Cell::Marked(before.spec_state()->TurnOf_0)),
    ensures
        after.spec_moves().len() == before.spec_moves().len() - 1,
{
    before.lemma_len();
    lemma_moves_len(before@);
    lemma_moves_len(after@);
    lemma_mark_empty_cell(before@, pos.0 - 1, before.spec_state()->TurnOf_0);
}

/// A complete line of `p`, where the other player has none, is a win of `p`.
pub proof fn lemma_line_wins(cells: Seq<Cell>, t: int, p: Player)
    requires
        counts_ok(cells),
        0 <= t < 8,
        line_complete(cells, t, p),
        !wins(cells, p.opponent()),
    ensures
        state_of(cells) == State::Won(p),
{
}

/// A full board without a complete line is a tie.
pub proof fn lemma_full_without_line_ties(cells: Seq<Cell>)
    requires
        counts_ok(cells),
        full(cells),
        forall|t: int| 0 <= t < 8 ==> !line_complete(cells, t, Player::X) && !line_complete(cells, t, Player::O),
    ensures
        state_of(cells) == State::Tie,
{
}

} // verus!
