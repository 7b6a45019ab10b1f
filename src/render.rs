use crate::game::{Board, Cell, Player, Position};
use owo_colors::OwoColorize;
use tabled::builder::Builder;
use tabled::settings::Style;
use vstd::prelude::*;
use vstd::string::StringExecFns;

verus! {

/// `s` between the ANSI code that sets the foreground colour `code` and the
/// one that resets it.
pub open spec fn ansi_fg(code: Seq<char>, s: Seq<char>) -> Seq<char> {
    seq!['\x1b', '['] + code + seq!['m'] + s + seq!['\x1b', '[', '3', '9', 'm']
}

/// Relies on owo_colors::OwoColorize::blue: the text is written between
/// `Blue::ANSI_FG` ("\x1b[34m") and "\x1b[39m".
#[verifier::external_body]
fn blue(s: &str) -> (r: String)
    ensures
        r@ == ansi_fg(seq!['3', '4'], s@),
{
    format!("{}", s.blue())
}

/// Relies on owo_colors::OwoColorize::red: the text is written between
/// `Red::ANSI_FG` ("\x1b[31m") and "\x1b[39m".
#[verifier::external_body]
fn red(s: &str) -> (r: String)
    ensures
        r@ == ansi_fg(seq!['3', '1'], s@),
{
    format!("{}", s.red())
}

/// The decimal digit of `n`, for `n` from 1 to 9.
pub open spec fn digit_char(n: int) -> char {
    if n == 1 {
        '1'
    } else if n == 2 {
        '2'
    } else if n == 3 {
        '3'
    } else if n == 4 {
        '4'
    } else if n == 5 {
        '5'
    } else if n == 6 {
        '6'
    } else if n == 7 {
        '7'
    } else if n == 8 {
        '8'
    } else {
        '9'
    }
}

/// The decimal digit of `n` as text, for `n` from 1 to 9.
fn digit_string(n: usize) -> (r: String)
    requires
        1 <= n <= 9,
    ensures
        r@ == seq![digit_char(n as int)],
{
    match n {
        1 => {
            proof {
                reveal_strlit("1");
            }
            String::from_str("1")
        },
        2 => {
            proof {
                reveal_strlit("2");
            }
            String::from_str("2")
        },
        3 => {
            proof {
                reveal_strlit("3");
            }
            String::from_str("3")
        },
        4 => {
            proof {
                reveal_strlit("4");
            }
            String::from_str("4")
        },
        5 => {
            proof {
                reveal_strlit("5");
            }
            String::from_str("5")
        },
        6 => {
            proof {
                reveal_strlit("6");
            }
            String::from_str("6")
        },
        7 => {
            proof {
                reveal_strlit("7");
            }
            String::from_str("7")
        },
        8 => {
            proof {
                reveal_strlit("8");
            }
            String::from_str("8")
        },
        _ => {
            proof {
                reveal_strlit("9");
            }
            String::from_str("9")
        },
    }
}

/// A player's mark: a blue X or a red O.
pub open spec fn player_text(p: Player) -> Seq<char> {
    match p {
        Player::X => ansi_fg(seq!['3', '4'], seq!['X']),
        Player::O => ansi_fg(seq!['3', '1'], seq!['O']),
    }
}

/// What the table shows in the cell at `pos`: its number while it is
/// empty, else the mark.
pub open spec fn cell_text(c: Cell, pos: int) -> Seq<char> {
    match c {
        Cell::Empty => seq![digit_char(pos)],
        Cell::Marked(p) => player_text(p),
    }
}

/// Names the text that tabled draws, in the modern rounded style, for a
/// table with these rows of cells.
pub uninterp spec fn rounded_table(rows: Seq<Seq<Seq<char>>>) -> Seq<char>;

/// Relies on tabled's `Builder` and `Style::modern_rounded`: the drawn table
/// depends on the rows alone.
#[verifier::external_body]
fn draw_table(rows: Vec<Vec<String>>) -> (r: String)
    ensures
        r@ == rounded_table(rows.deep_view()),
{
    let mut builder = Builder::default();
    for row in rows {
        builder.push_record(row);
    }
    builder.build().with(Style::modern_rounded()).to_string()
}

impl Player {
    /// The mark of the player, coloured.
    pub fn to_text(&self) -> (r: String)
        ensures
            r@ == player_text(*self),
    {
        match self {
            Player::X => {
                let r = blue("X");
                proof {
                    reveal_strlit("X");
                }
                r
            },
            Player::O => {
                let r = red("O");
                proof {
                    reveal_strlit("O");
                }
                r
            },
        }
    }
}

/// The texts of the three cells of `row`.
pub open spec fn row_texts(cells: Seq<Cell>, row: int) -> Seq<Seq<char>> {
    seq![
        cell_text(cells[row * 3], row * 3 + 1),
        cell_text(cells[row * 3 + 1], row * 3 + 2),
        cell_text(cells[row * 3 + 2], row * 3 + 3),
    ]
}

impl Board {
    /// The texts of the three cells of row `row`, counted from 0.
    pub fn table_row(&self, row: usize) -> (r: Vec<String>)
        requires
            row < 3,
        ensures
            r.deep_view() == row_texts(self@, row as int),
    {
        let mut texts: Vec<String> = Vec::new();
        let mut i: usize = 0;
        proof {
            self.lemma_len();
        }
        while i < 3
            invariant
                i <= 3,
                row < 3,
                self@.len() == 9,
                texts.deep_view().len() == i,
                forall|j: int|
                    0 <= j < i ==> texts.deep_view()[j] == cell_text(
                        self@[row * 3 + j],
                        row * 3 + j + 1,
                    ),
            decreases 3 - i,
        {
            let pos = Position::from_idx(i + row * 3);
            let text = match self.get(pos) {
                Cell::Empty => digit_string(pos.0),
                Cell::Marked(player) => player.to_text(),
            };
            let ghost before = texts.deep_view();
            let ghost added = text@;
            texts.push(text);
            assert(texts.deep_view() =~= before.push(added));
            i = i + 1;
        }
        assert(texts.deep_view() =~= row_texts(self@, row as int));
        texts
    }

    /// The board drawn as a table of three rows.
    pub fn render(&self) -> (r: String)
        ensures
            r@ == rounded_table(seq![row_texts(self@, 0), row_texts(self@, 1), row_texts(self@, 2)]),
    {
        let mut rows: Vec<Vec<String>> = Vec::new();
        rows.push(self.table_row(0));
        rows.push(self.table_row(1));
        rows.push(self.table_row(2));
        assert(rows.deep_view() =~= seq![
            row_texts(self@, 0),
            row_texts(self@, 1),
            row_texts(self@, 2),
        ]);
        draw_table(rows)
    }
}

} // verus!
