use tictactoe::game::{Board, Player, Position};

#[test]
fn player_marks_are_coloured() {
    assert_eq!(Player::X.to_text(), "\x1b[34mX\x1b[39m");
    assert_eq!(Player::O.to_text(), "\x1b[31mO\x1b[39m");
}

#[test]
fn table_row_shows_numbers_and_marks() {
    let mut board = Board::new();
    assert!(board.turn(Position(5)));
    assert!(board.turn(Position(4)));
    assert_eq!(board.table_row(0), vec!["1", "2", "3"]);
    assert_eq!(
        board.table_row(1),
        vec![
            "\x1b[31mO\x1b[39m".to_string(),
            "\x1b[34mX\x1b[39m".to_string(),
            "6".to_string()
        ]
    );
    assert_eq!(board.table_row(2), vec!["7", "8", "9"]);
}

#[test]
fn rendered_board_holds_every_cell() {
    let mut board = Board::new();
    assert!(board.turn(Position(1)));
    let text = board.render();
    assert!(text.contains("\x1b[34mX\x1b[39m"));
    for digit in 2..=9 {
        assert!(text.contains(&digit.to_string()));
    }
    assert_eq!(text.lines().count(), 7);
}
