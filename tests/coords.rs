use tictactoe::tictactoe::{Cell, Player, State, TicTacToe};

#[test]
fn test_state() {
    let mut game = TicTacToe::new();
    assert_eq!(game.state(), State::TurnOf(Player::X));
    assert!(game.turn(1, 1));
    assert_eq!(game.state(), State::TurnOf(Player::O));
    assert!(!game.turn(1, 1)); // can't play the same cell twice
    assert!(game.turn_idx(0));
    assert_eq!(game.available_moves_idx(), vec![1, 2, 3, 5, 6, 7, 8])
}

#[test]
fn cell_from_player() {
    assert_eq!(Cell::from(&Player::X), Cell::X);
    assert_eq!(Cell::from(&Player::O), Cell::O);
}

#[test]
fn column_and_row_address_cells() {
    let mut game = TicTacToe::new();
    assert!(game.turn(2, 0));
    assert_eq!(game.cell_at(2), Cell::X);
    assert!(game.turn(0, 2));
    assert_eq!(game.cell_at(6), Cell::O);
    assert_eq!(game.cell_at(4), Cell::Empty);
}

#[test]
fn coords_game_to_a_win() {
    let mut game = TicTacToe::new();
    for idx in [0, 3, 1, 4, 2] {
        assert!(game.turn_idx(idx));
    }
    assert_eq!(game.state(), State::Won(Player::X));
    assert_eq!(game.available_moves_idx(), vec![5, 6, 7, 8]);
}

#[test]
fn text_shows_marks_and_rows() {
    let mut game = TicTacToe::new();
    assert_eq!(game.to_text(), "...\n...\n...\n");
    assert!(game.turn(1, 1));
    assert!(game.turn(2, 0));
    assert_eq!(game.to_text(), "..O\n.X.\n...\n");
}
