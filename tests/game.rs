use tictactoe::agent::{Agent, HumanAgent, MinimaxAgent, RandomAgent, SillyAgent};
use tictactoe::game::{Board, Cell, Player, Position, State};
use tictactoe::play::{game_stats, play, play_turn, run_stats, GameStats};

fn board_of(marks: &[(usize, Player)]) -> Board {
    let mut board = Board::new();
    for &(pos, player) in marks {
        board.set(Position(pos), Cell::Marked(player));
    }
    board
}

#[test]
fn test_board() {
    let mut board = Board::new();
    assert_eq!(board.state(), State::TurnOf(Player::X));
    assert!(board.turn(Position(5)));
    assert_eq!(board.state(), State::TurnOf(Player::O));
    assert!(!board.turn(Position(5))); // can't play the same cell twice
    assert!(board.turn(Position(1)));
    assert_eq!(
        board.available_moves(),
        vec![
            Position(2),
            Position(3),
            Position(4),
            Position(6),
            Position(7),
            Position(8),
            Position(9)
        ]
    );
    // proceed to winning the game
    assert!(board.turn(Position(2)));
    assert!(board.turn(Position(9)));
    assert!(board.turn(Position(8)));
    assert_eq!(board.state(), State::Won(Player::X));
}

#[test]
fn position_index_round_trip() {
    assert_eq!(Position(1).as_idx(), 0);
    assert_eq!(Position(9).as_idx(), 8);
    assert_eq!(Position::from_idx(4), Position(5));
}

#[test]
fn new_board_is_empty_and_x_starts() {
    let board = Board::new();
    for p in 1..=9 {
        assert_eq!(board.get(Position(p)), Cell::Empty);
    }
    assert_eq!(board.state(), State::TurnOf(Player::X));
    assert_eq!(board.available_moves().len(), 9);
}

#[test]
fn state_is_the_same_when_asked_twice() {
    let board = board_of(&[(1, Player::X), (5, Player::O), (9, Player::X)]);
    assert_eq!(board.state(), board.state());
    assert_eq!(board.state(), State::TurnOf(Player::O));
}

#[test]
fn occupied_cell_is_refused_and_board_unchanged() {
    let mut board = Board::new();
    assert!(board.turn(Position(3)));
    let before: Vec<Cell> = (1..=9).map(|p| board.get(Position(p))).collect();
    assert!(!board.turn(Position(3)));
    let after: Vec<Cell> = (1..=9).map(|p| board.get(Position(p))).collect();
    assert_eq!(before, after);
    assert_eq!(board.state(), State::TurnOf(Player::O));
}

#[test]
fn moves_shrink_by_one_per_turn() {
    let mut board = Board::new();
    let order = [5, 1, 9, 3, 2, 8, 7, 4, 6];
    let mut expected = 9;
    for &p in order.iter() {
        if board.state() != State::TurnOf(Player::X) && board.state() != State::TurnOf(Player::O) {
            break;
        }
        assert_eq!(board.available_moves().len(), expected);
        assert!(board.turn(Position(p)));
        expected -= 1;
        assert_eq!(board.available_moves().len(), expected);
    }
}

#[test]
fn every_line_wins() {
    let lines = [
        [1, 2, 3],
        [4, 5, 6],
        [7, 8, 9],
        [1, 4, 7],
        [2, 5, 8],
        [3, 6, 9],
        [1, 5, 9],
        [3, 5, 7],
    ];
    for line in lines.iter() {
        let others: Vec<usize> = (1..=9).filter(|p| !line.contains(p)).collect();
        let mut marks: Vec<(usize, Player)> = line.iter().map(|&p| (p, Player::X)).collect();
        // two O marks off the line, placed so that O has no line
        let mut placed = 0;
        for &p in others.iter() {
            if placed == 2 {
                break;
            }
            marks.push((p, Player::O));
            placed += 1;
        }
        let board = board_of(&marks);
        assert_eq!(board.state(), State::Won(Player::X), "line {:?}", line);
    }
}

#[test]
fn o_wins_with_a_column() {
    let board = board_of(&[
        (1, Player::X),
        (2, Player::O),
        (3, Player::X),
        (5, Player::O),
        (9, Player::X),
        (8, Player::O),
    ]);
    assert_eq!(board.state(), State::Won(Player::O));
}

#[test]
fn full_board_without_line_is_a_tie() {
    // X O X / X O O / O X X
    let board = board_of(&[
        (1, Player::X),
        (2, Player::O),
        (3, Player::X),
        (4, Player::X),
        (5, Player::O),
        (6, Player::O),
        (7, Player::O),
        (8, Player::X),
        (9, Player::X),
    ]);
    assert_eq!(board.state(), State::Tie);
    assert!(board.available_moves().is_empty());
}

#[test]
fn marks_out_of_step_are_impossible() {
    let board = board_of(&[(1, Player::X), (2, Player::X)]);
    assert_eq!(board.state(), State::Impossible);
    let board = board_of(&[(1, Player::O)]);
    assert_eq!(board.state(), State::Impossible);
}

#[test]
fn next_player_follows_the_counts() {
    assert_eq!(Board::new().next_player(), Player::X);
    assert_eq!(board_of(&[(4, Player::X)]).next_player(), Player::O);
}

#[test]
fn human_input_must_name_a_free_cell() {
    let board = board_of(&[(5, Player::X)]);
    assert_eq!(HumanAgent::accept(&board, 1), Some(Position(1)));
    assert_eq!(HumanAgent::accept(&board, 5), None);
    assert_eq!(HumanAgent::accept(&board, 0), None);
    assert_eq!(HumanAgent::accept(&board, 10), None);
}

#[test]
fn random_pick_uses_the_number_modulo_the_moves() {
    let moves = vec![Position(2), Position(4), Position(7)];
    assert_eq!(RandomAgent::pick(&moves, 0), Some(Position(2)));
    assert_eq!(RandomAgent::pick(&moves, 4), Some(Position(4)));
    assert_eq!(RandomAgent::pick(&moves, 8), Some(Position(7)));
    assert_eq!(RandomAgent::pick(&Vec::new(), 3), None);
}

#[test]
fn random_agent_plays_a_free_cell() {
    let board = board_of(&[(1, Player::X), (2, Player::O), (3, Player::X)]);
    for _ in 0..50 {
        let m = RandomAgent.next_move(&board).unwrap();
        assert!(board.available_moves().contains(&m));
    }
    let silly: SillyAgent = RandomAgent;
    assert!(silly.next_move(&board).is_some());
}

#[test]
fn random_agent_has_no_move_on_a_full_board() {
    let board = board_of(&[
        (1, Player::X),
        (2, Player::O),
        (3, Player::X),
        (4, Player::X),
        (5, Player::O),
        (6, Player::O),
        (7, Player::O),
        (8, Player::X),
        (9, Player::X),
    ]);
    assert_eq!(RandomAgent.next_move(&board), None);
}

#[test]
fn minimax_converts_a_won_position() {
    // O O . / X X . / . . .  with X to move
    let mut board = board_of(&[(1, Player::O), (4, Player::X), (2, Player::O), (5, Player::X)]);
    assert_eq!(play(&mut board, &MinimaxAgent, &MinimaxAgent), State::Won(Player::X));
}

#[test]
fn minimax_blocks_a_loss() {
    // X . . / X O . / . . .  with O to move: only 7 avoids losing
    let board = board_of(&[(1, Player::X), (5, Player::O), (4, Player::X)]);
    assert_eq!(MinimaxAgent.next_move(&board), Some(Position(7)));
}

#[test]
fn minimax_has_no_move_when_the_game_is_over() {
    let board = board_of(&[
        (1, Player::X),
        (4, Player::O),
        (2, Player::X),
        (5, Player::O),
        (3, Player::X),
    ]);
    assert_eq!(board.state(), State::Won(Player::X));
    assert_eq!(MinimaxAgent::best_move(&board), None);
}

#[test]
fn minimax_against_minimax_is_a_tie() {
    let mut board = Board::new();
    assert_eq!(play(&mut board, &MinimaxAgent, &MinimaxAgent), State::Tie);
    let mut board = board_of(&[(1, Player::X)]);
    assert_eq!(play(&mut board, &MinimaxAgent, &MinimaxAgent), State::Tie);
}

#[test]
fn play_turn_makes_one_mark() {
    let mut board = Board::new();
    let s = play_turn(&mut board, &MinimaxAgent, &RandomAgent);
    assert_eq!(s, State::TurnOf(Player::O));
    assert_eq!(board.available_moves().len(), 8);
}

#[test]
fn random_games_end_in_a_terminal_state() {
    for _ in 0..20 {
        let mut board = Board::new();
        let s = play(&mut board, &RandomAgent, &RandomAgent);
        assert!(matches!(s, State::Tie | State::Won(_)));
        assert_eq!(s, board.state());
    }
}

#[test]
fn stats_count_every_game_once() {
    let stats = game_stats(200);
    assert_eq!(stats.ties + stats.x_wins + stats.o_wins, 200);
    assert_eq!(stats.count(State::Impossible), 0);
    assert_eq!(stats.count(State::TurnOf(Player::X)), 0);
    assert_eq!(stats.count(State::TurnOf(Player::O)), 0);
    let total: usize = stats.entries().iter().map(|e| e.1).sum();
    assert_eq!(total, 200);
}

#[test]
fn stats_of_minimax_games_are_all_ties() {
    let stats = run_stats(2, &MinimaxAgent, &MinimaxAgent);
    assert_eq!(stats.entries(), vec![(State::Tie, 2)]);
}

#[test]
fn stats_entries_follow_state_order() {
    let mut stats = GameStats::new();
    stats.record(State::Won(Player::O));
    stats.record(State::Tie);
    stats.record(State::Won(Player::X));
    stats.record(State::Won(Player::O));
    assert_eq!(
        stats.entries(),
        vec![(State::Tie, 1), (State::Won(Player::X), 1), (State::Won(Player::O), 2)]
    );
    assert_eq!(stats.count(State::Won(Player::O)), 2);
    assert_eq!(GameStats::new().entries(), vec![]);
}

#[test]
fn play_leaves_a_finished_board_alone() {
    let mut board = board_of(&[
        (1, Player::X),
        (4, Player::O),
        (2, Player::X),
        (5, Player::O),
        (3, Player::X),
    ]);
    let before: Vec<Cell> = (1..=9).map(|p| board.get(Position(p))).collect();
    assert_eq!(play(&mut board, &RandomAgent, &RandomAgent), State::Won(Player::X));
    let after: Vec<Cell> = (1..=9).map(|p| board.get(Position(p))).collect();
    assert_eq!(before, after);
}

#[test]
fn play_turn_applies_the_minimax_move() {
    // X . . / X O . / . . .  with O to move
    let mut board = board_of(&[(1, Player::X), (5, Player::O), (4, Player::X)]);
    let expected = MinimaxAgent::best_move(&board).unwrap();
    play_turn(&mut board, &RandomAgent, &MinimaxAgent);
    assert_eq!(board.get(expected), Cell::Marked(Player::O));
    assert_eq!(board.available_moves().len(), 5);
}
