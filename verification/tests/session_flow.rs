use tic_tac_toe_rs::{
    BoardArgs, GameError, GameState, GameStatus, Key, LoadChoice, Player, Session, StepOutcome,
};
use tic_tac_toe_rs::session::classify_load_key;

fn args(size: usize) -> BoardArgs {
    BoardArgs { size: Some(size) }
}

#[test]
fn fresh_session_starts_empty() {
    let sess = Session::new(&args(3)).unwrap();
    assert_eq!(sess.size, 3);
    assert_eq!(sess.state.board, vec![' '; 9]);
    assert_eq!(sess.state.current_player, Player::X);
    assert_eq!(sess.state.status, GameStatus::Ongoing);
    assert_eq!((sess.cursor_x, sess.cursor_y), (0, 0));
}

#[test]
fn session_without_size_fails() {
    assert!(matches!(Session::new(&BoardArgs { size: None }), Err(GameError::InvalidBoardSize)));
}

#[test]
fn session_with_zero_size_fails() {
    assert!(matches!(Session::new(&args(0)), Err(GameError::EmptyBoard)));
}

#[test]
fn cursor_movement_clamps_to_board() {
    let mut sess = Session::new(&args(3)).unwrap();
    assert_eq!(sess.step(Key::Up), StepOutcome::Continue);
    assert_eq!(sess.step(Key::Left), StepOutcome::Continue);
    assert_eq!((sess.cursor_x, sess.cursor_y), (0, 0));
    sess.step(Key::Right);
    sess.step(Key::Right);
    sess.step(Key::Right);
    assert_eq!(sess.cursor_x, 2);
    sess.step(Key::Down);
    sess.step(Key::Down);
    sess.step(Key::Down);
    assert_eq!(sess.cursor_y, 2);
    sess.step(Key::Up);
    sess.step(Key::Left);
    assert_eq!((sess.cursor_x, sess.cursor_y), (1, 1));
}

#[test]
fn placing_marks_and_winning() {
    let mut sess = Session::new(&args(3)).unwrap();
    // X at (0,0)
    assert_eq!(sess.step(Key::Confirm), StepOutcome::Placed);
    assert_eq!(sess.state.board[0], 'X');
    assert_eq!(sess.state.current_player, Player::O);
    // O at (0,1)
    sess.step(Key::Down);
    assert_eq!(sess.step(Key::Confirm), StepOutcome::Placed);
    assert_eq!(sess.state.board[3], 'O');
    // X at (1,0)
    sess.step(Key::Up);
    sess.step(Key::Right);
    assert_eq!(sess.step(Key::Confirm), StepOutcome::Placed);
    assert_eq!(sess.state.board[1], 'X');
    // O at (1,1)
    sess.step(Key::Down);
    assert_eq!(sess.step(Key::Confirm), StepOutcome::Placed);
    assert_eq!(sess.state.board[4], 'O');
    // X at (2,0) completes the top row
    sess.step(Key::Up);
    sess.step(Key::Right);
    assert_eq!(sess.step(Key::Confirm), StepOutcome::Finished);
    assert_eq!(sess.state.status, GameStatus::Won(Player::X));
    assert_eq!(sess.state.current_player, Player::X);
    assert_eq!(sess.state.status.outcome_message(), Some("Player X wins!".to_string()));
}

#[test]
fn occupied_cell_is_ignored() {
    let mut sess = Session::new(&args(3)).unwrap();
    assert_eq!(sess.step(Key::Confirm), StepOutcome::Placed);
    let board_before = sess.state.board.clone();
    assert_eq!(sess.step(Key::Confirm), StepOutcome::Continue);
    assert_eq!(sess.state.board, board_before);
    assert_eq!(sess.state.current_player, Player::O);
}

#[test]
fn quit_leaves_state_alone() {
    let mut sess = Session::new(&args(3)).unwrap();
    assert_eq!(sess.step(Key::Quit), StepOutcome::Quit);
    assert_eq!(sess.state.board, vec![' '; 9]);
}

#[test]
fn unmapped_key_is_ignored() {
    let mut sess = Session::new(&args(3)).unwrap();
    assert_eq!(sess.step(Key::Other), StepOutcome::Continue);
    assert_eq!((sess.cursor_x, sess.cursor_y), (0, 0));
}

#[test]
fn resume_accepts_matching_ongoing_state() {
    let st = GameState {
        board: vec!['X', ' ', ' ', ' ', 'O', ' ', ' ', ' ', ' '],
        current_player: Player::X,
        status: GameStatus::Ongoing,
    };
    let sess = Session::resume(&args(3), st).unwrap();
    assert_eq!(sess.size, 3);
    assert_eq!(sess.state.board[4], 'O');
}

#[test]
fn resume_rejects_wrong_board_length() {
    let st = GameState {
        board: vec![' '; 16],
        current_player: Player::X,
        status: GameStatus::Ongoing,
    };
    assert!(matches!(Session::resume(&args(3), st), Err(GameError::InvalidBoardSize)));
}

#[test]
fn resume_rejects_finished_game() {
    let st = GameState {
        board: vec![' '; 9],
        current_player: Player::X,
        status: GameStatus::Draw,
    };
    assert!(matches!(Session::resume(&args(3), st), Err(GameError::GameOver)));
}

#[test]
fn resume_rejects_bad_cells() {
    let st = GameState {
        board: vec!['Z', ' ', ' ', ' ', ' ', ' ', ' ', ' ', ' '],
        current_player: Player::X,
        status: GameStatus::Ongoing,
    };
    assert!(matches!(Session::resume(&args(3), st), Err(GameError::MalformedSave)));
}

#[test]
fn draw_reached_through_session() {
    let mut sess = Session::new(&args(3)).unwrap();
    // play to the draw board X O X / X O O / O X X, X moving first
    let x_moves = [0usize, 2, 3, 7, 8];
    let o_moves = [1usize, 4, 5, 6];
    let mut order: Vec<usize> = Vec::new();
    for i in 0..4 {
        order.push(x_moves[i]);
        order.push(o_moves[i]);
    }
    order.push(x_moves[4]);
    let mut last = StepOutcome::Continue;
    for idx in order {
        // move the cursor home, then to the target cell
        for _ in 0..3 {
            sess.step(Key::Left);
            sess.step(Key::Up);
        }
        for _ in 0..(idx % 3) {
            sess.step(Key::Right);
        }
        for _ in 0..(idx / 3) {
            sess.step(Key::Down);
        }
        last = sess.step(Key::Confirm);
    }
    assert_eq!(last, StepOutcome::Finished);
    assert_eq!(sess.state.status, GameStatus::Draw);
    assert_eq!(sess.state.status.outcome_message(), Some("It's a draw!".to_string()));
}

#[test]
fn load_keys_classified() {
    assert_eq!(classify_load_key('y'), LoadChoice::Load);
    assert_eq!(classify_load_key('n'), LoadChoice::Fresh);
    assert_eq!(classify_load_key('x'), LoadChoice::Undecided);
}

#[test]
fn saved_session_resumes_identically() {
    let mut sess = Session::new(&args(3)).unwrap();
    sess.step(Key::Confirm);
    sess.step(Key::Right);
    sess.step(Key::Confirm);
    let text = sess.state.to_json();
    let loaded = GameState::from_json(&text).unwrap();
    let resumed = Session::resume(&args(3), loaded).unwrap();
    assert_eq!(resumed.state.board, sess.state.board);
    assert_eq!(resumed.state.current_player, sess.state.current_player);
    assert_eq!(resumed.state.status, sess.state.status);
}
