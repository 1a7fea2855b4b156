use tic_tac_toe_rs::{BoardArgs, GameError, GameState, GameStatus, Generate, Player};

fn state_of(board: Vec<char>) -> GameState {
    GameState { board, current_player: Player::X, status: GameStatus::Ongoing }
}

fn args(size: usize) -> BoardArgs {
    BoardArgs { size: Some(size) }
}

#[test]
fn won_x_row_scenario() {
    let st = state_of(vec!['X', 'X', 'X', ' ', ' ', ' ', ' ', ' ', ' ']);
    assert_eq!(GameState::check_winner(&args(3), st), Ok(GameStatus::Won(Player::X)));
}

#[test]
fn full_board_draw_scenario() {
    let st = state_of(vec!['X', 'O', 'X', 'X', 'O', 'O', 'O', 'X', 'X']);
    assert_eq!(GameState::check_winner(&args(3), st), Ok(GameStatus::Draw));
}

#[test]
fn empty_board_ongoing_scenario() {
    let st = state_of(vec![' '; 9]);
    assert_eq!(GameState::check_winner(&args(3), st), Ok(GameStatus::Ongoing));
}

#[test]
fn board_length_mismatch_is_invalid() {
    let st = state_of(vec![' '; 8]);
    assert_eq!(GameState::check_winner(&args(3), st), Err(GameError::InvalidBoardSize));
}

#[test]
fn missing_size_is_invalid() {
    let st = state_of(vec![' '; 9]);
    assert_eq!(
        GameState::check_winner(&BoardArgs { size: None }, st),
        Err(GameError::InvalidBoardSize)
    );
}

#[test]
fn zero_size_empty_board_error() {
    let st = state_of(Vec::new());
    assert_eq!(GameState::check_winner(&args(0), st), Err(GameError::EmptyBoard));
}

#[test]
fn column_win_detected() {
    let st = state_of(vec!['O', 'X', ' ', 'O', 'X', ' ', ' ', 'X', 'O']);
    assert_eq!(GameState::check_winner(&args(3), st), Ok(GameStatus::Won(Player::X)));
}

#[test]
fn diagonal_win_detected() {
    let st = state_of(vec!['O', 'X', ' ', 'X', 'O', ' ', 'X', ' ', 'O']);
    assert_eq!(GameState::check_winner(&args(3), st), Ok(GameStatus::Won(Player::O)));
}

#[test]
fn anti_diagonal_win_detected() {
    let st = state_of(vec!['O', 'X', 'X', 'O', 'X', ' ', 'X', ' ', 'O']);
    assert_eq!(GameState::check_winner(&args(3), st), Ok(GameStatus::Won(Player::X)));
}

#[test]
fn four_by_four_single_row_win() {
    let mut board = vec![' '; 16];
    board[4] = 'O';
    board[5] = 'O';
    board[6] = 'O';
    board[7] = 'O';
    board[0] = 'X';
    board[1] = 'X';
    board[2] = 'X';
    let st = state_of(board);
    assert_eq!(GameState::check_winner(&args(4), st), Ok(GameStatus::Won(Player::O)));
}

#[test]
fn five_by_five_diagonal_win() {
    let mut board = vec![' '; 25];
    for i in 0..5 {
        board[i * 5 + i] = 'X';
    }
    let st = state_of(board);
    assert_eq!(GameState::check_winner(&args(5), st), Ok(GameStatus::Won(Player::X)));
}

#[test]
fn new_builds_empty_board() {
    let st = GameState::new(&args(3)).unwrap();
    assert_eq!(st.board, vec![' '; 9]);
    assert_eq!(st.current_player, Player::X);
    assert_eq!(st.status, GameStatus::Ongoing);
}

#[test]
fn new_without_size_fails() {
    let r = GameState::new(&BoardArgs { size: None });
    assert!(matches!(r, Err(GameError::InvalidBoardSize)));
}

#[test]
fn player_other_toggles() {
    assert_eq!(Player::X.other(), Player::O);
    assert_eq!(Player::O.other(), Player::X);
}

#[test]
fn player_chars() {
    assert_eq!(Player::X.as_char(), 'X');
    assert_eq!(Player::O.as_char(), 'O');
    assert_eq!(Player::from_char('X'), Some(Player::X));
    assert_eq!(Player::from_char('O'), Some(Player::O));
    assert_eq!(Player::from_char('q'), None);
}

#[test]
fn error_messages() {
    assert_eq!(GameError::InvalidBoardSize.message(), "The board size is invalid.");
    assert_eq!(GameError::EmptyBoard.message(), "The board is empty.");
    assert_eq!(GameError::GameOver.message(), "Cannot load a game that is over.");
    assert_eq!(GameError::MalformedSave.message(), "The save data is not a valid game.");
}

#[test]
fn partially_filled_board_ongoing() {
    let st = state_of(vec!['X', 'O', ' ', ' ', 'X', ' ', ' ', ' ', ' ']);
    assert_eq!(GameState::check_winner(&args(3), st), Ok(GameStatus::Ongoing));
}
