use tic_tac_toe_rs::{GameError, GameState, GameStatus, Player};

fn ongoing(board: Vec<char>, player: Player) -> GameState {
    GameState { board, current_player: player, status: GameStatus::Ongoing }
}

#[test]
fn exact_save_text() {
    let st = ongoing(vec!['X', 'O', ' '], Player::O);
    assert_eq!(st.to_json(), "{\"board\":[\"X\",\"O\",\" \"],\"current_player\":\"O\",\"status\":\"Ongoing\"}");
}

#[test]
fn exact_save_text_won() {
    let st = GameState {
        board: vec!['X'],
        current_player: Player::X,
        status: GameStatus::Won(Player::X),
    };
    assert_eq!(st.to_json(), "{\"board\":[\"X\"],\"current_player\":\"X\",\"status\":{\"Won\":\"X\"}}");
}

#[test]
fn round_trip_reproduces_state() {
    let st = ongoing(vec!['X', 'O', ' ', ' ', 'X', ' ', ' ', ' ', 'O'], Player::O);
    let text = st.to_json();
    let loaded = GameState::from_json(&text).unwrap();
    assert_eq!(loaded.board, st.board);
    assert_eq!(loaded.current_player, st.current_player);
    assert_eq!(loaded.status, st.status);
}

#[test]
fn round_trip_empty_board() {
    let st = ongoing(Vec::new(), Player::X);
    let text = st.to_json();
    assert_eq!(text, "{\"board\":[],\"current_player\":\"X\",\"status\":\"Ongoing\"}");
    let loaded = GameState::from_json(&text).unwrap();
    assert_eq!(loaded.board, st.board);
    assert_eq!(loaded.current_player, st.current_player);
    assert_eq!(loaded.status, st.status);
}

#[test]
fn loading_won_game_fails() {
    let st = GameState {
        board: vec!['X', 'X', 'X', 'O', 'O', ' ', ' ', ' ', ' '],
        current_player: Player::O,
        status: GameStatus::Won(Player::X),
    };
    assert!(matches!(GameState::from_json(&st.to_json()), Err(GameError::GameOver)));
}

#[test]
fn loading_drawn_game_fails() {
    let st = GameState {
        board: vec!['X', 'O', 'X', 'X', 'O', 'O', 'O', 'X', 'X'],
        current_player: Player::X,
        status: GameStatus::Draw,
    };
    assert!(matches!(GameState::from_json(&st.to_json()), Err(GameError::GameOver)));
}

#[test]
fn malformed_save_rejected() {
    assert!(matches!(GameState::from_json(""), Err(GameError::MalformedSave)));
    assert!(matches!(GameState::from_json("nonsense"), Err(GameError::MalformedSave)));
    assert!(matches!(GameState::from_json("{}"), Err(GameError::MalformedSave)));
    assert!(matches!(
        GameState::from_json("{\"board\":[\"Q\"],\"current_player\":\"X\",\"status\":\"Ongoing\"}"),
        Err(GameError::MalformedSave)
    ));
    assert!(matches!(
        GameState::from_json("{\"board\":[],\"current_player\":\"X\",\"status\":\"Ongoing\"} "),
        Err(GameError::MalformedSave)
    ));
}

#[test]
fn only_the_saved_spelling_is_loaded() {
    // the loader accepts exactly what saving produces, not re-formatted text
    assert!(matches!(
        GameState::from_json("{ \"board\": [], \"current_player\": \"X\", \"status\": \"Ongoing\" }"),
        Err(GameError::MalformedSave)
    ));
}

#[test]
fn save_text_matches_serde_json_encoding() {
    let st = ongoing(vec!['X', ' ', 'O', ' '], Player::O);
    let mut map = serde_json::Map::new();
    let board: Vec<serde_json::Value> = st
        .board
        .iter()
        .map(|c| serde_json::Value::String(c.to_string()))
        .collect();
    map.insert("board".to_string(), serde_json::Value::Array(board));
    map.insert(
        "current_player".to_string(),
        serde_json::Value::String("O".to_string()),
    );
    map.insert(
        "status".to_string(),
        serde_json::Value::String("Ongoing".to_string()),
    );
    let expected = serde_json::to_string(&serde_json::Value::Object(map)).unwrap();
    assert_eq!(st.to_json(), expected);
}

#[test]
fn won_save_text_matches_serde_json_encoding() {
    let st = GameState {
        board: vec!['O'],
        current_player: Player::X,
        status: GameStatus::Won(Player::O),
    };
    let mut status = serde_json::Map::new();
    status.insert("Won".to_string(), serde_json::Value::String("O".to_string()));
    let mut map = serde_json::Map::new();
    map.insert(
        "board".to_string(),
        serde_json::Value::Array(vec![serde_json::Value::String("O".to_string())]),
    );
    map.insert(
        "current_player".to_string(),
        serde_json::Value::String("X".to_string()),
    );
    map.insert("status".to_string(), serde_json::Value::Object(status));
    let expected = serde_json::to_string(&serde_json::Value::Object(map)).unwrap();
    assert_eq!(st.to_json(), expected);
}

#[test]
fn save_text_parses_as_json() {
    let st = ongoing(vec!['X', 'O', ' ', ' ', ' ', ' ', ' ', ' ', ' '], Player::X);
    let value: serde_json::Value = serde_json::from_str(&st.to_json()).unwrap();
    assert_eq!(value["board"][0], serde_json::Value::String("X".to_string()));
    assert_eq!(value["board"][1], serde_json::Value::String("O".to_string()));
    assert_eq!(value["board"][2], serde_json::Value::String(" ".to_string()));
    assert_eq!(value["current_player"], serde_json::Value::String("X".to_string()));
    assert_eq!(value["status"], serde_json::Value::String("Ongoing".to_string()));
}

#[test]
fn well_formedness_check() {
    assert!(ongoing(vec!['X', 'O', ' '], Player::X).is_well_formed());
    assert!(!ongoing(vec!['X', 'Q', ' '], Player::X).is_well_formed());
}
