use vstd::prelude::*;

verus! {

/// Errors that can occur during game operations.
///
/// `InvalidBoardSize`: the size is missing or the board length is not the
/// square of the declared size. `EmptyBoard`: the board has no cells.
/// `GameOver`: a finished game was loaded. `MalformedSave`: saved text that
/// is not the save format of any well-formed state.
#[derive(Copy, Clone, Debug, PartialEq, Eq, Structural)]
pub enum GameError {
    InvalidBoardSize,
    EmptyBoard,
    GameOver,
    MalformedSave,
}

impl GameError {
    /// A one-line message describing the error.
    pub fn message(self) -> (r: String)
        ensures
            r@ == match self {
                GameError::InvalidBoardSize => "The board size is invalid."@,
                GameError::EmptyBoard => "The board is empty."@,
                GameError::GameOver => "Cannot load a game that is over."@,
                GameError::MalformedSave => "The save data is not a valid game."@,
            },
    {
        match self {
            GameError::InvalidBoardSize => "The board size is invalid.".to_owned(),
            GameError::EmptyBoard => "The board is empty.".to_owned(),
            GameError::GameOver => "Cannot load a game that is over.".to_owned(),
            GameError::MalformedSave => "The save data is not a valid game.".to_owned(),
        }
    }
}

} // verus!
