use crate::player::Player;
use vstd::prelude::*;

verus! {

/// Whether a game is still being played, has been won, or ended in a draw.
///
/// `Ongoing` is the only status under which moves are accepted; `Won` and
/// `Draw` are terminal.
#[derive(Copy, Clone, Debug, PartialEq, Eq, Structural)]
pub enum GameStatus {
    Ongoing,
    Won(Player),
    Draw,
}

impl GameStatus {
    /// The line shown when a game ends: who won, or that it is a draw.
    /// An ongoing game has no outcome yet.
    pub fn outcome_message(self) -> (r: Option<String>)
        ensures
            match self {
                GameStatus::Won(p) => r matches Some(m) && m@ == (if p == Player::X {
                    "Player X wins!"@
                } else {
                    "Player O wins!"@
                }),
                GameStatus::Draw => r matches Some(m) && m@ == "It's a draw!"@,
                GameStatus::Ongoing => r is None,
            },
    {
        match self {
            GameStatus::Won(Player::X) => Some("Player X wins!".to_owned()),
            GameStatus::Won(Player::O) => Some("Player O wins!".to_owned()),
            GameStatus::Draw => Some("It's a draw!".to_owned()),
            GameStatus::Ongoing => None,
        }
    }
}

} // verus!
