use crate::game_status::GameStatus;
use crate::player::Player;
use vstd::prelude::*;

verus! {

/// A cell is a blank or one of the two marks.
pub open spec fn cell_wf(c: char) -> bool {
    c == ' ' || c == 'X' || c == 'O'
}

/// Every cell of the board is a blank or a mark.
pub open spec fn board_wf(b: Seq<char>) -> bool {
    forall|i: int| 0 <= i < b.len() ==> cell_wf(#[trigger] b[i])
}

/// The mathematical content of a game state: the board as a sequence of
/// cells in row-major order, the player to move, and the status.
#[verifier::ext_equal]
pub ghost struct StateModel {
    pub board: Seq<char>,
    pub current_player: Player,
    pub status: GameStatus,
}

/// A well-formed model: all board cells are blanks or marks.
pub open spec fn model_wf(v: StateModel) -> bool {
    board_wf(v.board)
}

/// The full state of a game: the board cells in row-major order, the player
/// whose turn it is, and the game's status.
#[derive(Clone, Debug)]
pub struct GameState {
    pub board: Vec<char>,
    pub current_player: Player,
    pub status: GameStatus,
}

impl View for GameState {
    type V = StateModel;

    open spec fn view(&self) -> StateModel {
        StateModel {
            board: self.board@,
            current_player: self.current_player,
            status: self.status,
        }
    }
}

impl GameState {
    /// All cells of this state's board are blanks or marks.
    pub open spec fn wf(self) -> bool {
        board_wf(self.board@)
    }

    /// Runtime check of `wf`, for callers outside verified code.
    pub fn is_well_formed(&self) -> (r: bool)
        ensures
            r == self.wf(),
    {
        let mut i: usize = 0;
        while i < self.board.len()
            invariant
                i <= self.board@.len(),
                forall|k: int| 0 <= k < i ==> cell_wf(#[trigger] self.board@[k]),
            decreases self.board@.len() - i,
        {
            let c = self.board[i];
            if !(c == ' ' || c == 'X' || c == 'O') {
                return false;
            }
            i += 1;
        }
        true
    }
}

} // verus!
