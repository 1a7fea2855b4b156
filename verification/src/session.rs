use crate::args::BoardArgs;
use crate::game_error::GameError;
use crate::game_state::{board_wf, GameState};
use crate::game_status::GameStatus;
use crate::generate::{board_status, status_matches, Generate};
use crate::player::{opponent, player_char};
use vstd::prelude::*;

verus! {

/// A key event, as the terminal loop understands it: cursor movement,
/// confirming a move, quitting, or anything else.
#[derive(Copy, Clone, Debug, PartialEq, Eq, Structural)]
pub enum Key {
    Up,
    Down,
    Left,
    Right,
    Confirm,
    Quit,
    Other,
}

/// What the loop should do after a key was handled: keep playing, persist
/// the placed move and keep playing, persist and show the outcome of a
/// finished game, or leave without persisting.
#[derive(Copy, Clone, Debug, PartialEq, Eq, Structural)]
pub enum StepOutcome {
    Continue,
    Placed,
    Finished,
    Quit,
}

/// The choice made on the load screen: load the saved game, start fresh,
/// or ask again.
#[derive(Copy, Clone, Debug, PartialEq, Eq, Structural)]
pub enum LoadChoice {
    Load,
    Fresh,
    Undecided,
}

/// The load screen's reading of a key: 'y' loads, 'n' starts fresh, any
/// other key asks again.
pub fn classify_load_key(c: char) -> (r: LoadChoice)
    ensures
        r == (if c == 'y' {
            LoadChoice::Load
        } else if c == 'n' {
            LoadChoice::Fresh
        } else {
            LoadChoice::Undecided
        }),
{
    if c == 'y' {
        LoadChoice::Load
    } else if c == 'n' {
        LoadChoice::Fresh
    } else {
        LoadChoice::Undecided
    }
}

impl GameState {
    /// Places the current player's mark at `index` if that cell is blank.
    /// The status is recomputed from the new board, and while the game is
    /// still ongoing the turn passes to the other player.
    pub fn place(&mut self, size: usize, index: usize) -> (placed: bool)
        requires
            1 <= size,
            old(self).board@.len() == size * size,
            old(self).wf(),
            index < old(self).board@.len(),
            old(self).status == GameStatus::Ongoing,
        ensures
            final(self).wf(),
            final(self).board@.len() == old(self).board@.len(),
            !placed ==> final(self)@ == old(self)@ && old(self).board@[index as int] != ' ',
            placed ==> old(self).board@[index as int] == ' ' && final(self).board@ == old(self).board@.update(index as int, player_char(old(self).current_player))
                && status_matches(final(self).board@, size as int, final(self).status) && (final(self).status == GameStatus::Ongoing ==> final(self).current_player == opponent(
                old(self).current_player,
            )) && (final(self).status != GameStatus::Ongoing ==> final(self).current_player == old(self).current_player),
    {
        if self.board[index] != ' ' {
            return false;
        }
        let c = self.current_player.as_char();
        self.board.set(index, c);
        proof {
            assert(board_wf(self.board@));
        }
        let st = board_status(&self.board, size);
        self.status = st;
        match self.status {
            GameStatus::Ongoing => {
                self.current_player = self.current_player.other();
            },
            _ => {},
        }
        true
    }
}

/// The terminal loop's state: the board's side length, the game state, and
/// the cursor position within the board.
pub struct Session {
    pub size: usize,
    pub state: GameState,
    pub cursor_x: usize,
    pub cursor_y: usize,
}

impl Session {
    /// A session fit for play: a positive side length, a board of matching
    /// length with well-formed cells, and a cursor on the board.
    pub open spec fn wf(self) -> bool {
        &&& 1 <= self.size
        &&& self.state.board@.len() == self.size * self.size
        &&& self.state.wf()
        &&& self.cursor_x < self.size
        &&& self.cursor_y < self.size
    }

    /// The board index under the cursor.
    pub open spec fn cursor_index(self) -> int {
        self.cursor_y * self.size + self.cursor_x
    }

    /// A fresh session: an empty board of the declared size, X to move,
    /// and the cursor in the top left corner.
    pub fn new(args: &BoardArgs) -> (r: Result<Session, GameError>)
        ensures
            match r {
                Ok(sess) => args.size matches Some(s) && 1 <= s && s * s <= usize::MAX
                    && sess.wf() && sess.size == s && GameState::fresh_ok(args, &sess.state)
                    && sess.cursor_x == 0 && sess.cursor_y == 0,
                Err(GameError::InvalidBoardSize) => args.size is None || (args.size matches Some(s)
                    && s * s > usize::MAX),
                Err(GameError::EmptyBoard) => args.size == Some(0usize),
                Err(_) => false,
            },
    {
        let state = match GameState::new(args) {
            Ok(st) => st,
            Err(e) => {
                return Err(e);
            },
        };
        let size = match args.size {
            Some(s) => s,
            None => {
                return Err(GameError::InvalidBoardSize);
            },
        };
        if size == 0 {
            return Err(GameError::EmptyBoard);
        }
        Ok(Session { size, state, cursor_x: 0, cursor_y: 0 })
    }

    /// Resumes play from a loaded state under the declared size. The load
    /// is rejected if the size is missing or zero, the board's length is
    /// not the square of the size, a cell is neither blank nor a mark, or
    /// the loaded game is already over.
    pub fn resume(args: &BoardArgs, state: GameState) -> (r: Result<Session, GameError>)
        ensures
            match r {
                Ok(sess) => args.size matches Some(s) && 1 <= s && sess.wf() && sess.size == s
                    && sess.state@ == state@ && state.wf() && state.status == GameStatus::Ongoing
                    && sess.cursor_x == 0 && sess.cursor_y == 0,
                Err(GameError::InvalidBoardSize) => args.size is None || (args.size matches Some(s)
                    && s >= 1 && state.board@.len() != s * s),
                Err(GameError::EmptyBoard) => args.size == Some(0usize),
                Err(GameError::MalformedSave) => args.size matches Some(s) && s >= 1
                    && state.board@.len() == s * s && !state.wf(),
                Err(GameError::GameOver) => args.size matches Some(s) && s >= 1
                    && state.board@.len() == s * s && state.wf() && state.status
                    != GameStatus::Ongoing,
            },
    {
        let size = match args.size {
            Some(s) => s,
            None => {
                return Err(GameError::InvalidBoardSize);
            },
        };
        if size == 0 {
            return Err(GameError::EmptyBoard);
        }
        let n = state.board.len();
        let fits = match size.checked_mul(size) {
            Some(t) => n == t,
            None => false,
        };
        if !fits {
            return Err(GameError::InvalidBoardSize);
        }
        if !state.is_well_formed() {
            return Err(GameError::MalformedSave);
        }
        match state.status {
            GameStatus::Ongoing => Ok(Session { size, state, cursor_x: 0, cursor_y: 0 }),
            _ => Err(GameError::GameOver),
        }
    }

    /// Handles one key in the playing phase: movement keys move the cursor
    /// within the board, the confirm key places the current player's mark
    /// in a blank cell, and the quit key asks to leave.
    pub fn step(&mut self, key: Key) -> (out: StepOutcome)
        requires
            old(self).wf(),
            old(self).state.status == GameStatus::Ongoing,
        ensures
            final(self).wf(),
            final(self).size == old(self).size,
            final(self).state.board@.len() == old(self).state.board@.len(),
            match key {
                Key::Up => final(self).state@ == old(self).state@ && out == StepOutcome::Continue
                    && final(self).cursor_x == old(self).cursor_x && (old(self).cursor_y > 0
                    ==> final(self).cursor_y == old(self).cursor_y - 1) && (old(self).cursor_y == 0
                    ==> final(self).cursor_y == 0),
                Key::Down => final(self).state@ == old(self).state@ && out == StepOutcome::Continue
                    && final(self).cursor_x == old(self).cursor_x && (old(self).cursor_y + 1 < old(self).size ==> final(self).cursor_y == old(self).cursor_y + 1) && (old(self).cursor_y
                    + 1 >= old(self).size ==> final(self).cursor_y == old(self).cursor_y),
                Key::Left => final(self).state@ == old(self).state@ && out == StepOutcome::Continue
                    && final(self).cursor_y == old(self).cursor_y && (old(self).cursor_x > 0
                    ==> final(self).cursor_x == old(self).cursor_x - 1) && (old(self).cursor_x == 0
                    ==> final(self).cursor_x == 0),
                Key::Right => final(self).state@ == old(self).state@ && out
                    == StepOutcome::Continue && final(self).cursor_y == old(self).cursor_y && (old(self).cursor_x + 1 < old(self).size ==> final(self).cursor_x == old(self).cursor_x + 1)
                    && (old(self).cursor_x + 1 >= old(self).size ==> final(self).cursor_x == old(self).cursor_x),
                Key::Quit => final(self).state@ == old(self).state@ && final(self).cursor_x == old(self).cursor_x && final(self).cursor_y == old(self).cursor_y && out
                    == StepOutcome::Quit,
                Key::Other => final(self).state@ == old(self).state@ && final(self).cursor_x
                    == old(self).cursor_x && final(self).cursor_y == old(self).cursor_y && out
                    == StepOutcome::Continue,
                Key::Confirm => final(self).cursor_x == old(self).cursor_x && final(self).cursor_y
                    == old(self).cursor_y && (if old(self).state.board@[old(self).cursor_index()]
                    != ' ' {
                    final(self).state@ == old(self).state@ && out == StepOutcome::Continue
                } else {
                    final(self).state.board@ == old(self).state.board@.update(
                        old(self).cursor_index(),
                        player_char(old(self).state.current_player),
                    ) && status_matches(
                        final(self).state.board@,
                        old(self).size as int,
                        final(self).state.status,
                    ) && (final(self).state.status == GameStatus::Ongoing ==> final(self).state.current_player == opponent(old(self).state.current_player) && out
                        == StepOutcome::Placed) && (final(self).state.status != GameStatus::Ongoing
                        ==> final(self).state.current_player == old(self).state.current_player
                        && out == StepOutcome::Finished)
                }),
            },
    {
        match key {
            Key::Up => {
                if self.cursor_y > 0 {
                    self.cursor_y = self.cursor_y - 1;
                }
                StepOutcome::Continue
            },
            Key::Down => {
                if self.cursor_y + 1 < self.size {
                    self.cursor_y = self.cursor_y + 1;
                }
                StepOutcome::Continue
            },
            Key::Left => {
                if self.cursor_x > 0 {
                    self.cursor_x = self.cursor_x - 1;
                }
                StepOutcome::Continue
            },
            Key::Right => {
                if self.cursor_x + 1 < self.size {
                    self.cursor_x = self.cursor_x + 1;
                }
                StepOutcome::Continue
            },
            Key::Confirm => {
                let n = self.state.board.len();
                proof {
                    assert(self.cursor_y * self.size + self.cursor_x < self.size * self.size)
                        by (nonlinear_arith)
                        requires
                            self.cursor_y < self.size,
                            self.cursor_x < self.size,
                    ;
                    assert(self.size * self.size == n);
                }
                let idx = self.cursor_y * self.size + self.cursor_x;
                let placed = self.state.place(self.size, idx);
                if !placed {
                    StepOutcome::Continue
                } else {
                    match self.state.status {
                        GameStatus::Ongoing => StepOutcome::Placed,
                        _ => StepOutcome::Finished,
                    }
                }
            },
            Key::Quit => StepOutcome::Quit,
            Key::Other => StepOutcome::Continue,
        }
    }
}

} // verus!
