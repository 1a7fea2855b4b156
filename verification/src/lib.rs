//! A terminal tic-tac-toe game library with a configurable board size.
//!
//! The library holds the game's verified core: win and draw detection on an
//! N-by-N board, the state machine that the terminal loop drives, and the
//! save-file text format with a proved save/load round trip. Terminal and
//! file input/output live outside the library.

pub mod args;
pub mod game_error;
pub mod game_state;
pub mod codec;
pub mod game_status;
pub mod generate;
pub mod player;
pub mod session;

pub use args::{BoardArgs, GenerateArgs, ShellCompletion, TicTacToeArgs, TicTacToeSubcommand};
pub use game_error::GameError;
pub use game_state::GameState;
pub use game_status::GameStatus;
pub use generate::Generate;
pub use player::Player;
pub use session::{Key, LoadChoice, Session, StepOutcome};
