use vstd::prelude::*;

verus! {

/// Shells for which a completion script can be generated.
#[derive(Debug, Clone, PartialEq, Eq, Structural)]
pub enum ShellCompletion {
    Bash,
    Zsh,
    Fish,
}

/// Arguments of the completion-generating subcommand.
#[derive(Debug, Clone, PartialEq, Eq, Structural)]
pub struct GenerateArgs {
    pub shell: ShellCompletion,
}

/// The board-size argument; `None` means no size was given.
#[derive(Debug, Clone, Copy, PartialEq, Eq)]
pub struct BoardArgs {
    pub size: Option<usize>,
}

/// The game's subcommands: generate shell completions, or play on a board
/// of the given size.
#[derive(Debug, Clone, PartialEq, Eq)]
pub enum TicTacToeSubcommand {
    Generate(GenerateArgs),
    Board(BoardArgs),
}

/// The game's command line: an optional subcommand and a flag selecting the
/// graphical front-end instead of the terminal one.
#[derive(Debug, Clone)]
pub struct TicTacToeArgs {
    pub command: Option<TicTacToeSubcommand>,
    pub launch_app: Option<bool>,
}

} // verus!
