use vstd::prelude::*;

verus! {

/// One of the two players, identified by the mark it writes into a cell.
#[derive(Copy, Clone, Debug, PartialEq, Eq, Structural)]
pub enum Player {
    X,
    O,
}

/// The character standing for a player's mark, on the board and in saved games.
pub open spec fn player_char(p: Player) -> char {
    match p {
        Player::X => 'X',
        Player::O => 'O',
    }
}

/// The player who moves after `p`.
pub open spec fn opponent(p: Player) -> Player {
    match p {
        Player::X => Player::O,
        Player::O => Player::X,
    }
}

impl Player {
    /// The other player.
    pub fn other(self) -> (r: Self)
        ensures
            r == opponent(self),
    {
        match self {
            Player::X => Player::O,
            Player::O => Player::X,
        }
    }

    /// The mark character of this player: 'X' or 'O'.
    pub fn as_char(self) -> (c: char)
        ensures
            c == player_char(self),
    {
        match self {
            Player::X => 'X',
            Player::O => 'O',
        }
    }

    /// The player whose mark is `c`, if `c` is a mark.
    pub fn from_char(c: char) -> (r: Option<Player>)
        ensures
            r == (if c == 'X' {
                Some(Player::X)
            } else if c == 'O' {
                Some(Player::O)
            } else {
                None::<Player>
            }),
    {
        if c == 'X' {
            Some(Player::X)
        } else if c == 'O' {
            Some(Player::O)
        } else {
            None
        }
    }
}

} // verus!
