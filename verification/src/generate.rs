use crate::args::BoardArgs;
use crate::game_error::GameError;
use crate::game_state::{board_wf, GameState};
use crate::game_status::GameStatus;
use crate::player::{player_char, Player};
use vstd::arithmetic::div_mod::{lemma_fundamental_div_mod, lemma_fundamental_div_mod_converse};
use vstd::prelude::*;

verus! {

/// No cell of the board is blank.
pub open spec fn board_full(b: Seq<char>) -> bool {
    forall|i: int| 0 <= i < b.len() ==> #[trigger] b[i] != ' '
}

/// The number of lines checked for a win on a board of side `size`:
/// `size` rows, `size` columns, and the two diagonals.
pub open spec fn line_count(size: int) -> int {
    2 * size + 2
}

/// The board index of the `j`-th cell of line `li`. Lines `0..size` are the
/// rows, `size..2*size` the columns, `2*size` the main diagonal, and
/// `2*size + 1` the anti-diagonal.
pub open spec fn line_cell(size: int, li: int, j: int) -> int {
    if li < size {
        li * size + j
    } else if li < 2 * size {
        j * size + (li - size)
    } else if li == 2 * size {
        j * (size + 1)
    } else {
        (j + 1) * (size - 1)
    }
}

/// Line `li` is completely filled with one mark.
pub open spec fn line_won(b: Seq<char>, size: int, li: int) -> bool {
    &&& b[line_cell(size, li, 0)] != ' '
    &&& forall|j: int|
        0 <= j < size ==> #[trigger] b[line_cell(size, li, j)] == b[line_cell(size, li, 0)]
}

/// Some row, column, or diagonal is completely filled with one mark.
pub open spec fn any_line_won(b: Seq<char>, size: int) -> bool {
    exists|li: int| 0 <= li < line_count(size) && #[trigger] line_won(b, size, li)
}

/// The mark `m` has a completely filled line.
pub open spec fn mark_wins(b: Seq<char>, size: int, m: char) -> bool {
    exists|li: int|
        0 <= li < line_count(size) && #[trigger] line_won(b, size, li) && b[line_cell(
            size,
            li,
            0,
        )] == m
}

/// `st` is a correct verdict for the board `b` of side `size`: `Won(p)` iff
/// a line is filled with `p`'s mark, `Draw` iff the board is full with no
/// such line, and `Ongoing` iff a cell is still blank with no such line.
pub open spec fn status_matches(b: Seq<char>, size: int, st: GameStatus) -> bool {
    match st {
        GameStatus::Won(p) => mark_wins(b, size, player_char(p)),
        GameStatus::Draw => !any_line_won(b, size) && board_full(b),
        GameStatus::Ongoing => !any_line_won(b, size) && !board_full(b),
    }
}

/// Every cell of every line lies on the board.
proof fn lemma_line_cell_in_range(size: int, li: int, j: int)
    requires
        1 <= size,
        0 <= li < line_count(size),
        0 <= j < size,
    ensures
        0 <= line_cell(size, li, j) < size * size,
{
    if li < size {
        assert(li * size + j < size * size) by (nonlinear_arith)
            requires
                0 <= li < size,
                0 <= j < size,
        ;
        assert(0 <= li * size + j) by (nonlinear_arith)
            requires
                0 <= li,
                0 <= j,
                1 <= size,
        ;
    } else if li < 2 * size {
        assert(j * size + (li - size) < size * size) by (nonlinear_arith)
            requires
                0 <= j < size,
                0 <= li - size < size,
        ;
        assert(0 <= j * size) by (nonlinear_arith)
            requires
                0 <= j,
                1 <= size,
        ;
    } else if li == 2 * size {
        assert(j * (size + 1) <= (size - 1) * (size + 1)) by (nonlinear_arith)
            requires
                0 <= j <= size - 1,
                1 <= size,
        ;
        assert((size - 1) * (size + 1) < size * size) by (nonlinear_arith);
        assert(0 <= j * (size + 1)) by (nonlinear_arith)
            requires
                0 <= j,
                1 <= size,
        ;
    } else {
        assert((j + 1) * (size - 1) <= size * (size - 1)) by (nonlinear_arith)
            requires
                0 <= j < size,
                1 <= size,
        ;
        assert(size * (size - 1) < size * size) by (nonlinear_arith)
            requires
                1 <= size,
        ;
        assert(0 <= (j + 1) * (size - 1)) by (nonlinear_arith)
            requires
                0 <= j,
                1 <= size,
        ;
    }
}

/// The board index of the `j`-th cell of line `li`, computed without
/// overflow.
fn line_index(size: usize, li: usize, j: usize) -> (idx: usize)
    requires
        1 <= size,
        (li as int) < line_count(size as int),
        j < size,
        size * size <= usize::MAX,
    ensures
        idx == line_cell(size as int, li as int, j as int),
        idx < size * size,
{
    proof {
        lemma_line_cell_in_range(size as int, li as int, j as int);
    }
    if li < size {
        proof {
            assert(li * size + j < size * size) by (nonlinear_arith)
                requires
                    li < size,
                    j < size,
            ;
        }
        li * size + j
    } else {
        let r = li - size;
        if r < size {
            proof {
                assert(j * size + r < size * size) by (nonlinear_arith)
                    requires
                        j < size,
                        r < size,
                        0 <= j,
                        0 <= r,
                        1 <= size,
                ;
            }
            j * size + r
        } else if r == size {
            proof {
                assert(size < size * size || size == 1) by (nonlinear_arith)
                    requires
                        1 <= size,
                ;
                assert(j * (size + 1) < size * size) by (nonlinear_arith)
                    requires
                        0 <= j < size,
                        1 <= size,
                ;
            }
            j * (size + 1)
        } else {
            proof {
                assert((j + 1) * (size - 1) < size * size) by (nonlinear_arith)
                    requires
                        0 <= j < size,
                        1 <= size,
                ;
            }
            (j + 1) * (size - 1)
        }
    }
}

/// If line `li` is filled with a single mark, that mark; otherwise `None`.
fn line_filled(board: &Vec<char>, size: usize, li: usize) -> (r: Option<char>)
    requires
        1 <= size,
        board@.len() == size * size,
        size * size <= usize::MAX,
        (li as int) < line_count(size as int),
    ensures
        r matches Some(m) ==> line_won(board@, size as int, li as int) && m == board@[line_cell(
            size as int,
            li as int,
            0,
        )],
        r is None ==> !line_won(board@, size as int, li as int),
{
    let first = board[line_index(size, li, 0)];
    if first == ' ' {
        return None;
    }
    let mut j: usize = 1;
    while j < size
        invariant
            1 <= size,
            board@.len() == size * size,
            size * size <= usize::MAX,
            (li as int) < line_count(size as int),
            1 <= j <= size,
            first == board@[line_cell(size as int, li as int, 0)],
            first != ' ',
            forall|k: int|
                0 <= k < j ==> #[trigger] board@[line_cell(size as int, li as int, k)] == first,
        decreases size - j,
    {
        if board[line_index(size, li, j)] != first {
            return None;
        }
        j += 1;
    }
    Some(first)
}

/// The winning verdict for the mark that fills line `li`.
fn won_status(board: &Vec<char>, size: usize, li: usize, m: char) -> (st: GameStatus)
    requires
        1 <= size,
        board@.len() == size * size,
        board_wf(board@),
        (li as int) < line_count(size as int),
        line_won(board@, size as int, li as int),
        m == board@[line_cell(size as int, li as int, 0)],
    ensures
        status_matches(board@, size as int, st),
        st is Won,
{
    proof {
        lemma_line_cell_in_range(size as int, li as int, 0);
    }
    let p = if m == 'X' {
        Player::X
    } else {
        Player::O
    };
    proof {
        assert(mark_wins(board@, size as int, player_char(p)));
    }
    GameStatus::Won(p)
}

/// The verdict for a well-formed square board: the first winning mark found
/// scanning rows and columns interleaved and then the two diagonals, else
/// `Draw` on a full board, else `Ongoing`.
pub fn board_status(board: &Vec<char>, size: usize) -> (st: GameStatus)
    requires
        1 <= size,
        board@.len() == size * size,
        board_wf(board@),
    ensures
        status_matches(board@, size as int, st),
{
    let ghost b = board@;
    let ghost s = size as int;
    let n = board.len();
    proof {
        assert(size * size <= usize::MAX);
        assert(size + size <= size * size || size == 1) by (nonlinear_arith)
            requires
                1 <= size,
        ;
    }
    let mut r: usize = 0;
    while r < size
        invariant
            1 <= size,
            board@.len() == size * size,
            board_wf(board@),
            b == board@,
            s == size as int,
            r <= size,
            size * size <= usize::MAX,
            size == 1 || size + size <= size * size,
            forall|i: int| 0 <= i < r ==> !(#[trigger] line_won(b, s, i)),
            forall|i: int| s <= i < s + r ==> !(#[trigger] line_won(b, s, i)),
        decreases size - r,
    {
        if let Some(m) = line_filled(board, size, r) {
            return won_status(board, size, r, m);
        }
        let col_li = size + r;
        if let Some(m) = line_filled(board, size, col_li) {
            return won_status(board, size, col_li, m);
        }
        r += 1;
    }
    let diag_li = size + size;
    if let Some(m) = line_filled(board, size, diag_li) {
        return won_status(board, size, diag_li, m);
    }
    proof {
        assert(size + size + 1 <= size * size || size <= 2) by (nonlinear_arith)
            requires
                1 <= size,
        ;
    }
    let anti_li = size + size + 1;
    if let Some(m) = line_filled(board, size, anti_li) {
        return won_status(board, size, anti_li, m);
    }
    proof {
        assert forall|li: int| 0 <= li < line_count(s) implies !line_won(b, s, li) by {
            if li == 2 * s {
                assert(!line_won(b, s, diag_li as int));
            } else if li == 2 * s + 1 {
                assert(!line_won(b, s, anti_li as int));
            }
        }
    }
    let mut i: usize = 0;
    while i < board.len()
        invariant
            board@.len() == size * size,
            b == board@,
            s == size as int,
            i <= board@.len(),
            !any_line_won(b, s),
            forall|k: int| 0 <= k < i ==> #[trigger] b[k] != ' ',
        decreases board@.len() - i,
    {
        if board[i] == ' ' {
            return GameStatus::Ongoing;
        }
        i += 1;
    }
    GameStatus::Draw
}

/// Trait for generating a fresh game and checking the board for a verdict.
pub trait Generate: Sized {
    /// `st` is a correctly generated fresh state for `args`.
    spec fn fresh_ok(args: &BoardArgs, st: &Self) -> bool;

    /// Creates a new empty board based on the provided arguments.
    fn new(boardargs: &BoardArgs) -> (r: Result<Self, GameError>)
        ensures
            match r {
                Ok(st) => boardargs.size matches Some(s) && s * s <= usize::MAX && Self::fresh_ok(
                    boardargs,
                    &st,
                ),
                Err(e) => e == GameError::InvalidBoardSize && (boardargs.size is None
                    || (boardargs.size matches Some(s) && s * s > usize::MAX)),
            },
    ;

    /// Checks the board for a winner, a draw, or an ongoing game, after
    /// validating the declared size against the board's length.
    fn check_winner(boardargs: &BoardArgs, state: GameState) -> (r: Result<GameStatus, GameError>)
        requires
            state.wf(),
        ensures
            match r {
                Ok(st) => boardargs.size matches Some(s) && 1 <= s && state.board@.len() == s * s
                    && status_matches(state.board@, s as int, st),
                Err(GameError::InvalidBoardSize) => boardargs.size is None || (boardargs.size
                    matches Some(s) && state.board@.len() != s * s),
                Err(GameError::EmptyBoard) => boardargs.size == Some(0usize)
                    && state.board@.len() == 0,
                Err(_) => false,
            },
    ;
}

impl Generate for GameState {
    open spec fn fresh_ok(args: &BoardArgs, st: &GameState) -> bool {
        &&& st.board@.len() == args.size->Some_0 * args.size->Some_0
        &&& forall|i: int| 0 <= i < st.board@.len() ==> #[trigger] st.board@[i] == ' '
        &&& st.current_player == Player::X
        &&& st.status == GameStatus::Ongoing
    }

    fn new(boardargs: &BoardArgs) -> (r: Result<GameState, GameError>) {
        let size = match boardargs.size {
            Some(s) => s,
            None => {
                return Err(GameError::InvalidBoardSize);
            },
        };
        let total = match size.checked_mul(size) {
            Some(t) => t,
            None => {
                return Err(GameError::InvalidBoardSize);
            },
        };
        let mut board: Vec<char> = Vec::new();
        let mut i: usize = 0;
        while i < total
            invariant
                i <= total,
                board@.len() == i,
                forall|k: int| 0 <= k < i ==> #[trigger] board@[k] == ' ',
            decreases total - i,
        {
            board.push(' ');
            i += 1;
        }
        Ok(GameState { board, current_player: Player::X, status: GameStatus::Ongoing })
    }

    fn check_winner(boardargs: &BoardArgs, state: GameState) -> (r: Result<GameStatus, GameError>) {
        let size = match boardargs.size {
            Some(s) => s,
            None => {
                return Err(GameError::InvalidBoardSize);
            },
        };
        if size == 0 {
            if state.board.len() == 0 {
                return Err(GameError::EmptyBoard);
            } else {
                return Err(GameError::InvalidBoardSize);
            }
        }
        let n = state.board.len();
        if n / size != size || n % size != 0 {
            proof {
                if n == size * size {
                    lemma_fundamental_div_mod_converse(n as int, size as int, size as int, 0);
                }
            }
            return Err(GameError::InvalidBoardSize);
        }
        proof {
            lemma_fundamental_div_mod(n as int, size as int);
        }
        Ok(board_status(&state.board, size))
    }
}

/// Law: on a board with exactly one completed line, whose mark is player
/// `p`'s, every correct verdict is a win for `p`.
pub proof fn lemma_unique_line_winner(b: Seq<char>, size: int, li: int, p: Player, st: GameStatus)
    requires
        3 <= size,
        b.len() == size * size,
        0 <= li < line_count(size),
        line_won(b, size, li),
        forall|m: int| 0 <= m < line_count(size) && m != li ==> !line_won(b, size, m),
        b[line_cell(size, li, 0)] == player_char(p),
        status_matches(b, size, st),
    ensures
        st == GameStatus::Won(p),
{
    assert(any_line_won(b, size));
    match st {
        GameStatus::Won(q) => {
            let li2 = choose|li2: int|
                0 <= li2 < line_count(size) && #[trigger] line_won(b, size, li2) && b[line_cell(
                    size,
                    li2,
                    0,
                )] == player_char(q);
            assert(li2 == li);
            assert(player_char(q) == player_char(p));
            assert(q == p) by {
                if q != p {
                    assert(player_char(Player::X) != player_char(Player::O));
                }
            }
        },
        GameStatus::Draw => {
            assert(false);
        },
        GameStatus::Ongoing => {
            assert(false);
        },
    }
}

/// Law: on a fully filled board with no completed line, every correct
/// verdict is a draw.
pub proof fn lemma_full_board_is_draw(b: Seq<char>, size: int, st: GameStatus)
    requires
        1 <= size,
        b.len() == size * size,
        board_full(b),
        !any_line_won(b, size),
        status_matches(b, size, st),
    ensures
        st == GameStatus::Draw,
{
    match st {
        GameStatus::Won(q) => {
            assert(false);
        },
        GameStatus::Draw => {
        },
        GameStatus::Ongoing => {
            assert(false);
        },
    }
}

/// Law: on a board with a blank cell and no completed line, every correct
/// verdict is an ongoing game.
pub proof fn lemma_open_board_is_ongoing(b: Seq<char>, size: int, i: int, st: GameStatus)
    requires
        1 <= size,
        b.len() == size * size,
        0 <= i < b.len(),
        b[i] == ' ',
        !any_line_won(b, size),
        status_matches(b, size, st),
    ensures
        st == GameStatus::Ongoing,
{
    match st {
        GameStatus::Won(q) => {
            assert(false);
        },
        GameStatus::Draw => {
            assert(false);
        },
        GameStatus::Ongoing => {
        },
    }
}

} // verus!
