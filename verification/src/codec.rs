use crate::game_error::GameError;
use crate::game_state::{board_wf, model_wf, GameState, StateModel};
use crate::game_status::GameStatus;
use crate::player::{player_char, Player};
use vstd::prelude::*;
use vstd::string::*;

verus! {

/// The save text of one board cell: the cell's character in quotes.
pub open spec fn cell_json(c: char) -> Seq<char> {
    seq!['"', c, '"']
}

/// The save text of the board's cells, comma separated.
pub open spec fn cells_json(b: Seq<char>) -> Seq<char>
    decreases b.len(),
{
    if b.len() == 0 {
        Seq::empty()
    } else if b.len() == 1 {
        cell_json(b[0])
    } else {
        cells_json(b.drop_last()) + seq![','] + cell_json(b.last())
    }
}

/// The length of `cells_json` for a board of `n` cells.
spec fn cells_json_len(n: int) -> int {
    if n == 0 {
        0
    } else {
        4 * n - 1
    }
}

/// The save text of a game status.
pub open spec fn status_json(st: GameStatus) -> Seq<char> {
    match st {
        GameStatus::Ongoing => "\"Ongoing\""@,
        GameStatus::Draw => "\"Draw\""@,
        GameStatus::Won(p) => "{\"Won\":\""@ + seq![player_char(p)] + "\"}"@,
    }
}

/// The length of `status_json`.
spec fn status_json_len(st: GameStatus) -> int {
    match st {
        GameStatus::Ongoing => 9,
        GameStatus::Draw => 6,
        GameStatus::Won(p) => 11,
    }
}

/// The exact save text of a game state: a JSON object holding the board,
/// the current player, and the status.
pub open spec fn state_json(v: StateModel) -> Seq<char> {
    "{\"board\":["@ + cells_json(v.board) + "],\"current_player\":\""@ + seq![
        player_char(v.current_player),
    ] + "\",\"status\":"@ + status_json(v.status) + "}"@
}

/// Shorthand for the length of a model's cells text.
spec fn cjl(v: StateModel) -> int {
    cells_json_len(v.board.len() as int)
}

/// Character-level description of the cells text: a quote, the cell, a
/// quote, and a comma, repeated.
proof fn lemma_cells_json_chars(b: Seq<char>)
    ensures
        cells_json(b).len() == cells_json_len(b.len() as int),
        forall|j: int|
            0 <= j < cells_json(b).len() ==> #[trigger] cells_json(b)[j] == (if j % 4 == 0 {
                '"'
            } else if j % 4 == 1 {
                b[j / 4]
            } else if j % 4 == 2 {
                '"'
            } else {
                ','
            }),
    decreases b.len(),
{
    if b.len() == 0 {
    } else if b.len() == 1 {
        assert(cells_json(b) == cell_json(b[0]));
    } else {
        let pre = b.drop_last();
        lemma_cells_json_chars(pre);
        let c = cells_json(b);
        let lp = cells_json(pre).len();
        assert(c == cells_json(pre) + seq![','] + cell_json(b.last()));
        assert forall|j: int| 0 <= j < c.len() implies #[trigger] c[j] == (if j % 4 == 0 {
            '"'
        } else if j % 4 == 1 {
            b[j / 4]
        } else if j % 4 == 2 {
            '"'
        } else {
            ','
        }) by {
            if j < lp {
                assert(c[j] == cells_json(pre)[j]);
                if j % 4 == 1 {
                    assert(pre[j / 4] == b[j / 4]);
                }
            } else if j == lp {
                assert(c[j] == ',');
                assert(j == 4 * (b.len() - 2) + 3);
            } else {
                assert(c[j] == cell_json(b.last())[j - lp - 1]);
                assert(j - lp - 1 < 3);
                if j == lp + 1 {
                    assert(j == 4 * (b.len() - 1));
                } else if j == lp + 2 {
                    assert(j == 4 * (b.len() - 1) + 1);
                    assert(b[j / 4] == b.last());
                } else {
                    assert(j == 4 * (b.len() - 1) + 2);
                }
            }
        }
    }
}

/// Lengths and positions of the fixed and variable parts of the save text.
proof fn lemma_state_json_parts(v: StateModel)
    ensures
        cells_json(v.board).len() == cjl(v),
        status_json(v.status).len() == status_json_len(v.status),
        state_json(v).len() == 43 + cjl(v) + status_json_len(v.status),
        state_json(v).subrange(0, 10) == "{\"board\":["@,
        state_json(v).subrange(10, 10 + cjl(v)) == cells_json(v.board),
        state_json(v).subrange(10 + cjl(v), 30 + cjl(v)) == "],\"current_player\":\""@,
        state_json(v)[30 + cjl(v)] == player_char(v.current_player),
        state_json(v).subrange(31 + cjl(v), 42 + cjl(v)) == "\",\"status\":"@,
        state_json(v).subrange(42 + cjl(v), 42 + cjl(v) + status_json_len(v.status))
            == status_json(v.status),
        state_json(v)[42 + cjl(v) + status_json_len(v.status)] == '}',
{
    reveal_strlit("{\"board\":[");
    reveal_strlit("],\"current_player\":\"");
    reveal_strlit("\",\"status\":");
    reveal_strlit("\"Ongoing\"");
    reveal_strlit("\"Draw\"");
    reveal_strlit("{\"Won\":\"");
    reveal_strlit("\"}");
    reveal_strlit("}");
    lemma_cells_json_chars(v.board);
    let s = state_json(v);
    let cl = cjl(v);
    let sl = status_json_len(v.status);
    assert(status_json(v.status).len() == sl);
    assert(s.len() == 43 + cl + sl);
    assert(s.subrange(0, 10) =~= "{\"board\":["@);
    assert(s.subrange(10, 10 + cl) =~= cells_json(v.board));
    assert(s.subrange(10 + cl, 30 + cl) =~= "],\"current_player\":\""@);
    assert(s.subrange(31 + cl, 42 + cl) =~= "\",\"status\":"@);
    assert(s.subrange(42 + cl, 42 + cl + sl) =~= status_json(v.status));
}

/// Absolute positions and characters of the cells region of the save text:
/// what the character at each position of that region is, and that a closing
/// bracket follows it.
proof fn lemma_cells_region(v: StateModel)
    ensures
        state_json(v).len() == 43 + cjl(v) + status_json_len(v.status),
        6 <= status_json_len(v.status),
        0 <= cjl(v),
        v.board.len() > 0 ==> cjl(v) == 4 * v.board.len() - 1,
        v.board.len() == 0 ==> cjl(v) == 0,
        forall|j: int|
            10 <= j < 10 + cjl(v) ==> #[trigger] state_json(v)[j] == (if (j - 10) % 4 == 0 {
                '"'
            } else if (j - 10) % 4 == 1 {
                v.board[(j - 10) / 4]
            } else if (j - 10) % 4 == 2 {
                '"'
            } else {
                ','
            }),
        state_json(v)[10 + cjl(v)] == ']',
{
    lemma_state_json_parts(v);
    lemma_cells_json_chars(v.board);
    reveal_strlit("],\"current_player\":\"");
    assert(state_json(v)[10 + cjl(v)] == state_json(v).subrange(10 + cjl(v), 30 + cjl(v))[0]);
    assert forall|j: int|
        10 <= j < 10 + cjl(v) implies #[trigger] state_json(v)[j] == (if (j - 10) % 4 == 0 {
        '"'
    } else if (j - 10) % 4 == 1 {
        v.board[(j - 10) / 4]
    } else if (j - 10) % 4 == 2 {
        '"'
    } else {
        ','
    }) by {
        assert(state_json(v)[j] == state_json(v).subrange(10, 10 + cjl(v))[j - 10]);
    }
}

/// Law: the save text determines the state. Two well-formed states with the
/// same save text are the same state, so loading reproduces a saved state
/// exactly.
pub proof fn lemma_state_json_injective(v1: StateModel, v2: StateModel)
    requires
        model_wf(v1),
        model_wf(v2),
        state_json(v1) == state_json(v2),
    ensures
        v1 == v2,
{
    reveal_strlit("{\"board\":[");
    reveal_strlit("],\"current_player\":\"");
    reveal_strlit("\",\"status\":");
    reveal_strlit("\"Ongoing\"");
    reveal_strlit("\"Draw\"");
    reveal_strlit("{\"Won\":\"");
    reveal_strlit("\"}");
    reveal_strlit("}");
    lemma_state_json_parts(v1);
    lemma_state_json_parts(v2);
    lemma_cells_json_chars(v1.board);
    lemma_cells_json_chars(v2.board);
    let s = state_json(v1);
    let cl1 = cjl(v1);
    let cl2 = cjl(v2);
    // The board lengths agree: otherwise the closing bracket of the shorter
    // cells text would fall inside the other's cells text, whose characters
    // are quotes, commas, and cell marks only.
    assert(cl1 == cl2) by {
        if cl1 < cl2 {
            assert(s[10 + cl1] == "],\"current_player\":\""@[0]);
            assert(s[10 + cl1] == cells_json(v2.board)[cl1]);
            assert(cell_wf_char_at(v2, cl1));
        } else if cl2 < cl1 {
            assert(s[10 + cl2] == "],\"current_player\":\""@[0]);
            assert(s[10 + cl2] == cells_json(v1.board)[cl2]);
            assert(cell_wf_char_at(v1, cl2));
        }
    }
    assert(v1.board.len() == v2.board.len());
    assert(cells_json(v1.board) == cells_json(v2.board)) by {
        assert(state_json(v1).subrange(10, 10 + cl1) == state_json(v2).subrange(10, 10 + cl2));
    }
    assert(v1.board =~= v2.board) by {
        assert forall|i: int| 0 <= i < v1.board.len() implies v1.board[i] == v2.board[i] by {
            assert(cells_json(v1.board)[4 * i + 1] == v1.board[(4 * i + 1) / 4]);
            assert(cells_json(v2.board)[4 * i + 1] == v2.board[(4 * i + 1) / 4]);
            assert((4 * i + 1) / 4 == i);
        }
    }
    assert(player_char(v1.current_player) == player_char(v2.current_player));
    assert(v1.current_player == v2.current_player) by {
        if v1.current_player != v2.current_player {
            assert(player_char(Player::X) != player_char(Player::O));
        }
    }
    let sl1 = status_json_len(v1.status);
    let sl2 = status_json_len(v2.status);
    assert(sl1 == sl2);
    assert(status_json(v1.status) == status_json(v2.status)) by {
        assert(state_json(v1).subrange(42 + cl1, 42 + cl1 + sl1) == state_json(v2).subrange(
            42 + cl2,
            42 + cl2 + sl2,
        ));
    }
    assert(v1.status == v2.status) by {
        let t1 = status_json(v1.status);
        let t2 = status_json(v2.status);
        match (v1.status, v2.status) {
            (GameStatus::Won(p1), GameStatus::Won(p2)) => {
                assert(t1[8] == player_char(p1));
                assert(t2[8] == player_char(p2));
                if p1 != p2 {
                    assert(player_char(Player::X) != player_char(Player::O));
                }
            },
            (GameStatus::Ongoing, GameStatus::Won(p2)) => {
                assert(t1.len() == 9 && t2.len() == 11);
            },
            (GameStatus::Won(p1), GameStatus::Ongoing) => {
                assert(t1.len() == 11 && t2.len() == 9);
            },
            (GameStatus::Draw, GameStatus::Won(p2)) => {
                assert(t1.len() == 6 && t2.len() == 11);
            },
            (GameStatus::Won(p1), GameStatus::Draw) => {
                assert(t1.len() == 11 && t2.len() == 6);
            },
            (GameStatus::Ongoing, GameStatus::Draw) => {
                assert(t1.len() == 9 && t2.len() == 6);
            },
            (GameStatus::Draw, GameStatus::Ongoing) => {
                assert(t1.len() == 6 && t2.len() == 9);
            },
            _ => {},
        }
    }
    assert(v1 =~= v2);
}

/// The character at position `j` of a well-formed board's cells text is a
/// quote, a comma, or a cell mark — never a closing bracket.
spec fn cell_wf_char_at(v: StateModel, j: int) -> bool {
    cells_json(v.board)[j] == '"' || cells_json(v.board)[j] == ',' || cells_json(v.board)[j] == ' '
        || cells_json(v.board)[j] == 'X' || cells_json(v.board)[j] == 'O'
}

/// Whether the characters of `lit` stand in `s` at position `pos`.
fn has_lit_at(s: &str, pos: usize, lit: &str) -> (b: bool)
    requires
        pos <= s@.len(),
    ensures
        b <==> (pos + lit@.len() <= s@.len() && s@.subrange(
            pos as int,
            pos as int + lit@.len() as int,
        ) == lit@),
{
    let slen = s.unicode_len();
    let llen = lit.unicode_len();
    if llen > slen - pos {
        return false;
    }
    let mut j: usize = 0;
    while j < llen
        invariant
            slen == s@.len(),
            llen == lit@.len(),
            pos + llen <= slen,
            j <= llen,
            forall|k: int| 0 <= k < j ==> s@[pos + k] == lit@[k],
        decreases llen - j,
    {
        if s.get_char(pos + j) != lit.get_char(j) {
            proof {
                if s@.subrange(pos as int, pos as int + lit@.len() as int) == lit@ {
                    assert(s@.subrange(pos as int, pos as int + lit@.len() as int)[j as int]
                        == s@[pos + j]);
                    assert(false);
                }
            }
            return false;
        }
        j += 1;
    }
    proof {
        assert(s@.subrange(pos as int, pos as int + lit@.len() as int) =~= lit@);
    }
    true
}

/// Parses the board cells of the save text, returning the cells and the
/// position of the closing bracket.
fn parse_cells(s: &str, hint: Ghost<Option<StateModel>>) -> (r: Option<(Vec<char>, usize)>)
    requires
        hint@ matches Some(v) ==> model_wf(v) && s@ == state_json(v),
        10 <= s@.len(),
        s@.subrange(0, 10) == "{\"board\":["@,
    ensures
        r matches Some(cp) ==> 10 <= cp.1 < s@.len() && s@[cp.1 as int] == ']' && board_wf(cp.0@)
            && s@.subrange(0, cp.1 as int) == "{\"board\":["@ + cells_json(cp.0@),
        hint@ matches Some(v) ==> r matches Some(cp) && cp.0@ == v.board,
{
    let ghost hv = hint@;
    let slen = s.unicode_len();
    let mut cells: Vec<char> = Vec::new();
    let mut pos: usize = 10;
    loop
        invariant_except_break
            cells@.len() == 0 ==> pos == 10,
            cells@.len() > 0 ==> pos == 10 + 4 * cells@.len() && s@.subrange(0, pos as int)
                == "{\"board\":["@ + cells_json(cells@) + seq![','],
            hv matches Some(v) ==> cells@ == v.board.take(cells@.len() as int) && (cells@.len()
                == 0 || cells@.len() < v.board.len()),
        invariant
            hv == hint@,
            slen == s@.len(),
            10 <= pos <= slen,
            board_wf(cells@),
            s@.subrange(0, 10) == "{\"board\":["@,
            hv matches Some(v) ==> model_wf(v) && s@ == state_json(v),
        ensures
            10 <= pos < slen,
            s@[pos as int] == ']',
            s@.subrange(0, pos as int) == "{\"board\":["@ + cells_json(cells@),
            board_wf(cells@),
            hv matches Some(v) ==> cells@ == v.board,
        decreases slen - pos,
    {
        let ghost k = cells@.len() as int;
        proof {
            if hv is Some {
                lemma_cells_region(hv->Some_0);
            }
        }
        if pos >= slen {
            proof {
                if hv is Some {
                    assert(false);
                }
            }
            return None;
        }
        let ch = s.get_char(pos);
        if ch == ']' {
            if cells.len() == 0 {
                proof {
                    assert(s@.subrange(0, pos as int) =~= "{\"board\":["@ + cells_json(cells@));
                    if hv is Some {
                        let v = hv->Some_0;
                        assert(v.board.len() == 0) by {
                            if v.board.len() > 0 {
                                assert(s@[10] == state_json(v)[10]);
                            }
                        }
                        assert(cells@ =~= v.board);
                    }
                }
                break;
            } else {
                proof {
                    if hv is Some {
                        let v = hv->Some_0;
                        assert(s@[pos as int] == state_json(v)[10 + 4 * k]);
                        assert(false);
                    }
                }
                return None;
            }
        }
        // a cell is three characters, and a separator or bracket follows
        proof {
            if hv is Some {
                let v = hv->Some_0;
                let n = v.board.len() as int;
                assert(k < n) by {
                    if k == 0 && n == 0 {
                        assert(s@[10] == state_json(v)[10]);
                        assert(false);
                    }
                }
                assert(s@[pos as int] == state_json(v)[10 + 4 * k]);
                assert(s@[pos as int + 1] == state_json(v)[10 + 4 * k + 1]);
                assert(s@[pos as int + 2] == state_json(v)[10 + 4 * k + 2]);
                assert(state_json(v)[10 + 4 * k + 1] == v.board[k]);
            }
        }
        if slen - pos < 4 {
            proof {
                if hv is Some {
                    assert(false);
                }
            }
            return None;
        }
        if ch != '"' {
            proof {
                if hv is Some {
                    assert(false);
                }
            }
            return None;
        }
        let c = s.get_char(pos + 1);
        if !(c == ' ' || c == 'X' || c == 'O') {
            proof {
                if hv is Some {
                    assert(false);
                }
            }
            return None;
        }
        if s.get_char(pos + 2) != '"' {
            proof {
                if hv is Some {
                    assert(false);
                }
            }
            return None;
        }
        proof {
            let pre = cells@;
            let cur = cells@.push(c);
            assert(cur.drop_last() =~= pre);
            if pre.len() == 0 {
                assert(cells_json(cur) == cell_json(c));
                assert(s@.subrange(0, pos as int + 3) =~= "{\"board\":["@ + cells_json(cur));
            } else {
                assert(cells_json(cur) == cells_json(pre) + seq![','] + cell_json(c));
                assert(s@.subrange(0, pos as int + 3) =~= "{\"board\":["@ + cells_json(cur));
            }
            if hv is Some {
                let v = hv->Some_0;
                assert(cur =~= v.board.take(k + 1));
            }
        }
        cells.push(c);
        pos = pos + 3;
        let d = s.get_char(pos);
        proof {
            if hv is Some {
                let v = hv->Some_0;
                let n = v.board.len() as int;
                if k + 1 < n {
                    assert(s@[pos as int] == state_json(v)[10 + 4 * k + 3]);
                    assert(state_json(v)[10 + 4 * k + 3] == ',');
                } else {
                    assert(s@[pos as int] == state_json(v)[10 + cjl(v)]);
                    assert(state_json(v)[10 + cjl(v)] == ']');
                }
            }
        }
        if d == ',' {
            proof {
                assert(s@.subrange(0, pos as int + 1) =~= s@.subrange(0, pos as int) + seq![
                    s@[pos as int],
                ]);
                if hv is Some {
                    let v = hv->Some_0;
                    assert(cells@.len() < v.board.len());
                }
            }
            pos = pos + 1;
        } else if d == ']' {
            proof {
                if hv is Some {
                    let v = hv->Some_0;
                    assert(cells@.len() == v.board.len());
                    assert(cells@ =~= v.board);
                }
            }
            break;
        } else {
            proof {
                if hv is Some {
                    assert(false);
                }
            }
            return None;
        }
    }
    Some((cells, pos))
}

/// Parses the status part of the save text, returning the status and the
/// position just past it.
fn parse_status(s: &str, pos: usize, hint: Ghost<Option<StateModel>>) -> (r: Option<
    (GameStatus, usize),
>)
    requires
        pos <= s@.len(),
        s@.len() <= usize::MAX,
        hint@ matches Some(v) ==> model_wf(v) && s@ == state_json(v) && pos == 42 + cjl(v),
    ensures
        r matches Some(sp) ==> sp.1 == pos + status_json_len(sp.0) && sp.1 <= s@.len()
            && s@.subrange(pos as int, sp.1 as int) == status_json(sp.0),
        hint@ matches Some(v) ==> r matches Some(sp) && sp.0 == v.status,
{
    let ghost hv = hint@;
    proof {
        reveal_strlit("\"Ongoing\"");
        reveal_strlit("\"Draw\"");
        reveal_strlit("{\"Won\":\"X\"}");
        reveal_strlit("{\"Won\":\"O\"}");
        reveal_strlit("{\"Won\":\"");
        reveal_strlit("\"}");
        if hv is Some {
            let v = hv->Some_0;
            lemma_state_json_parts(v);
            match v.status {
                GameStatus::Ongoing => {
                    assert(s@.subrange(pos as int, pos as int + 9) == "\"Ongoing\""@);
                },
                GameStatus::Draw => {
                    assert(s@.subrange(pos as int, pos as int + 6) == "\"Draw\""@);
                },
                GameStatus::Won(p) => {
                    match p {
                        Player::X => {
                            assert(s@.subrange(pos as int, pos as int + 11)
                                =~= "{\"Won\":\"X\"}"@);
                        },
                        Player::O => {
                            assert(s@.subrange(pos as int, pos as int + 11)
                                =~= "{\"Won\":\"O\"}"@);
                        },
                    }
                },
            }
        }
    }
    if has_lit_at(s, pos, "\"Ongoing\"") {
        proof {
            if hv is Some {
                let v = hv->Some_0;
                assert(v.status == GameStatus::Ongoing) by {
                    match v.status {
                        GameStatus::Ongoing => {},
                        GameStatus::Draw => {
                            assert(s@[pos as int + 1] == "\"Ongoing\""@[1]);
                            assert(s@[pos as int + 1] == "\"Draw\""@[1]);
                        },
                        GameStatus::Won(p) => {
                            assert(s@[pos as int] == "\"Ongoing\""@[0]);
                            assert(s@[pos as int] == status_json(v.status)[0]);
                        },
                    }
                }
            }
        }
        Some((GameStatus::Ongoing, pos + 9))
    } else if has_lit_at(s, pos, "\"Draw\"") {
        proof {
            if hv is Some {
                let v = hv->Some_0;
                assert(v.status == GameStatus::Draw) by {
                    match v.status {
                        GameStatus::Draw => {},
                        GameStatus::Ongoing => {},
                        GameStatus::Won(p) => {
                            assert(s@[pos as int] == "\"Draw\""@[0]);
                            assert(s@[pos as int] == status_json(v.status)[0]);
                        },
                    }
                }
            }
        }
        Some((GameStatus::Draw, pos + 6))
    } else if has_lit_at(s, pos, "{\"Won\":\"X\"}") {
        proof {
            if hv is Some {
                let v = hv->Some_0;
                assert(v.status == GameStatus::Won(Player::X)) by {
                    match v.status {
                        GameStatus::Won(p) => {
                            if p != Player::X {
                                assert(s@[pos as int + 8] == "{\"Won\":\"X\"}"@[8]);
                                assert(s@[pos as int + 8] == status_json(v.status)[8]);
                            }
                        },
                        GameStatus::Ongoing => {},
                        GameStatus::Draw => {},
                    }
                }
            }
            assert(s@.subrange(pos as int, pos as int + 11) =~= status_json(GameStatus::Won(
                Player::X,
            )));
        }
        Some((GameStatus::Won(Player::X), pos + 11))
    } else if has_lit_at(s, pos, "{\"Won\":\"O\"}") {
        proof {
            if hv is Some {
                let v = hv->Some_0;
                assert(v.status == GameStatus::Won(Player::O)) by {
                    match v.status {
                        GameStatus::Won(p) => {},
                        GameStatus::Ongoing => {},
                        GameStatus::Draw => {},
                    }
                }
            }
            assert(s@.subrange(pos as int, pos as int + 11) =~= status_json(GameStatus::Won(
                Player::O,
            )));
        }
        Some((GameStatus::Won(Player::O), pos + 11))
    } else {
        proof {
            if hv is Some {
                assert(false);
            }
        }
        None
    }
}

/// Parses the save text back into a state. On any input that is the save
/// text of the well-formed model in `hint`, it returns exactly that model's
/// state; whatever it returns, the input is the returned state's save text.
#[verifier::rlimit(50)]
fn parse_state(s: &str, hint: Ghost<Option<StateModel>>) -> (r: Option<GameState>)
    requires
        hint@ matches Some(v) ==> model_wf(v) && s@ == state_json(v),
    ensures
        r matches Some(st) ==> st.wf() && s@ == state_json(st@),
        hint@ matches Some(v) ==> r matches Some(st) && st@ == v,
{
    let ghost hv = hint@;
    let slen = s.unicode_len();
    if !has_lit_at(s, 0, "{\"board\":[") {
        proof {
            if hv is Some {
                let v = hv->Some_0;
                lemma_state_json_parts(v);
                reveal_strlit("{\"board\":[");
                assert(false);
            }
        }
        return None;
    }
    proof {
        reveal_strlit("{\"board\":[");
        assert(s@.subrange(0, 10) == "{\"board\":["@);
        assert(10 <= s@.len());
    }
    let cp = match parse_cells(s, hint) {
        Some(cp) => cp,
        None => {
            return None;
        },
    };
    let cells = cp.0;
    let mut pos = cp.1;
    let ghost ce = pos as int;
    proof {
        if hv is Some {
            let v = hv->Some_0;
            lemma_state_json_parts(v);
            assert(ce == 10 + cjl(v));
        }
    }
    if !has_lit_at(s, pos, "],\"current_player\":\"") {
        proof {
            reveal_strlit("],\"current_player\":\"");
            if hv is Some {
                let v = hv->Some_0;
                lemma_state_json_parts(v);
                assert(false);
            }
        }
        return None;
    }
    proof {
        reveal_strlit("],\"current_player\":\"");
        assert(s@.subrange(0, ce + 20) =~= s@.subrange(0, ce) + s@.subrange(ce, ce + 20));
    }
    pos = pos + 20;
    if pos >= slen {
        proof {
            if hv is Some {
                let v = hv->Some_0;
                lemma_state_json_parts(v);
                assert(false);
            }
        }
        return None;
    }
    let pc = s.get_char(pos);
    let player = if pc == 'X' {
        Player::X
    } else if pc == 'O' {
        Player::O
    } else {
        proof {
            if hv is Some {
                let v = hv->Some_0;
                lemma_state_json_parts(v);
                assert(s@[30 + cjl(v)] == player_char(v.current_player));
                assert(false);
            }
        }
        return None;
    };
    proof {
        assert(s@.subrange(0, ce + 21) =~= s@.subrange(0, ce + 20) + seq![s@[ce + 20]]);
        if hv is Some {
            let v = hv->Some_0;
            lemma_state_json_parts(v);
            assert(s@[30 + cjl(v)] == player_char(v.current_player));
            assert(player == v.current_player) by {
                if player != v.current_player {
                    assert(player_char(Player::X) != player_char(Player::O));
                }
            }
        }
    }
    pos = pos + 1;
    if !has_lit_at(s, pos, "\",\"status\":") {
        proof {
            reveal_strlit("\",\"status\":");
            if hv is Some {
                let v = hv->Some_0;
                lemma_state_json_parts(v);
                assert(false);
            }
        }
        return None;
    }
    proof {
        reveal_strlit("\",\"status\":");
        assert(s@.subrange(0, ce + 32) =~= s@.subrange(0, ce + 21) + s@.subrange(
            ce + 21,
            ce + 32,
        ));
    }
    pos = pos + 11;
    proof {
        if hv is Some {
            let v = hv->Some_0;
            lemma_state_json_parts(v);
            assert(pos == 42 + cjl(v));
        }
    }
    let sp = match parse_status(s, pos, hint) {
        Some(sp) => sp,
        None => {
            return None;
        },
    };
    let status = sp.0;
    let ghost ss = pos as int;
    pos = sp.1;
    proof {
        assert(s@.subrange(0, ss + status_json_len(status)) =~= s@.subrange(0, ss) + s@.subrange(
            ss,
            ss + status_json_len(status),
        ));
    }
    if !has_lit_at(s, pos, "}") {
        proof {
            reveal_strlit("}");
            if hv is Some {
                let v = hv->Some_0;
                lemma_state_json_parts(v);
                assert(s@[42 + cjl(v) + status_json_len(v.status)] == '}');
                assert(s@.subrange(pos as int, pos as int + 1) =~= "}"@);
                assert(false);
            }
        }
        return None;
    }
    proof {
        reveal_strlit("}");
        assert(s@.subrange(0, pos as int + 1) =~= s@.subrange(0, pos as int) + s@.subrange(
            pos as int,
            pos as int + 1,
        ));
    }
    pos = pos + 1;
    if pos != slen {
        proof {
            if hv is Some {
                let v = hv->Some_0;
                lemma_state_json_parts(v);
                assert(false);
            }
        }
        return None;
    }
    let st = GameState { board: cells, current_player: player, status };
    proof {
        assert(s@ =~= s@.subrange(0, slen as int));
        assert(s@ =~= state_json(st@));
        if hv is Some {
            let v = hv->Some_0;
            assert(st@ =~= v);
        }
    }
    Some(st)
}

impl GameState {
    /// The save text of this state: exactly `state_json` of its model.
    pub fn to_json(&self) -> (r: String)
        requires
            self.wf(),
        ensures
            r@ == state_json(self@),
    {
        proof {
            reveal_strlit("{\"board\":[");
            reveal_strlit("],\"current_player\":\"");
            reveal_strlit("\",\"status\":");
            reveal_strlit("\"Ongoing\"");
            reveal_strlit("\"Draw\"");
            reveal_strlit("{\"Won\":\"");
            reveal_strlit("\"}");
            reveal_strlit("}");
            reveal_strlit(",");
            reveal_strlit("\" \"");
            reveal_strlit("\"X\"");
            reveal_strlit("\"O\"");
            reveal_strlit("X");
            reveal_strlit("O");
        }
        let mut out = String::new();
        out.append("{\"board\":[");
        proof {
            assert(out@ =~= "{\"board\":["@ + cells_json(self.board@.take(0)));
        }
        let mut i: usize = 0;
        while i < self.board.len()
            invariant
                self.wf(),
                i <= self.board@.len(),
                out@ == "{\"board\":["@ + cells_json(self.board@.take(i as int)),
            decreases self.board@.len() - i,
        {
            if i > 0 {
                out.append(",");
            }
            let c = self.board[i];
            if c == 'X' {
                out.append("\"X\"");
            } else if c == 'O' {
                out.append("\"O\"");
            } else {
                out.append("\" \"");
            }
            proof {
                reveal_strlit(",");
                reveal_strlit("\" \"");
                reveal_strlit("\"X\"");
                reveal_strlit("\"O\"");
                let pre = self.board@.take(i as int);
                let cur = self.board@.take(i as int + 1);
                assert(cur.drop_last() =~= pre);
                assert(cur.last() == self.board@[i as int]);
                if i == 0 {
                    assert(cells_json(cur) == cell_json(self.board@[0]));
                    assert(out@ =~= "{\"board\":["@ + cells_json(cur));
                } else {
                    assert(cells_json(cur) == cells_json(pre) + seq![','] + cell_json(
                        self.board@[i as int],
                    ));
                    assert(out@ =~= "{\"board\":["@ + cells_json(cur));
                }
            }
            i += 1;
        }
        proof {
            assert(self.board@.take(self.board@.len() as int) =~= self.board@);
        }
        out.append("],\"current_player\":\"");
        match self.current_player {
            Player::X => out.append("X"),
            Player::O => out.append("O"),
        }
        out.append("\",\"status\":");
        match self.status {
            GameStatus::Ongoing => out.append("\"Ongoing\""),
            GameStatus::Draw => out.append("\"Draw\""),
            GameStatus::Won(p) => {
                out.append("{\"Won\":\"");
                match p {
                    Player::X => out.append("X"),
                    Player::O => out.append("O"),
                }
                out.append("\"}");
            },
        }
        out.append("}");
        proof {
            reveal_strlit("X");
            reveal_strlit("O");
            assert(out@ =~= state_json(self@));
        }
        out
    }
}

impl GameState {
    /// Loads a state from its save text. For every well-formed model `v`,
    /// loading `state_json(v)` gives back exactly `v`'s state when its
    /// status is `Ongoing` and fails with `GameOver` otherwise, so a saved
    /// ongoing game is reproduced exactly. Text that is no state's save
    /// text fails with `MalformedSave`.
    pub fn from_json(s: &str) -> (r: Result<GameState, GameError>)
        ensures
            r matches Ok(st) ==> st.wf() && st.status == GameStatus::Ongoing && s@ == state_json(
                st@,
            ),
            r == Err::<GameState, GameError>(GameError::GameOver) ==> exists|v: StateModel|
                model_wf(v) && s@ == #[trigger] state_json(v) && v.status != GameStatus::Ongoing,
            r == Err::<GameState, GameError>(GameError::MalformedSave) ==> !(exists|
                v: StateModel,
            |
                model_wf(v) && s@ == #[trigger] state_json(v)),
            r is Err ==> r == Err::<GameState, GameError>(GameError::GameOver) || r == Err::<
                GameState,
                GameError,
            >(GameError::MalformedSave),
            forall|v: StateModel|
                model_wf(v) && s@ == #[trigger] state_json(v) ==> (if v.status
                    == GameStatus::Ongoing {
                    r matches Ok(st) && st@ == v
                } else {
                    r == Err::<GameState, GameError>(GameError::GameOver)
                }),
    {
        let ghost hint: Option<StateModel> = if exists|v: StateModel|
            model_wf(v) && s@ == #[trigger] state_json(v) {
            Some(choose|v: StateModel| model_wf(v) && s@ == #[trigger] state_json(v))
        } else {
            None
        };
        match parse_state(s, Ghost(hint)) {
            Some(st) => {
                proof {
                    assert forall|v: StateModel|
                        model_wf(v) && s@ == #[trigger] state_json(v) implies v == st@ by {
                        lemma_state_json_injective(v, st@);
                    }
                }
                match st.status {
                    GameStatus::Ongoing => Ok(st),
                    _ => {
                        proof {
                            assert(model_wf(st@) && s@ == state_json(st@) && st@.status
                                != GameStatus::Ongoing);
                        }
                        Err(GameError::GameOver)
                    },
                }
            },
            None => Err(GameError::MalformedSave),
        }
    }
}

} // verus!
