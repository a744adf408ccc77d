use vstd::prelude::*;

use crate::game_state::{board_view, board_wf, GameBoard, Player};

verus! {

/// The four families of lines scanned for a winning run: left-to-right rows,
/// top-to-bottom columns, diagonals running down-right, and diagonals running
/// down-left. Diagonals are bounded: a run must lie entirely on the board and
/// never wraps around an edge.
#[derive(Copy, Clone, PartialEq, Eq, Structural, Debug)]
pub enum LineKind {
    Row,
    Column,
    ForwardDiagonal,
    BackwardDiagonal,
}

/// Row index of the j-th cell of a line of the given family starting at row r.
pub open spec fn step_row(r: int, kind: LineKind, j: int) -> int {
    match kind {
        LineKind::Row => r,
        LineKind::Column => r + j,
        LineKind::ForwardDiagonal => r + j,
        LineKind::BackwardDiagonal => r + j,
    }
}

/// Column index of the j-th cell of a line of the given family starting at
/// column c.
pub open spec fn step_col(c: int, kind: LineKind, j: int) -> int {
    match kind {
        LineKind::Row => c + j,
        LineKind::Column => c,
        LineKind::ForwardDiagonal => c + j,
        LineKind::BackwardDiagonal => c - j,
    }
}

/// Cell (r, c) lies on the board and carries the given player's mark.
pub open spec fn cell_has(b: Seq<Seq<Option<Player>>>, p: Player, r: int, c: int) -> bool {
    &&& 0 <= r < b.len()
    &&& 0 <= c < b[0].len()
    &&& b[r][c] == Some(p)
}

/// Starting at (r, c), the k consecutive cells along a line of the given
/// family all lie on the board and all carry the player's mark.
pub open spec fn run_in(
    b: Seq<Seq<Option<Player>>>,
    p: Player,
    r: int,
    c: int,
    kind: LineKind,
    k: int,
) -> bool {
    forall|j: int|
        0 <= j < k ==> #[trigger] cell_has(b, p, step_row(r, kind, j), step_col(c, kind, j))
}

/// The player has a run of k consecutive marks somewhere on the board, along
/// a row, a column, or a diagonal in either direction.
pub open spec fn has_win(b: Seq<Seq<Option<Player>>>, p: Player, k: int) -> bool {
    ||| exists|r: int, c: int| run_in(b, p, r, c, LineKind::Row, k)
    ||| exists|r: int, c: int| run_in(b, p, r, c, LineKind::Column, k)
    ||| exists|r: int, c: int| run_in(b, p, r, c, LineKind::ForwardDiagonal, k)
    ||| exists|r: int, c: int| run_in(b, p, r, c, LineKind::BackwardDiagonal, k)
}

/// Walks k cells along one line of the given family starting at (y, x) and
/// reports whether all of them lie on the board and carry the player's mark.
fn run_from(board: &GameBoard, player: Player, y: usize, x: usize, kind: LineKind, k: usize) -> (res:
    bool)
    requires
        board_wf(board_view(*board)),
    ensures
        res == run_in(board_view(*board), player, y as int, x as int, kind, k as int),
{
    let ghost b = board_view(*board);
    let mut i: usize = 0;
    let mut rr: usize = y;
    let mut cc: usize = x;
    while i < k
        invariant
            board_wf(b),
            b == board_view(*board),
            i <= k,
            run_in(b, player, y as int, x as int, kind, i as int),
            i < k ==> rr as int == step_row(y as int, kind, i as int),
            i < k ==> cc as int == step_col(x as int, kind, i as int),
        decreases k - i,
    {
        if rr >= board.len() {
            proof {
                assert(!cell_has(b, player, step_row(y as int, kind, i as int), step_col(x as int, kind, i as int)));
            }
            return false;
        }
        if cc >= board[0].len() {
            proof {
                assert(!cell_has(b, player, step_row(y as int, kind, i as int), step_col(x as int, kind, i as int)));
            }
            return false;
        }
        proof {
            assert(b[rr as int].len() == b[0].len());
            assert(board@[rr as int]@ == b[rr as int]);
        }
        let cell = board[rr][cc];
        let same = match cell {
            Some(q) => q == player,
            None => false,
        };
        if !same {
            proof {
                assert(b[rr as int][cc as int] == board@[rr as int]@[cc as int]);
                assert(!cell_has(b, player, step_row(y as int, kind, i as int), step_col(x as int, kind, i as int)));
            }
            return false;
        }
        proof {
            assert(cell_has(b, player, step_row(y as int, kind, i as int), step_col(x as int, kind, i as int)));
            assert(run_in(b, player, y as int, x as int, kind, (i + 1) as int));
        }
        i = i + 1;
        if i < k {
            match kind {
                LineKind::Row => {
                    cc = cc + 1;
                },
                LineKind::Column => {
                    rr = rr + 1;
                },
                LineKind::ForwardDiagonal => {
                    rr = rr + 1;
                    cc = cc + 1;
                },
                LineKind::BackwardDiagonal => {
                    rr = rr + 1;
                    if cc == 0 {
                        proof {
                            assert(step_col(x as int, kind, i as int) < 0);
                            assert(!cell_has(b, player, step_row(y as int, kind, i as int), step_col(x as int, kind, i as int)));
                        }
                        return false;
                    }
                    cc = cc - 1;
                },
            }
        }
    }
    true
}

/// Tries every cell of the board as the start of a run of the given family
/// and reports whether any such run of length k exists.
fn check_kind(board: &GameBoard, player: Player, kind: LineKind, k: usize) -> (res: bool)
    requires
        board_wf(board_view(*board)),
    ensures
        res == exists|r: int, c: int| run_in(board_view(*board), player, r, c, kind, k as int),
{
    let ghost b = board_view(*board);
    let h = board.len();
    let w = board[0].len();
    let mut y: usize = 0;
    while y < h
        invariant
            board_wf(b),
            b == board_view(*board),
            h == b.len(),
            w == b[0].len(),
            y <= h,
            forall|r: int, c: int|
                0 <= r < y && 0 <= c < w ==> !(#[trigger] run_in(b, player, r, c, kind, k as int)),
        decreases h - y,
    {
        let mut x: usize = 0;
        while x < w
            invariant
                board_wf(b),
                b == board_view(*board),
                h == b.len(),
                w == b[0].len(),
                y < h,
                x <= w,
                forall|r: int, c: int|
                    0 <= r < y && 0 <= c < w ==> !(#[trigger] run_in(b, player, r, c, kind, k as int)),
                forall|c: int|
                    0 <= c < x ==> !(#[trigger] run_in(b, player, y as int, c, kind, k as int)),
            decreases w - x,
        {
            if run_from(board, player, y, x, kind, k) {
                proof {
                    assert(run_in(b, player, y as int, x as int, kind, k as int));
                }
                return true;
            }
            x = x + 1;
        }
        y = y + 1;
    }
    proof {
        assert forall|r: int, c: int| !(#[trigger] run_in(b, player, r, c, kind, k as int)) by {
            if run_in(b, player, r, c, kind, k as int) {
                assert(!run_in(b, player, 0, 0, kind, k as int));
                if k == 0 {
                    assert(run_in(b, player, 0, 0, kind, 0));
                    assert(false);
                } else {
                    assert(cell_has(b, player, step_row(r, kind, 0), step_col(c, kind, 0)));
                    assert(0 <= r < h && 0 <= c < w);
                    assert(false);
                }
            }
        };
    }
    false
}

/// Scans every row for a run of the required length.
fn check_rows(board: &GameBoard, player: Player, required_row_length: usize) -> (res: bool)
    requires
        board_wf(board_view(*board)),
    ensures
        res == exists|r: int, c: int|
            run_in(board_view(*board), player, r, c, LineKind::Row, required_row_length as int),
{
    check_kind(board, player, LineKind::Row, required_row_length)
}

/// Scans every column for a run of the required length.
fn check_columns(board: &GameBoard, player: Player, required_row_length: usize) -> (res: bool)
    requires
        board_wf(board_view(*board)),
    ensures
        res == exists|r: int, c: int|
            run_in(board_view(*board), player, r, c, LineKind::Column, required_row_length as int),
{
    check_kind(board, player, LineKind::Column, required_row_length)
}

/// Scans the diagonals of both directions for a run of the required length.
fn check_diagonal(board: &GameBoard, player: Player, required_row_length: usize) -> (res: bool)
    requires
        board_wf(board_view(*board)),
    ensures
        res == {
            ||| exists|r: int, c: int|
                run_in(
                    board_view(*board),
                    player,
                    r,
                    c,
                    LineKind::ForwardDiagonal,
                    required_row_length as int,
                )
            ||| exists|r: int, c: int|
                run_in(
                    board_view(*board),
                    player,
                    r,
                    c,
                    LineKind::BackwardDiagonal,
                    required_row_length as int,
                )
        },
{
    check_kind(board, player, LineKind::ForwardDiagonal, required_row_length)
        || check_kind(board, player, LineKind::BackwardDiagonal, required_row_length)
}

/// Decides whether the given player has a winning run of the required length
/// anywhere on the board, along a row, a column, or a diagonal in either
/// direction.
pub fn check_win_condition(board: &GameBoard, player: Player, required_row_length: usize) -> (res:
    bool)
    requires
        board_wf(board_view(*board)),
    ensures
        res == has_win(board_view(*board), player, required_row_length as int),
{
    check_columns(board, player, required_row_length)
        || check_rows(board, player, required_row_length)
        || check_diagonal(board, player, required_row_length)
}

/// A required run longer than both board dimensions can never be satisfied:
/// no line of the board holds that many cells.
pub proof fn lemma_run_longer_than_board(b: Seq<Seq<Option<Player>>>, p: Player, k: int)
    requires
        board_wf(b),
        k > b.len(),
        k > b[0].len(),
    ensures
        !has_win(b, p, k),
{
    assert forall|r: int, c: int, kind: LineKind| !(#[trigger] run_in(b, p, r, c, kind, k)) by {
        if run_in(b, p, r, c, kind, k) {
            assert(cell_has(b, p, step_row(r, kind, 0), step_col(c, kind, 0)));
            assert(cell_has(b, p, step_row(r, kind, k - 1), step_col(c, kind, k - 1)));
            match kind {
                LineKind::Row => {
                    assert(0 <= c && c + (k - 1) < b[0].len());
                    assert(false);
                },
                LineKind::Column => {
                    assert(0 <= r && r + (k - 1) < b.len());
                    assert(false);
                },
                LineKind::ForwardDiagonal => {
                    assert(0 <= r && r + (k - 1) < b.len());
                    assert(false);
                },
                LineKind::BackwardDiagonal => {
                    assert(0 <= r && r + (k - 1) < b.len());
                    assert(false);
                },
            }
        }
    };
}

} // verus!
