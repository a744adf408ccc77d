pub mod game_state;
pub mod win_check;

pub use crate::game_state::{GameBoard, GameState, LuffarError, Player, Winner};

use crate::game_state::{
    board_full, board_view, board_wf, cell_filled, empty_board, place, view_wf, GameView,
};
use crate::win_check::{check_win_condition, has_win};
use vstd::pervasive::VecAdditionalExecFns;
use vstd::prelude::*;

verus! {

/// The player who moves after the given one.
pub open spec fn opposite(p: Player) -> Player {
    match p {
        Player::Cross => Player::Circle,
        Player::Circle => Player::Cross,
    }
}

/// Returns the player whose turn comes after the given one's.
fn opposite_player(player: &Player) -> (res: Player)
    ensures
        res == opposite(*player),
{
    match *player {
        Player::Cross => Player::Circle,
        Player::Circle => Player::Cross,
    }
}

/// Reports whether the board has no free cell left, that is, whether every
/// cell is occupied.
fn has_no_cells_left(board: &GameBoard) -> (res: bool)
    requires
        board_wf(board_view(*board)),
    ensures
        res == board_full(board_view(*board)),
{
    let ghost b = board_view(*board);
    let h = board.len();
    let w = board[0].len();
    let mut y: usize = 0;
    while y < h
        invariant
            board_wf(b),
            b == board_view(*board),
            h == b.len(),
            w == b[0].len(),
            y <= h,
            forall|r: int, c: int| 0 <= r < y && 0 <= c < w ==> #[trigger] cell_filled(b, r, c),
        decreases h - y,
    {
        let mut x: usize = 0;
        while x < w
            invariant
                board_wf(b),
                b == board_view(*board),
                h == b.len(),
                w == b[0].len(),
                y < h,
                x <= w,
                forall|r: int, c: int| 0 <= r < y && 0 <= c < w ==> #[trigger] cell_filled(b, r, c),
                forall|c: int| 0 <= c < x ==> #[trigger] cell_filled(b, y as int, c),
            decreases w - x,
        {
            proof {
                assert(b[y as int].len() == b[0].len());
                assert(board@[y as int]@ == b[y as int]);
            }
            if board[y][x].is_none() {
                proof {
                    assert(!cell_filled(b, y as int, x as int));
                }
                return false;
            }
            proof {
                assert(cell_filled(b, y as int, x as int));
            }
            x = x + 1;
        }
        y = y + 1;
    }
    true
}

/// The winner tag that corresponds to a player.
pub open spec fn player_winner(p: Player) -> Winner {
    match p {
        Player::Cross => Winner::Cross,
        Player::Circle => Winner::Circle,
    }
}

/// The outcome recorded after the given player has just moved on the board:
/// that player wins if a run of the required length now exists; otherwise,
/// when no free cell is left, the game is a draw. A winning run on the move
/// that fills the board counts as a win, not as a draw.
pub open spec fn winner_of(b: Seq<Seq<Option<Player>>>, mover: Player, k: int) -> Option<Winner> {
    if has_win(b, mover, k) {
        Some(player_winner(mover))
    } else if board_full(b) {
        Some(Winner::Draw)
    } else {
        None
    }
}

/// Evaluates the board for the player who has just moved: a win of the
/// required run length is checked first, and a full board with no win is a
/// draw.
fn get_winner(board: &GameBoard, player: Player, required_row_length: usize) -> (res: Option<
    Winner,
>)
    requires
        board_wf(board_view(*board)),
    ensures
        res == winner_of(board_view(*board), player, required_row_length as int),
{
    if check_win_condition(board, player, required_row_length) {
        match player {
            Player::Cross => Some(Winner::Cross),
            Player::Circle => Some(Winner::Circle),
        }
    } else if has_no_cells_left(board) {
        Some(Winner::Draw)
    } else {
        None
    }
}

/// A move at (y, x) is legal: the game is still open, the coordinate lies on
/// the board, and the cell is free.
pub open spec fn move_legal(v: GameView, y: int, x: int) -> bool {
    &&& v.winner is None
    &&& 0 <= y < v.board.len()
    &&& 0 <= x < v.board[0].len()
    &&& v.board[y][x] is None
}

/// The turn transition, on the abstract state. A finished game refuses every
/// move and is otherwise unchanged; an off-board or occupied coordinate is
/// refused with the board unchanged; a legal move places the mover's mark,
/// evaluates the outcome for the mover, hands the turn to the opponent and
/// clears any earlier error.
pub open spec fn step(v: GameView, y: int, x: int) -> GameView {
    if v.winner is Some {
        GameView { error: Some(LuffarError::GameOver), ..v }
    } else if !(0 <= y < v.board.len() && 0 <= x < v.board[0].len()) {
        GameView { error: Some(LuffarError::InvalidPosition), ..v }
    } else if v.board[y][x] is Some {
        GameView { error: Some(LuffarError::InvalidPosition), ..v }
    } else {
        let placed = place(v.board, y, x, v.next_player);
        GameView {
            board: placed,
            next_player: opposite(v.next_player),
            winner: winner_of(placed, v.next_player, v.required_row_length),
            required_row_length: v.required_row_length,
            error: None,
        }
    }
}

/// Returns the same state annotated with the given error.
fn error(game_state: GameState, err: LuffarError) -> (res: GameState)
    ensures
        res.board == game_state.board,
        res.next_player == game_state.next_player,
        res.winner == game_state.winner,
        res.required_row_length == game_state.required_row_length,
        res.error == Some(err),
{
    GameState { error: Some(err), ..game_state }
}

/// Places the given player's mark at (y, x) on the board; every other cell
/// keeps its value.
fn update_board(board: GameBoard, y_pos: usize, x_pos: usize, player: Player) -> (res: GameBoard)
    requires
        board_wf(board_view(board)),
        y_pos < board_view(board).len(),
        x_pos < board_view(board)[0].len(),
    ensures
        board_view(res) == place(board_view(board), y_pos as int, x_pos as int, player),
        board_wf(board_view(res)),
{
    let ghost orig = board_view(board);
    let mut b = board;
    proof {
        assert(orig[y_pos as int].len() == orig[0].len());
    }
    let mut row = b.remove(y_pos);
    row.set(x_pos, Some(player));
    b.insert(y_pos, row);
    proof {
        let after = board_view(b);
        let target = place(orig, y_pos as int, x_pos as int, player);
        assert forall|i: int| 0 <= i < after.len() implies after[i] == target[i] by {
            if i == y_pos as int {
                assert(b@[i]@ == orig[i].update(x_pos as int, Some(player)));
            } else if i < y_pos as int {
                assert(b@[i] == board@[i]);
            } else {
                assert(b@[i] == board@[i]);
            }
        };
        assert(after =~= target);
        assert forall|i: int| 0 <= i < after.len() implies #[trigger] after[i].len()
            == after[0].len() by {
            assert(orig[i].len() == orig[0].len());
        };
    }
    b
}

/// One turn of the game: validates the requested move against the current
/// state, places the mark, evaluates the outcome for the mover, and returns
/// the next state. An illegal move returns the same state annotated with the
/// error that refused it.
pub fn do_turn(game_state: GameState, y_pos: usize, x_pos: usize) -> (res: GameState)
    requires
        game_state.wf(),
    ensures
        res.wf(),
        res@ == step(game_state@, y_pos as int, x_pos as int),
{
    let ghost v0 = game_state@;
    if game_state.winner.is_some() {
        let res = error(game_state, LuffarError::GameOver);
        proof {
            assert(res@ =~= step(v0, y_pos as int, x_pos as int));
        }
        return res;
    }
    let h = game_state.board.len();
    let w = game_state.board[0].len();
    if y_pos >= h || x_pos >= w {
        let res = error(game_state, LuffarError::InvalidPosition);
        proof {
            assert(res@ =~= step(v0, y_pos as int, x_pos as int));
        }
        return res;
    }
    proof {
        assert(v0.board[y_pos as int].len() == v0.board[0].len());
        assert(game_state.board@[y_pos as int]@ == v0.board[y_pos as int]);
    }
    if game_state.board[y_pos][x_pos].is_some() {
        let res = error(game_state, LuffarError::InvalidPosition);
        proof {
            assert(res@ =~= step(v0, y_pos as int, x_pos as int));
        }
        return res;
    }
    let mover = game_state.next_player;
    let k = game_state.required_row_length;
    let board = update_board(game_state.board, y_pos, x_pos, mover);
    let winner = get_winner(&board, mover, k);
    let res = GameState {
        board,
        next_player: opposite_player(&mover),
        winner,
        required_row_length: k,
        error: None,
    };
    proof {
        assert(res@ =~= step(v0, y_pos as int, x_pos as int));
    }
    res
}

/// Builds a square board of the given size with every cell empty.
fn create_initial_board(size: usize) -> (res: GameBoard)
    requires
        size >= 1,
    ensures
        board_view(res) == empty_board(size as int),
        board_wf(board_view(res)),
{
    let mut board: GameBoard = Vec::new();
    while board.len() < size
        invariant
            board@.len() <= size,
            forall|r: int|
                0 <= r < board@.len() ==> #[trigger] board@[r]@ =~= Seq::new(
                    size as nat,
                    |c: int| None::<Player>,
                ),
        decreases size - board.len(),
    {
        let mut row: Vec<Option<Player>> = Vec::new();
        while row.len() < size
            invariant
                row@.len() <= size,
                forall|c: int| 0 <= c < row@.len() ==> row@[c] is None,
            decreases size - row.len(),
        {
            row.push(None);
        }
        proof {
            assert(row@ =~= Seq::new(size as nat, |c: int| None::<Player>));
        }
        board.push(row);
    }
    proof {
        assert(board_view(board) =~~= empty_board(size as int));
    }
    board
}

/// Starts a fresh game: a square board of the given size with every cell
/// empty, Cross to move, no winner and no error. A board without cells or a
/// required run length under two is degenerate and is rejected here rather
/// than deep in the engine.
pub fn start(board_size: usize, required_row_length: usize) -> (res: GameState)
    requires
        board_size >= 1,
        required_row_length >= 2,
    ensures
        res.wf(),
        res@.board == empty_board(board_size as int),
        res@.board.len() == board_size,
        res@.next_player == Player::Cross,
        res@.winner is None,
        res@.error is None,
        res@.required_row_length == required_row_length as int,
{
    GameState {
        board: create_initial_board(board_size),
        next_player: Player::Cross,
        winner: None,
        required_row_length,
        error: None,
    }
}

/// The state after playing a sequence of moves, each given as a (row, column)
/// pair, one turn transition per move.
pub open spec fn run_moves(v: GameView, moves: Seq<(int, int)>) -> GameView
    decreases moves.len(),
{
    if moves.len() == 0 {
        v
    } else {
        run_moves(step(v, moves[0].0, moves[0].1), moves.drop_first())
    }
}

/// Every move of the sequence is legal in the state it is played from.
pub open spec fn all_moves_legal(v: GameView, moves: Seq<(int, int)>) -> bool
    decreases moves.len(),
{
    if moves.len() == 0 {
        true
    } else {
        move_legal(v, moves[0].0, moves[0].1) && all_moves_legal(
            step(v, moves[0].0, moves[0].1),
            moves.drop_first(),
        )
    }
}

/// Alternation: over any sequence of legal moves the turn alternates
/// strictly between the two players. After an even number of moves it is the
/// starting player's turn again, after an odd number it is the opponent's;
/// since `start` hands the first turn to Cross, play runs Cross, Circle,
/// Cross, and so on.
pub proof fn lemma_alternation(v: GameView, moves: Seq<(int, int)>)
    requires
        all_moves_legal(v, moves),
    ensures
        run_moves(v, moves).next_player == if moves.len() % 2 == 0 {
            v.next_player
        } else {
            opposite(v.next_player)
        },
    decreases moves.len(),
{
    if moves.len() > 0 {
        let v2 = step(v, moves[0].0, moves[0].1);
        assert(v2.next_player == opposite(v.next_player));
        lemma_alternation(v2, moves.drop_first());
    }
}

/// Immutability after the end: once a winner or a draw is recorded, a move
/// attempt leaves the board, the winner and the turn unchanged and only
/// records a game-over error.
pub proof fn lemma_game_over_is_final(v: GameView, y: int, x: int)
    requires
        v.winner is Some,
    ensures
        step(v, y, x).board == v.board,
        step(v, y, x).winner == v.winner,
        step(v, y, x).next_player == v.next_player,
        step(v, y, x).error == Some(LuffarError::GameOver),
{
}

/// Bounds rejection: in an open game, a move whose row or column lies
/// outside the board is refused as an invalid position, and the board, the
/// winner and the turn are unchanged.
pub proof fn lemma_out_of_bounds_rejected(v: GameView, y: int, x: int)
    requires
        v.winner is None,
        y >= v.board.len() || x >= v.board[0].len(),
    ensures
        step(v, y, x).board == v.board,
        step(v, y, x).winner == v.winner,
        step(v, y, x).next_player == v.next_player,
        step(v, y, x).error == Some(LuffarError::InvalidPosition),
{
}

/// Occupied-cell rejection: in an open game, a move onto a cell that already
/// carries a mark is refused as an invalid position, and the board, the
/// winner and the turn are unchanged.
pub proof fn lemma_occupied_rejected(v: GameView, y: int, x: int)
    requires
        v.winner is None,
        0 <= y < v.board.len(),
        0 <= x < v.board[0].len(),
        v.board[y][x] is Some,
    ensures
        step(v, y, x).board == v.board,
        step(v, y, x).winner == v.winner,
        step(v, y, x).next_player == v.next_player,
        step(v, y, x).error == Some(LuffarError::InvalidPosition),
{
}

/// A legal move changes exactly one cell: the mover's mark appears at the
/// played coordinate and every other cell keeps its value, so the board's
/// dimensions never change and earlier marks are never disturbed.
pub proof fn lemma_legal_move_updates_one_cell(v: GameView, y: int, x: int)
    requires
        view_wf(v),
        move_legal(v, y, x),
    ensures
        step(v, y, x).board.len() == v.board.len(),
        forall|r: int|
            0 <= r < v.board.len() ==> #[trigger] step(v, y, x).board[r].len() == v.board[r].len(),
        step(v, y, x).board[y][x] == Some(v.next_player),
        forall|r: int, c: int|
            0 <= r < v.board.len() && 0 <= c < v.board[r].len() && !(r == y && c == x)
                ==> #[trigger] step(v, y, x).board[r][c] == v.board[r][c],
{
    let placed = step(v, y, x).board;
    assert forall|r: int, c: int|
        0 <= r < v.board.len() && 0 <= c < v.board[r].len() && !(r == y && c == x) implies #[trigger] placed[r][c]
        == v.board[r][c] by {
        if r == y {
            assert(placed[r] == v.board[y].update(x, Some(v.next_player)));
        }
    };
}

} // verus!
