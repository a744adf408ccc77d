use vstd::prelude::*;

verus! {

/// One of the two players. Cross always moves first.
#[derive(Copy, Clone, PartialEq, Eq, Structural, Debug)]
pub enum Player {
    Cross,
    Circle,
}

/// A board is a rectangular grid of cells; an empty cell holds `None`,
/// an occupied cell holds the mark of the player who placed there.
pub type GameBoard = Vec<Vec<Option<Player>>>;

/// The outcome of a finished game: a winning player, or a draw once the
/// board is full with no winning run.
#[derive(Copy, Clone, PartialEq, Eq, Structural, Debug)]
pub enum Winner {
    Cross,
    Circle,
    Draw,
}

/// Why a move attempt was refused: the coordinate was off the board or the
/// cell was already taken, or the game had already ended.
#[derive(Copy, Clone, PartialEq, Eq, Structural, Debug)]
pub enum LuffarError {
    InvalidPosition,
    GameOver,
}

/// The whole state of one game. Every turn produces a fresh value; an old
/// state is never mutated in place.
#[derive(Debug, Clone)]
pub struct GameState {
    pub board: GameBoard,
    pub next_player: Player,
    pub winner: Option<Winner>,
    pub required_row_length: usize,
    pub error: Option<LuffarError>,
}

/// The mathematical abstraction of a board: a sequence of rows, each a
/// sequence of cells.
pub open spec fn board_view(b: GameBoard) -> Seq<Seq<Option<Player>>> {
    Seq::new(b@.len(), |i: int| b@[i]@)
}

/// A board is well formed when it is nonempty in both dimensions and every
/// row has the same length as the first.
pub open spec fn board_wf(b: Seq<Seq<Option<Player>>>) -> bool {
    &&& b.len() >= 1
    &&& b[0].len() >= 1
    &&& forall|r: int| 0 <= r < b.len() ==> #[trigger] b[r].len() == b[0].len()
}

/// Cell (r, c) of the board carries some player's mark.
pub open spec fn cell_filled(b: Seq<Seq<Option<Player>>>, r: int, c: int) -> bool {
    b[r][c] is Some
}

/// Every cell of the board is occupied.
pub open spec fn board_full(b: Seq<Seq<Option<Player>>>) -> bool {
    forall|r: int, c: int|
        0 <= r < b.len() && 0 <= c < b[0].len() ==> #[trigger] cell_filled(b, r, c)
}

/// The board with the given player's mark placed at (r, c), all other cells
/// unchanged.
pub open spec fn place(b: Seq<Seq<Option<Player>>>, r: int, c: int, p: Player) -> Seq<
    Seq<Option<Player>>,
> {
    b.update(r, b[r].update(c, Some(p)))
}

/// A square board of the given size with every cell empty.
pub open spec fn empty_board(size: int) -> Seq<Seq<Option<Player>>> {
    Seq::new(size as nat, |r: int| Seq::new(size as nat, |c: int| None::<Player>))
}

/// The abstraction of a whole game state, over which the turn transition and
/// the game laws are stated.
#[verifier::ext_equal]
pub struct GameView {
    pub board: Seq<Seq<Option<Player>>>,
    pub next_player: Player,
    pub winner: Option<Winner>,
    pub required_row_length: int,
    pub error: Option<LuffarError>,
}

impl View for GameState {
    type V = GameView;

    open spec fn view(&self) -> GameView {
        GameView {
            board: board_view(self.board),
            next_player: self.next_player,
            winner: self.winner,
            required_row_length: self.required_row_length as int,
            error: self.error,
        }
    }
}

/// The invariant of a game state: a well-formed board, and a required run
/// length of at least two (shorter runs are degenerate and are rejected when
/// a game is started).
pub open spec fn view_wf(v: GameView) -> bool {
    board_wf(v.board) && v.required_row_length >= 2
}

impl GameState {
    /// The state invariant, established by `start` and preserved by `do_turn`.
    pub open spec fn wf(self) -> bool {
        view_wf(self@)
    }
}

} // verus!
