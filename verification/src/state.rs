//! Game-state data: the board grid, the falling piece, and their
//! well-formedness conditions.

use vstd::prelude::*;
use crate::pieces::PieceType;

verus! {

/// Default board width, in columns.
pub const DEFAULT_WIDTH: usize = 10;

/// Default board height, in rows.
pub const DEFAULT_HEIGHT: usize = 20;

/// Largest board dimension the engine accepts, so that cell coordinates
/// stay well inside `i32`.
pub const MAX_DIM: usize = 0x1000_0000;

/// Integer offset of a piece's bounding box top-left corner within the
/// board; `x` is the column, `y` the row, `y` growing downward. `y` may be
/// negative while a piece sits partly above the visible board.
#[derive(Debug, Clone, Copy, PartialEq, Eq, Structural)]
pub struct Position {
    pub x: i32,
    pub y: i32,
}

/// The single currently falling piece: its type, offset, and rotation count.
#[derive(Debug, Clone, Copy, PartialEq, Eq, Structural)]
pub struct Piece {
    pub piece_type: PieceType,
    pub position: Position,
    pub rotation: u8,
}

/// The whole game state: board cells, accumulated score, the falling piece
/// if one is active, and whether the game has ended.
#[derive(Debug)]
pub struct GameState {
    pub board: Vec<Vec<Option<PieceType>>>,
    pub score: u32,
    pub current_piece: Option<Piece>,
    pub game_over: bool,
}

/// The board rows as a sequence of sequences of cells.
pub open spec fn grid_of(b: Seq<Vec<Option<PieceType>>>) -> Seq<Seq<Option<PieceType>>> {
    Seq::new(b.len(), |i: int| b[i]@)
}

/// The number of columns of a grid.
pub open spec fn grid_width(g: Seq<Seq<Option<PieceType>>>) -> int {
    g[0].len() as int
}

/// The number of rows of a grid.
pub open spec fn grid_height(g: Seq<Seq<Option<PieceType>>>) -> int {
    g.len() as int
}

/// A grid is rectangular, nonempty, and of bounded dimensions.
pub open spec fn grid_ok(g: Seq<Seq<Option<PieceType>>>) -> bool {
    &&& 0 < g.len() <= MAX_DIM
    &&& 0 < g[0].len() <= MAX_DIM
    &&& forall|i: int| 0 <= i < g.len() ==> (#[trigger] g[i]).len() == g[0].len()
}

/// A piece offset lies in the band that keeps every cell coordinate
/// computation inside `i32`.
pub open spec fn piece_pos_ok(p: Piece) -> bool {
    &&& -8 <= p.position.x <= MAX_DIM + 8
    &&& -8 <= p.position.y <= MAX_DIM + 8
}

/// A piece descriptor is in range: the rotation count is a quarter-turn
/// count, and the offset is within the band the engine can ever reach.
pub open spec fn piece_ok(p: Piece) -> bool {
    &&& p.rotation < 4
    &&& -4 <= p.position.x <= MAX_DIM
    &&& -4 <= p.position.y <= MAX_DIM
}

/// Well-formedness of a game state.
pub open spec fn state_ok(s: GameState) -> bool {
    &&& grid_ok(grid_of(s.board@))
    &&& (s.current_piece matches Some(p) ==> piece_ok(p))
}

/// Two states hold the same data: equal cells, score, piece, and flag.
pub open spec fn states_match(a: GameState, b: GameState) -> bool {
    &&& grid_of(a.board@) == grid_of(b.board@)
    &&& a.score == b.score
    &&& a.current_piece == b.current_piece
    &&& a.game_over == b.game_over
}

/// A row of `w` empty cells.
pub open spec fn blank_row(w: int) -> Seq<Option<PieceType>> {
    Seq::new(w as nat, |j: int| None)
}

/// A grid of `h` empty rows of width `w`.
pub open spec fn blank_grid(w: int, h: int) -> Seq<Seq<Option<PieceType>>> {
    Seq::new(h as nat, |i: int| blank_row(w))
}

pub(crate) fn empty_row(width: usize) -> (r: Vec<Option<PieceType>>)
    ensures
        r@ == blank_row(width as int),
{
    let mut r: Vec<Option<PieceType>> = Vec::new();
    let mut j: usize = 0;
    while j < width
        invariant
            j <= width,
            r@.len() == j,
            forall|k: int| 0 <= k < j ==> r@[k] is None,
        decreases width - j,
    {
        r.push(None);
        j += 1;
    }
    proof {
        assert(r@ =~= blank_row(width as int));
    }
    r
}

/// A board of `height` rows of `width` empty cells each.
pub fn empty_board(width: usize, height: usize) -> (b: Vec<Vec<Option<PieceType>>>)
    ensures
        grid_of(b@) == blank_grid(width as int, height as int),
{
    let mut b: Vec<Vec<Option<PieceType>>> = Vec::new();
    let mut i: usize = 0;
    while i < height
        invariant
            i <= height,
            b@.len() == i,
            forall|k: int| 0 <= k < i ==> b@[k]@ == blank_row(width as int),
        decreases height - i,
    {
        b.push(empty_row(width));
        i += 1;
    }
    proof {
        assert(grid_of(b@) =~= blank_grid(width as int, height as int));
    }
    b
}

/// An empty blank grid of positive bounded dimensions is well formed.
pub proof fn lemma_blank_grid_ok(w: int, h: int)
    requires
        0 < w <= MAX_DIM,
        0 < h <= MAX_DIM,
    ensures
        grid_ok(blank_grid(w, h)),
        grid_width(blank_grid(w, h)) == w,
        grid_height(blank_grid(w, h)) == h,
{
}

impl Clone for GameState {
    /// A clone carries the same cells, score, piece, and flag.
    fn clone(&self) -> (r: Self)
        ensures
            states_match(r, *self),
    {
        let mut b: Vec<Vec<Option<PieceType>>> = Vec::new();
        let mut i: usize = 0;
        while i < self.board.len()
            invariant
                i <= self.board.len(),
                b@.len() == i,
                forall|k: int| 0 <= k < i ==> b@[k]@ == self.board@[k]@,
            decreases self.board.len() - i,
        {
            b.push(copy_cells(&self.board[i]));
            i += 1;
        }
        proof {
            assert(grid_of(b@) =~= grid_of(self.board@));
        }
        GameState {
            board: b,
            score: self.score,
            current_piece: self.current_piece,
            game_over: self.game_over,
        }
    }
}

pub(crate) fn copy_cells(row: &Vec<Option<PieceType>>) -> (r: Vec<Option<PieceType>>)
    ensures
        r@ == row@,
{
    let mut r: Vec<Option<PieceType>> = Vec::new();
    let mut j: usize = 0;
    while j < row.len()
        invariant
            j <= row.len(),
            r@ == row@.take(j as int),
        decreases row.len() - j,
    {
        r.push(row[j]);
        j += 1;
        proof {
            assert(r@ =~= row@.take(j as int));
        }
    }
    proof {
        assert(r@ =~= row@);
    }
    r
}

impl Default for GameState {
    /// A fresh game: empty default-sized board, zero score, no active piece,
    /// not over.
    fn default() -> (s: Self)
        ensures
            grid_of(s.board@) == blank_grid(DEFAULT_WIDTH as int, DEFAULT_HEIGHT as int),
            s.score == 0,
            s.current_piece is None,
            !s.game_over,
            state_ok(s),
    {
        let s = GameState {
            board: empty_board(DEFAULT_WIDTH, DEFAULT_HEIGHT),
            score: 0,
            current_piece: None,
            game_over: false,
        };
        proof {
            lemma_blank_grid_ok(DEFAULT_WIDTH as int, DEFAULT_HEIGHT as int);
        }
        s
    }
}

/// Whether a state is well formed, as `state_ok` says.
pub fn state_well_formed(s: &GameState) -> (b: bool)
    ensures
        b == state_ok(*s),
{
    let h = s.board.len();
    if h == 0 || h > MAX_DIM {
        return false;
    }
    let w = s.board[0].len();
    if w == 0 || w > MAX_DIM {
        return false;
    }
    let mut i: usize = 1;
    while i < h
        invariant
            1 <= i <= h,
            h == s.board@.len(),
            w == s.board@[0]@.len(),
            forall|k: int| 0 <= k < i ==> (#[trigger] grid_of(s.board@)[k]).len() == w,
        decreases h - i,
    {
        if s.board[i].len() != w {
            proof {
                assert(grid_of(s.board@)[i as int].len() != grid_of(s.board@)[0].len());
            }
            return false;
        }
        i += 1;
    }
    match &s.current_piece {
        None => true,
        Some(p) => {
            p.rotation < 4 && p.position.x >= -4 && p.position.x <= MAX_DIM as i32
                && p.position.y >= -4 && p.position.y <= MAX_DIM as i32
        },
    }
}

} // verus!
