//! Collision checking, piece locking, and line clearing on the board grid.

use vstd::prelude::*;
use crate::pieces::{PieceType, is_rect, shape_spec, shape_view, shape_for};
use crate::rotate::{occupied, rot, rotate_shape};
use crate::rotate::{lemma_rot_rect, lemma_rot_keeps_occupied};
use crate::pieces::lemma_shape_spec_rect;
use crate::state::{
    GameState, Piece, Position, grid_of, grid_ok, grid_width, grid_height, piece_pos_ok,
    blank_grid, blank_row, copy_cells, empty_row,
};

verus! {

/// The occupancy matrix of a piece, its catalog shape rotated by the
/// piece's rotation count.
pub open spec fn piece_shape(p: Piece) -> Seq<Seq<bool>> {
    rot(shape_spec(p.piece_type), (p.rotation % 4) as nat)
}

/// A board cell position can receive a piece cell: the column is on the
/// board, the row is not below the board, and a row on the board is empty.
/// Rows above the board (negative `by`) are exempt from the occupancy check.
pub open spec fn cell_free(g: Seq<Seq<Option<PieceType>>>, bx: int, by: int) -> bool {
    &&& 0 <= bx < grid_width(g)
    &&& by < grid_height(g)
    &&& by >= 0 ==> g[by][bx] is None
}

/// The piece fits on the board: every occupied cell of its rotated shape
/// lands on a free board position.
pub open spec fn piece_fits(g: Seq<Seq<Option<PieceType>>>, p: Piece) -> bool {
    forall|y: int, x: int|
        #[trigger] occupied(piece_shape(p), y, x) ==> cell_free(
            g,
            p.position.x + x,
            p.position.y + y,
        )
}

/// A piece's occupancy matrix is rectangular, at most 4 cells on a side,
/// and has at least one occupied cell.
pub proof fn lemma_piece_shape_rect(p: Piece)
    ensures
        is_rect(piece_shape(p)),
        1 <= piece_shape(p).len() <= 4,
        1 <= piece_shape(p)[0].len() <= 4,
        exists|y: int, x: int| occupied(piece_shape(p), y, x),
{
    let s = shape_spec(p.piece_type);
    lemma_shape_spec_rect(p.piece_type);
    lemma_rot_rect(s, (p.rotation % 4) as nat);
    match p.piece_type {
        PieceType::I => {
            assert(occupied(s, 1, 0));
        },
        PieceType::O => {
            assert(occupied(s, 0, 0));
        },
        PieceType::T => {
            assert(occupied(s, 0, 1));
        },
        PieceType::S => {
            assert(occupied(s, 0, 1));
        },
        PieceType::Z => {
            assert(occupied(s, 0, 0));
        },
        PieceType::J => {
            assert(occupied(s, 0, 0));
        },
        PieceType::L => {
            assert(occupied(s, 0, 2));
        },
    }
    lemma_rot_keeps_occupied(s, (p.rotation % 4) as nat);
}

/// A piece that fits sits strictly inside the columns of the board and not
/// below its bottom row.
pub proof fn lemma_fits_bounds(g: Seq<Seq<Option<PieceType>>>, p: Piece)
    requires
        grid_ok(g),
        piece_fits(g, p),
    ensures
        -4 < p.position.x < grid_width(g),
        p.position.y < grid_height(g),
{
    lemma_piece_shape_rect(p);
    let (y, x) = choose|y: int, x: int| occupied(piece_shape(p), y, x);
    assert(cell_free(g, p.position.x + x, p.position.y + y));
    assert(x < piece_shape(p)[y].len());
}

/// Any occupied piece cell at a column outside the board, or at a row below
/// it, makes the piece not fit.
pub proof fn lemma_fits_rejects_out_of_bounds(
    g: Seq<Seq<Option<PieceType>>>,
    p: Piece,
    y: int,
    x: int,
)
    requires
        occupied(piece_shape(p), y, x),
        p.position.x + x < 0 || p.position.x + x >= grid_width(g) || p.position.y + y
            >= grid_height(g),
    ensures
        !piece_fits(g, p),
{
}

/// Whether the piece fits on the given board without overlap or
/// out-of-bounds cells: used alike for horizontal moves, rotations, and each
/// downward step of a drop.
pub fn is_valid_move_with_board(board: &Vec<Vec<Option<PieceType>>>, piece: &Piece) -> (r: bool)
    requires
        grid_ok(grid_of(board@)),
        piece_pos_ok(*piece),
    ensures
        r == piece_fits(grid_of(board@), *piece),
{
    let ghost g = grid_of(board@);
    let ghost ps = piece_shape(*piece);
    let shape = shape_for(piece.piece_type);
    let rotated = rotate_shape(&shape, piece.rotation);
    proof {
        assert(shape_view(rotated@) == ps);
        lemma_piece_shape_rect(*piece);
    }
    let w = board[0].len();
    let h = board.len();
    let mut y: usize = 0;
    while y < rotated.len()
        invariant
            grid_ok(g),
            g == grid_of(board@),
            w == grid_width(g),
            h == grid_height(g),
            piece_pos_ok(*piece),
            ps == piece_shape(*piece),
            shape_view(rotated@) == ps,
            is_rect(ps),
            ps.len() <= 4,
            ps[0].len() <= 4,
            y <= rotated.len(),
            rotated@.len() == ps.len(),
            forall|yy: int, xx: int|
                #[trigger] occupied(ps, yy, xx) && yy < y ==> cell_free(
                    g,
                    piece.position.x + xx,
                    piece.position.y + yy,
                ),
        decreases rotated.len() - y,
    {
        let row = &rotated[y];
        let mut x: usize = 0;
        while x < row.len()
            invariant
                grid_ok(g),
                g == grid_of(board@),
                w == grid_width(g),
                h == grid_height(g),
                piece_pos_ok(*piece),
                ps == piece_shape(*piece),
                is_rect(ps),
                ps.len() <= 4,
                ps[0].len() <= 4,
                y < ps.len(),
                row@ == ps[y as int],
                x <= row.len(),
                forall|yy: int, xx: int|
                    #[trigger] occupied(ps, yy, xx) && (yy < y || (yy == y && xx < x))
                        ==> cell_free(g, piece.position.x + xx, piece.position.y + yy),
            decreases row.len() - x,
        {
            if row[x] {
                proof {
                    assert(occupied(ps, y as int, x as int));
                }
                let bx = piece.position.x + (x as i32);
                let by = piece.position.y + (y as i32);
                if bx < 0 || bx >= w as i32 || by >= h as i32 {
                    proof {
                        lemma_fits_rejects_out_of_bounds(g, *piece, y as int, x as int);
                    }
                    return false;
                }
                if by >= 0 {
                    proof {
                        assert(g[by as int].len() == grid_width(g));
                    }
                    if board[by as usize][bx as usize].is_some() {
                        proof {
                            assert(!cell_free(g, piece.position.x + x, piece.position.y + y));
                        }
                        return false;
                    }
                }
                proof {
                    assert(cell_free(g, piece.position.x + x, piece.position.y + y));
                }
            }
            x += 1;
        }
        y += 1;
    }
    proof {
        assert forall|yy: int, xx: int| #[trigger] occupied(ps, yy, xx) implies cell_free(
            g,
            piece.position.x + xx,
            piece.position.y + yy,
        ) by {
            assert(yy < ps.len());
        }
    }
    true
}

/// The cell at (row `i`, column `j`) after the piece locks: the piece's
/// marker where an occupied shape cell covers the position, the old cell
/// elsewhere. Shape cells above the board never reach a board row.
pub open spec fn lock_cell(
    g: Seq<Seq<Option<PieceType>>>,
    p: Piece,
    i: int,
    j: int,
) -> Option<PieceType> {
    if occupied(piece_shape(p), i - p.position.y, j - p.position.x) {
        Some(p.piece_type)
    } else {
        g[i][j]
    }
}

/// The grid after the piece's occupied cells are written onto it.
pub open spec fn locked_grid(g: Seq<Seq<Option<PieceType>>>, p: Piece) -> Seq<
    Seq<Option<PieceType>>,
> {
    Seq::new(g.len(), |i: int| Seq::new(g[i].len(), |j: int| lock_cell(g, p, i, j)))
}

/// Locking keeps the grid's dimensions and well-formedness.
pub proof fn lemma_locked_grid_ok(g: Seq<Seq<Option<PieceType>>>, p: Piece)
    requires
        grid_ok(g),
    ensures
        grid_ok(locked_grid(g, p)),
        grid_width(locked_grid(g, p)) == grid_width(g),
        grid_height(locked_grid(g, p)) == grid_height(g),
{
}

/// Locks the piece's occupied cells onto the board, writing its type marker
/// into every covered cell whose row and column are on the board. Score,
/// current piece, and the game-over flag are untouched.
pub fn place_piece(state: &mut GameState, piece: &Piece)
    requires
        grid_ok(grid_of(old(state).board@)),
        piece_pos_ok(*piece),
    ensures
        grid_of(final(state).board@) == locked_grid(grid_of(old(state).board@), *piece),
        final(state).score == old(state).score,
        final(state).current_piece == old(state).current_piece,
        final(state).game_over == old(state).game_over,
{
    let ghost g = grid_of(old(state).board@);
    let ghost ps = piece_shape(*piece);
    let shape = shape_for(piece.piece_type);
    let rotated = rotate_shape(&shape, piece.rotation);
    proof {
        assert(shape_view(rotated@) == ps);
        lemma_piece_shape_rect(*piece);
    }
    let h = state.board.len();
    let w = state.board[0].len();
    let mut nb: Vec<Vec<Option<PieceType>>> = Vec::new();
    let mut i: usize = 0;
    while i < h
        invariant
            grid_ok(g),
            g == grid_of(state.board@),
            state.board@ == old(state).board@,
            state.score == old(state).score,
            state.current_piece == old(state).current_piece,
            state.game_over == old(state).game_over,
            w == grid_width(g),
            h == grid_height(g),
            piece_pos_ok(*piece),
            ps == piece_shape(*piece),
            shape_view(rotated@) == ps,
            is_rect(ps),
            ps.len() <= 4,
            ps[0].len() <= 4,
            rotated@.len() == ps.len(),
            i <= h,
            nb@.len() == i,
            forall|k: int| 0 <= k < i ==> nb@[k]@ == locked_grid(g, *piece)[k],
        decreases h - i,
    {
        let mut row: Vec<Option<PieceType>> = Vec::new();
        let mut j: usize = 0;
        while j < w
            invariant
                grid_ok(g),
                g == grid_of(state.board@),
                state.board@ == old(state).board@,
                state.score == old(state).score,
                state.current_piece == old(state).current_piece,
                state.game_over == old(state).game_over,
                w == grid_width(g),
                h == grid_height(g),
                piece_pos_ok(*piece),
                ps == piece_shape(*piece),
                shape_view(rotated@) == ps,
                is_rect(ps),
                ps.len() <= 4,
                ps[0].len() <= 4,
                rotated@.len() == ps.len(),
                i < h,
                j <= w,
                row@.len() == j,
                forall|k: int| 0 <= k < j ==> row@[k] == lock_cell(g, *piece, i as int, k),
            decreases w - j,
        {
            let sy = (i as i32) - piece.position.y;
            let sx = (j as i32) - piece.position.x;
            let covered = if sy >= 0 && (sy as usize) < rotated.len() {
                let rrow = &rotated[sy as usize];
                proof {
                    assert(ps[sy as int].len() == ps[0].len());
                }
                sx >= 0 && (sx as usize) < rrow.len() && rrow[sx as usize]
            } else {
                false
            };
            proof {
                assert(covered == occupied(ps, i - piece.position.y, j - piece.position.x));
            }
            if covered {
                row.push(Some(piece.piece_type));
            } else {
                row.push(state.board[i][j]);
            }
            j += 1;
        }
        proof {
            assert(row@ =~= locked_grid(g, *piece)[i as int]);
        }
        nb.push(row);
        i += 1;
    }
    proof {
        assert(grid_of(nb@) =~= locked_grid(g, *piece));
    }
    state.board = nb;
}

/// A row with every cell occupied.
pub open spec fn row_full(r: Seq<Option<PieceType>>) -> bool {
    forall|j: int| 0 <= j < r.len() ==> (#[trigger] r[j]) is Some
}

/// The rows of a grid that are not full, in their original order.
pub open spec fn kept_rows(g: Seq<Seq<Option<PieceType>>>) -> Seq<Seq<Option<PieceType>>>
    decreases g.len(),
{
    if g.len() == 0 {
        Seq::empty()
    } else if row_full(g.last()) {
        kept_rows(g.drop_last())
    } else {
        kept_rows(g.drop_last()).push(g.last())
    }
}

/// How many rows of the grid are full.
pub open spec fn rows_cleared(g: Seq<Seq<Option<PieceType>>>) -> int {
    g.len() - kept_rows(g).len()
}

/// The grid after compaction: one new blank row on top for every full row
/// removed, the surviving rows below in unchanged relative order.
pub open spec fn cleared_grid(g: Seq<Seq<Option<PieceType>>>) -> Seq<Seq<Option<PieceType>>> {
    blank_grid(grid_width(g), rows_cleared(g)) + kept_rows(g)
}

/// The points awarded for clearing `k` rows in one lock, under the tiered
/// scoring table.
pub open spec fn line_score(k: int) -> int {
    if k == 1 {
        100
    } else if k == 2 {
        300
    } else if k == 3 {
        500
    } else if k == 4 {
        800
    } else {
        0
    }
}

/// The tiered award is never negative and never exceeds the four-line
/// bonus: the accumulated score never decreases, and one clear fits in the
/// headroom the transitions require.
pub proof fn lemma_line_score_bounds(k: int)
    ensures
        0 <= line_score(k) <= 800,
{
}

/// At most as many rows survive compaction as the grid has.
pub proof fn lemma_kept_rows_len(g: Seq<Seq<Option<PieceType>>>)
    ensures
        kept_rows(g).len() <= g.len(),
    decreases g.len(),
{
    if g.len() > 0 {
        lemma_kept_rows_len(g.drop_last());
    }
}

/// Every surviving row keeps the common width of the grid's rows.
pub proof fn lemma_kept_rows_widths(g: Seq<Seq<Option<PieceType>>>, w: int)
    requires
        forall|i: int| 0 <= i < g.len() ==> (#[trigger] g[i]).len() == w,
    ensures
        forall|i: int| 0 <= i < kept_rows(g).len() ==> (#[trigger] kept_rows(g)[i]).len() == w,
    decreases g.len(),
{
    if g.len() > 0 {
        let dl = g.drop_last();
        assert forall|i: int| 0 <= i < dl.len() implies (#[trigger] dl[i]).len() == w by {
            assert(dl[i] == g[i]);
        }
        lemma_kept_rows_widths(dl, w);
        assert forall|i: int| 0 <= i < kept_rows(g).len() implies (#[trigger] kept_rows(g)[i]).len()
            == w by {
            if !row_full(g.last()) && i == kept_rows(g).len() - 1 {
                assert(kept_rows(g)[i] == g.last());
                assert(g.last() == g[g.len() - 1]);
            } else {
                assert(kept_rows(g)[i] == kept_rows(dl)[i]);
            }
        }
    }
}

/// No surviving row is full.
pub proof fn lemma_kept_rows_not_full(g: Seq<Seq<Option<PieceType>>>)
    ensures
        forall|i: int| 0 <= i < kept_rows(g).len() ==> !row_full(#[trigger] kept_rows(g)[i]),
    decreases g.len(),
{
    if g.len() > 0 {
        let dl = g.drop_last();
        lemma_kept_rows_not_full(dl);
        assert forall|i: int| 0 <= i < kept_rows(g).len() implies !row_full(
            #[trigger] kept_rows(g)[i],
        ) by {
            if !row_full(g.last()) && i == kept_rows(g).len() - 1 {
                assert(kept_rows(g)[i] == g.last());
            } else {
                assert(kept_rows(g)[i] == kept_rows(dl)[i]);
            }
        }
    }
}

/// A grid without a full row survives compaction unchanged.
pub proof fn lemma_kept_rows_no_full(g: Seq<Seq<Option<PieceType>>>)
    requires
        forall|i: int| 0 <= i < g.len() ==> !row_full(#[trigger] g[i]),
    ensures
        kept_rows(g) == g,
    decreases g.len(),
{
    if g.len() > 0 {
        lemma_kept_rows_no_full(g.drop_last());
        assert(kept_rows(g) =~= g);
    }
}

/// Compaction keeps the grid's dimensions and well-formedness.
pub proof fn lemma_cleared_grid_ok(g: Seq<Seq<Option<PieceType>>>)
    requires
        grid_ok(g),
    ensures
        grid_ok(cleared_grid(g)),
        grid_width(cleared_grid(g)) == grid_width(g),
        grid_height(cleared_grid(g)) == grid_height(g),
        0 <= rows_cleared(g) <= grid_height(g),
    decreases g.len(),
{
    lemma_kept_rows_len(g);
    lemma_kept_rows_widths(g, grid_width(g));
    let c = cleared_grid(g);
    assert forall|i: int| 0 <= i < c.len() implies (#[trigger] c[i]).len() == grid_width(g) by {
        if i < rows_cleared(g) {
            assert(c[i] == blank_row(grid_width(g)));
        } else {
            assert(c[i] == kept_rows(g)[i - rows_cleared(g)]);
        }
    }
    assert(c[0].len() == grid_width(g));
}

/// After compaction no row is full: a fresh top-to-bottom pass would find
/// no further complete row, so one pass of compaction already reaches the
/// fixed point of repeated clearing.
pub proof fn lemma_cleared_grid_no_full_rows(g: Seq<Seq<Option<PieceType>>>)
    requires
        grid_ok(g),
    ensures
        forall|i: int|
            0 <= i < cleared_grid(g).len() ==> !row_full(#[trigger] cleared_grid(g)[i]),
{
    lemma_kept_rows_not_full(g);
    lemma_kept_rows_len(g);
    let c = cleared_grid(g);
    assert forall|i: int| 0 <= i < c.len() implies !row_full(#[trigger] c[i]) by {
        if i < rows_cleared(g) {
            assert(c[i] == blank_row(grid_width(g)));
            assert(blank_row(grid_width(g))[0] is None);
        } else {
            assert(c[i] == kept_rows(g)[i - rows_cleared(g)]);
        }
    }
}

/// When exactly the bottom row of a grid is full, compaction removes that
/// row, inserts one blank row at the top, and shifts every other row down by
/// one; exactly one line is cleared.
pub proof fn lemma_clear_bottom_row(g: Seq<Seq<Option<PieceType>>>)
    requires
        grid_ok(g),
        row_full(g.last()),
        forall|i: int| 0 <= i < g.len() - 1 ==> !row_full(#[trigger] g[i]),
    ensures
        rows_cleared(g) == 1,
        cleared_grid(g) == seq![blank_row(grid_width(g))] + g.drop_last(),
{
    lemma_kept_rows_no_full(g.drop_last());
    assert(cleared_grid(g) =~= seq![blank_row(grid_width(g))] + g.drop_last());
}

fn row_is_full(row: &Vec<Option<PieceType>>) -> (b: bool)
    ensures
        b == row_full(row@),
{
    let mut j: usize = 0;
    while j < row.len()
        invariant
            j <= row.len(),
            forall|k: int| 0 <= k < j ==> (#[trigger] row@[k]) is Some,
        decreases row.len() - j,
    {
        if row[j].is_none() {
            return false;
        }
        j += 1;
    }
    true
}

/// Removes every fully occupied row, inserts as many blank rows at the top,
/// adds the tiered score for the removed rows, and returns how many rows
/// were removed. Correct for 0 through 4 simultaneous rows, contiguous or
/// not.
pub fn clear_lines(state: &mut GameState) -> (lines: u32)
    requires
        grid_ok(grid_of(old(state).board@)),
        old(state).score + 800 <= u32::MAX,
    ensures
        lines == rows_cleared(grid_of(old(state).board@)),
        grid_of(final(state).board@) == cleared_grid(grid_of(old(state).board@)),
        final(state).score == old(state).score + line_score(lines as int),
        final(state).current_piece == old(state).current_piece,
        final(state).game_over == old(state).game_over,
{
    let ghost g = grid_of(old(state).board@);
    let h = state.board.len();
    let w = state.board[0].len();
    let mut kept: Vec<Vec<Option<PieceType>>> = Vec::new();
    let mut i: usize = 0;
    while i < h
        invariant
            grid_ok(g),
            g == grid_of(state.board@),
            state.board@ == old(state).board@,
            state.score == old(state).score,
            state.current_piece == old(state).current_piece,
            state.game_over == old(state).game_over,
            h == grid_height(g),
            w == grid_width(g),
            i <= h,
            grid_of(kept@) == kept_rows(g.take(i as int)),
            kept@.len() <= i,
        decreases h - i,
    {
        proof {
            assert(g.take(i + 1).drop_last() =~= g.take(i as int));
            assert(g.take(i + 1).last() == g[i as int]);
            lemma_kept_rows_len(g.take(i + 1));
        }
        if row_is_full(&state.board[i]) {
            proof {
                assert(grid_of(kept@) == kept_rows(g.take(i + 1)));
            }
        } else {
            kept.push(copy_cells(&state.board[i]));
            proof {
                assert(grid_of(kept@) =~= kept_rows(g.take(i + 1)));
            }
        }
        i += 1;
    }
    proof {
        assert(g.take(h as int) =~= g);
        lemma_kept_rows_len(g);
    }
    let k = h - kept.len();
    let mut nb: Vec<Vec<Option<PieceType>>> = Vec::new();
    let mut t: usize = 0;
    while t < k
        invariant
            t <= k,
            nb@.len() == t,
            forall|m: int| 0 <= m < t ==> nb@[m]@ == blank_row(w as int),
            w == grid_width(g),
        decreases k - t,
    {
        nb.push(empty_row(w));
        t += 1;
    }
    let mut t2: usize = 0;
    while t2 < kept.len()
        invariant
            t2 <= kept@.len(),
            nb@.len() == k + t2,
            k == h - kept@.len(),
            w == grid_width(g),
            forall|m: int| 0 <= m < k ==> nb@[m]@ == blank_row(w as int),
            forall|m: int| 0 <= m < t2 ==> nb@[k + m]@ == kept@[m]@,
        decreases kept.len() - t2,
    {
        nb.push(copy_cells(&kept[t2]));
        t2 += 1;
    }
    proof {
        assert(grid_of(nb@) =~= cleared_grid(g));
    }
    state.board = nb;
    let lines = k as u32;
    let bonus: u32 = if lines == 1 {
        100
    } else if lines == 2 {
        300
    } else if lines == 3 {
        500
    } else if lines == 4 {
        800
    } else {
        0
    };
    state.score = state.score + bonus;
    lines
}

/// The same piece at another vertical offset.
pub open spec fn with_y(p: Piece, y: int) -> Piece {
    Piece {
        piece_type: p.piece_type,
        position: Position { x: p.position.x, y: y as i32 },
        rotation: p.rotation,
    }
}

/// The lowest row offset at or below `y` the piece can slide down to, one
/// row at a time, starting from a fitting position at `y`.
pub open spec fn climb(g: Seq<Seq<Option<PieceType>>>, p: Piece, y: int) -> int
    decreases grid_height(g) - y,
{
    if y < grid_height(g) && piece_fits(g, with_y(p, y + 1)) {
        climb(g, p, y + 1)
    } else {
        y
    }
}

/// Where a hard drop comes to rest: the piece's `y` is raised while the
/// piece fits, then backed off one step; a piece that does not fit where it
/// stands backs off immediately.
pub open spec fn drop_dest(g: Seq<Seq<Option<PieceType>>>, p: Piece) -> int {
    if piece_fits(g, p) {
        climb(g, p, p.position.y as int)
    } else {
        p.position.y - 1
    }
}

/// The row offset where a hard drop of the piece comes to rest.
pub(crate) fn drop_destination(board: &Vec<Vec<Option<PieceType>>>, piece: &Piece) -> (r: i32)
    requires
        grid_ok(grid_of(board@)),
        crate::state::piece_ok(*piece),
    ensures
        r == drop_dest(grid_of(board@), *piece),
        piece.position.y - 1 <= r,
        r <= grid_height(grid_of(board@)) || r == piece.position.y - 1,
{
    let ghost g = grid_of(board@);
    if !is_valid_move_with_board(board, piece) {
        return piece.position.y - 1;
    }
    proof {
        lemma_fits_bounds(g, *piece);
        assert(with_y(*piece, piece.position.y as int) == *piece);
    }
    let h = board.len();
    let mut yy: i32 = piece.position.y;
    loop
        invariant
            grid_ok(g),
            g == grid_of(board@),
            crate::state::piece_ok(*piece),
            h == grid_height(g),
            piece.position.y <= yy < h,
            piece_fits(g, with_y(*piece, yy as int)),
            climb(g, *piece, piece.position.y as int) == climb(g, *piece, yy as int),
        ensures
            piece.position.y <= yy <= h,
            climb(g, *piece, piece.position.y as int) == yy,
        decreases h - yy,
    {
        let next = Piece {
            piece_type: piece.piece_type,
            position: Position { x: piece.position.x, y: yy + 1 },
            rotation: piece.rotation,
        };
        proof {
            assert(next == with_y(*piece, yy + 1));
        }
        if is_valid_move_with_board(board, &next) {
            proof {
                lemma_fits_bounds(g, next);
            }
            yy = yy + 1;
        } else {
            proof {
                assert(climb(g, *piece, yy as int) == yy);
            }
            break;
        }
    }
    yy
}

/// Whether the piece fits on the state's board.
pub fn is_valid_move(state: &GameState, piece: &Piece) -> (r: bool)
    requires
        grid_ok(grid_of(state.board@)),
        piece_pos_ok(*piece),
    ensures
        r == piece_fits(grid_of(state.board@), *piece),
{
    is_valid_move_with_board(&state.board, piece)
}

} // verus!
