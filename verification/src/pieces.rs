//! The catalog of tetromino shapes.
//!
//! Each piece type maps to one fixed occupancy matrix; rows of a shape all
//! have the same length, and every shape has at least one occupied cell.

use vstd::prelude::*;

verus! {

/// The seven tetromino kinds.
#[derive(Debug, Clone, Copy, PartialEq, Eq, Structural)]
pub enum PieceType {
    I,
    O,
    T,
    S,
    Z,
    J,
    L,
}

/// How many piece types the catalog holds.
pub const NUM_PIECE_TYPES: usize = 7;

/// A shape matrix tagged with the piece type it belongs to.
#[derive(Debug, Clone)]
pub struct Tetromino {
    pub shape: Vec<Vec<bool>>,
    pub piece_type: PieceType,
}

/// The piece type at a given index of the catalog, in catalog order.
pub open spec fn piece_type_of(i: int) -> PieceType {
    if i == 0 {
        PieceType::I
    } else if i == 1 {
        PieceType::O
    } else if i == 2 {
        PieceType::T
    } else if i == 3 {
        PieceType::S
    } else if i == 4 {
        PieceType::Z
    } else if i == 5 {
        PieceType::J
    } else {
        PieceType::L
    }
}

/// The occupancy matrix of a piece type.
pub open spec fn shape_spec(pt: PieceType) -> Seq<Seq<bool>> {
    match pt {
        PieceType::I => seq![
            seq![false, false, false, false],
            seq![true, true, true, true],
            seq![false, false, false, false],
            seq![false, false, false, false],
        ],
        PieceType::O => seq![seq![true, true], seq![true, true]],
        PieceType::T => seq![
            seq![false, true, false],
            seq![true, true, true],
            seq![false, false, false],
        ],
        PieceType::S => seq![
            seq![false, true, true],
            seq![true, true, false],
            seq![false, false, false],
        ],
        PieceType::Z => seq![
            seq![true, true, false],
            seq![false, true, true],
            seq![false, false, false],
        ],
        PieceType::J => seq![
            seq![true, false, false],
            seq![true, true, true],
            seq![false, false, false],
        ],
        PieceType::L => seq![
            seq![false, false, true],
            seq![true, true, true],
            seq![false, false, false],
        ],
    }
}

/// The view of a shape matrix as a sequence of rows.
pub open spec fn shape_view(s: Seq<Vec<bool>>) -> Seq<Seq<bool>> {
    Seq::new(s.len(), |i: int| s[i]@)
}

/// A matrix is rectangular and has at least one row and one column.
pub open spec fn is_rect(s: Seq<Seq<bool>>) -> bool {
    &&& s.len() > 0
    &&& s[0].len() > 0
    &&& forall|i: int| 0 <= i < s.len() ==> (#[trigger] s[i]).len() == s[0].len()
}

/// Every catalog shape is rectangular and at most 4 cells on a side.
pub proof fn lemma_shape_spec_rect(pt: PieceType)
    ensures
        is_rect(shape_spec(pt)),
        1 <= shape_spec(pt).len() <= 4,
        1 <= shape_spec(pt)[0].len() <= 4,
{
}

/// The piece type at a catalog index.
pub fn piece_type_from_index(i: usize) -> (pt: PieceType)
    requires
        i < NUM_PIECE_TYPES,
    ensures
        pt == piece_type_of(i as int),
{
    if i == 0 {
        PieceType::I
    } else if i == 1 {
        PieceType::O
    } else if i == 2 {
        PieceType::T
    } else if i == 3 {
        PieceType::S
    } else if i == 4 {
        PieceType::Z
    } else if i == 5 {
        PieceType::J
    } else {
        PieceType::L
    }
}

fn bool_row_4(a: bool, b: bool, c: bool, d: bool) -> (r: Vec<bool>)
    ensures
        r@ == seq![a, b, c, d],
{
    let mut r: Vec<bool> = Vec::new();
    r.push(a);
    r.push(b);
    r.push(c);
    r.push(d);
    proof {
        assert(r@ =~= seq![a, b, c, d]);
    }
    r
}

fn bool_row_3(a: bool, b: bool, c: bool) -> (r: Vec<bool>)
    ensures
        r@ == seq![a, b, c],
{
    let mut r: Vec<bool> = Vec::new();
    r.push(a);
    r.push(b);
    r.push(c);
    proof {
        assert(r@ =~= seq![a, b, c]);
    }
    r
}

fn bool_row_2(a: bool, b: bool) -> (r: Vec<bool>)
    ensures
        r@ == seq![a, b],
{
    let mut r: Vec<bool> = Vec::new();
    r.push(a);
    r.push(b);
    proof {
        assert(r@ =~= seq![a, b]);
    }
    r
}

/// The shape matrix registered for a piece type. Total: every piece type has
/// exactly one shape.
pub fn shape_for(pt: PieceType) -> (s: Vec<Vec<bool>>)
    ensures
        shape_view(s@) == shape_spec(pt),
{
    let mut s: Vec<Vec<bool>> = Vec::new();
    match pt {
        PieceType::I => {
            s.push(bool_row_4(false, false, false, false));
            s.push(bool_row_4(true, true, true, true));
            s.push(bool_row_4(false, false, false, false));
            s.push(bool_row_4(false, false, false, false));
        },
        PieceType::O => {
            s.push(bool_row_2(true, true));
            s.push(bool_row_2(true, true));
        },
        PieceType::T => {
            s.push(bool_row_3(false, true, false));
            s.push(bool_row_3(true, true, true));
            s.push(bool_row_3(false, false, false));
        },
        PieceType::S => {
            s.push(bool_row_3(false, true, true));
            s.push(bool_row_3(true, true, false));
            s.push(bool_row_3(false, false, false));
        },
        PieceType::Z => {
            s.push(bool_row_3(true, true, false));
            s.push(bool_row_3(false, true, true));
            s.push(bool_row_3(false, false, false));
        },
        PieceType::J => {
            s.push(bool_row_3(true, false, false));
            s.push(bool_row_3(true, true, true));
            s.push(bool_row_3(false, false, false));
        },
        PieceType::L => {
            s.push(bool_row_3(false, false, true));
            s.push(bool_row_3(true, true, true));
            s.push(bool_row_3(false, false, false));
        },
    }
    proof {
        assert(shape_view(s@) =~= shape_spec(pt));
    }
    s
}

/// The shape matrix together with its piece type.
pub fn tetromino_for(pt: PieceType) -> (t: Tetromino)
    ensures
        t.piece_type == pt,
        shape_view(t.shape@) == shape_spec(pt),
{
    Tetromino { shape: shape_for(pt), piece_type: pt }
}

} // verus!
