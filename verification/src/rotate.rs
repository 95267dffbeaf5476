//! Rotation of shape matrices by clockwise quarter turns.
//!
//! A rotation count is taken modulo 4; rotating four times returns the
//! original matrix, so the quarter turn generates a cyclic group of order 4.

use vstd::prelude::*;
use crate::pieces::{is_rect, shape_view};

verus! {

/// One clockwise quarter turn: an R x C matrix becomes C x R, with
/// cell (y, x) of the input landing at (x, R - 1 - y) of the output.
pub open spec fn quarter_turn(s: Seq<Seq<bool>>) -> Seq<Seq<bool>> {
    Seq::new(s[0].len(), |i: int| Seq::new(s.len(), |j: int| s[s.len() - 1 - j][i]))
}

/// A matrix rotated clockwise by `n` quarter turns.
pub open spec fn rot(s: Seq<Seq<bool>>, n: nat) -> Seq<Seq<bool>>
    decreases n,
{
    if n == 0 {
        s
    } else {
        quarter_turn(rot(s, (n - 1) as nat))
    }
}

/// A cell of a shape matrix is occupied: it is in range and holds `true`.
pub open spec fn occupied(s: Seq<Seq<bool>>, y: int, x: int) -> bool {
    0 <= y < s.len() && 0 <= x < s[y].len() && s[y][x]
}

/// A quarter turn of a rectangular matrix is rectangular, with the two
/// dimensions exchanged.
pub proof fn lemma_quarter_turn_rect(s: Seq<Seq<bool>>)
    requires
        is_rect(s),
    ensures
        is_rect(quarter_turn(s)),
        quarter_turn(s).len() == s[0].len(),
        quarter_turn(s)[0].len() == s.len(),
{
}

/// Rotating a rectangular matrix keeps it rectangular, and its dimensions
/// are those of the input, possibly exchanged.
pub proof fn lemma_rot_rect(s: Seq<Seq<bool>>, n: nat)
    requires
        is_rect(s),
    ensures
        is_rect(rot(s, n)),
        (rot(s, n).len() == s.len() && rot(s, n)[0].len() == s[0].len()) || (rot(s, n).len()
            == s[0].len() && rot(s, n)[0].len() == s.len()),
    decreases n,
{
    if n > 0 {
        lemma_rot_rect(s, (n - 1) as nat);
        lemma_quarter_turn_rect(rot(s, (n - 1) as nat));
    }
}

/// A quarter turn moves an occupied cell to an occupied cell.
pub proof fn lemma_quarter_turn_occupied(s: Seq<Seq<bool>>, y: int, x: int)
    requires
        is_rect(s),
        occupied(s, y, x),
    ensures
        occupied(quarter_turn(s), x, s.len() - 1 - y),
{
}

/// A rotated matrix keeps at least one occupied cell.
pub proof fn lemma_rot_keeps_occupied(s: Seq<Seq<bool>>, n: nat)
    requires
        is_rect(s),
        exists|y: int, x: int| occupied(s, y, x),
    ensures
        exists|y: int, x: int| occupied(rot(s, n), y, x),
    decreases n,
{
    if n == 0 {
        let (y, x) = choose|y: int, x: int| occupied(s, y, x);
        assert(occupied(rot(s, n), y, x));
    } else {
        lemma_rot_keeps_occupied(s, (n - 1) as nat);
        lemma_rot_rect(s, (n - 1) as nat);
        let prev = rot(s, (n - 1) as nat);
        let (y, x) = choose|y: int, x: int| occupied(prev, y, x);
        lemma_quarter_turn_occupied(prev, y, x);
        assert(occupied(rot(s, n), x, prev.len() - 1 - y));
    }
}

/// The closed form of a half turn: cell (i, j) of the result is cell
/// (R - 1 - i, C - 1 - j) of the input.
pub proof fn lemma_rot2_cells(s: Seq<Seq<bool>>)
    requires
        is_rect(s),
    ensures
        rot(s, 2).len() == s.len(),
        is_rect(rot(s, 2)),
        rot(s, 2)[0].len() == s[0].len(),
        forall|i: int, j: int|
            0 <= i < s.len() && 0 <= j < s[0].len() ==> rot(s, 2)[i][j] == s[s.len() - 1 - i][s[0].len()
                - 1 - j],
{
    lemma_quarter_turn_rect(s);
    lemma_quarter_turn_rect(quarter_turn(s));
    assert(rot(s, 0) == s);
    assert(rot(s, 1) == quarter_turn(s));
    assert(rot(s, 2) == quarter_turn(quarter_turn(s)));
}

/// The closed form of three quarter turns: cell (i, j) of the result is cell
/// (j, C - 1 - i) of the input.
pub proof fn lemma_rot3_cells(s: Seq<Seq<bool>>)
    requires
        is_rect(s),
    ensures
        rot(s, 3).len() == s[0].len(),
        is_rect(rot(s, 3)),
        rot(s, 3)[0].len() == s.len(),
        forall|i: int, j: int|
            0 <= i < s[0].len() && 0 <= j < s.len() ==> rot(s, 3)[i][j] == s[j][s[0].len() - 1 - i],
{
    lemma_rot2_cells(s);
    lemma_quarter_turn_rect(rot(s, 2));
    assert(rot(s, 3) == quarter_turn(rot(s, 2)));
}

/// Rotating by `m + n` quarter turns equals rotating by `m`, then by `n`.
pub proof fn lemma_rot_add(s: Seq<Seq<bool>>, m: nat, n: nat)
    ensures
        rot(s, m + n) == rot(rot(s, m), n),
    decreases n,
{
    if n > 0 {
        lemma_rot_add(s, m, (n - 1) as nat);
        assert(m + n - 1 == m + (n - 1) as nat);
    }
}

/// Four quarter turns return a rectangular matrix unchanged.
pub proof fn lemma_rot_period(s: Seq<Seq<bool>>)
    requires
        is_rect(s),
    ensures
        rot(s, 4) == s,
{
    lemma_rot_add(s, 2, 2);
    lemma_rot2_cells(s);
    lemma_rot2_cells(rot(s, 2));
    assert forall|i: int| 0 <= i < s.len() implies rot(s, 4)[i] == s[i] by {
        assert(rot(s, 4)[i] =~= s[i]);
    }
    assert(rot(s, 4) =~= s);
}

/// Rotation is cyclic with period 4: a quarter turn followed by three more
/// returns a rectangular shape unchanged, as does rotating by zero, and any
/// rotation count acts as its remainder modulo 4.
pub proof fn lemma_rotation_cycle(s: Seq<Seq<bool>>, n: nat)
    requires
        is_rect(s),
    ensures
        rot(rot(s, 1), 3) == s,
        rot(s, 0) == s,
        rot(s, n) == rot(s, n % 4),
    decreases n,
{
    lemma_rot_add(s, 1, 3);
    lemma_rot_period(s);
    if n >= 4 {
        lemma_rot_add(s, 4, (n - 4) as nat);
        lemma_rotation_cycle(s, (n - 4) as nat);
        assert(n % 4 == (n - 4) as nat % 4) by (nonlinear_arith)
            requires
                n >= 4,
        ;
    }
}

fn copy_row(row: &Vec<bool>) -> (r: Vec<bool>)
    ensures
        r@ == row@,
{
    let mut r: Vec<bool> = Vec::new();
    let mut j: usize = 0;
    while j < row.len()
        invariant
            j <= row.len(),
            r@ == row@.take(j as int),
        decreases row.len() - j,
    {
        r.push(row[j]);
        j += 1;
        proof {
            assert(r@ =~= row@.take(j as int));
        }
    }
    proof {
        assert(r@ =~= row@);
    }
    r
}

fn copy_shape(shape: &Vec<Vec<bool>>) -> (r: Vec<Vec<bool>>)
    ensures
        shape_view(r@) == shape_view(shape@),
{
    let mut r: Vec<Vec<bool>> = Vec::new();
    let mut i: usize = 0;
    while i < shape.len()
        invariant
            i <= shape.len(),
            r@.len() == i,
            forall|k: int| 0 <= k < i ==> r@[k]@ == shape@[k]@,
        decreases shape.len() - i,
    {
        r.push(copy_row(&shape[i]));
        i += 1;
    }
    proof {
        assert(shape_view(r@) =~= shape_view(shape@));
    }
    r
}

/// One clockwise quarter turn of a rectangular shape matrix.
pub fn quarter_turn_of(shape: &Vec<Vec<bool>>) -> (r: Vec<Vec<bool>>)
    requires
        is_rect(shape_view(shape@)),
    ensures
        shape_view(r@) == quarter_turn(shape_view(shape@)),
        is_rect(shape_view(r@)),
{
    let ghost sv = shape_view(shape@);
    let rows = shape.len();
    let cols = shape[0].len();
    let mut r: Vec<Vec<bool>> = Vec::new();
    let mut a: usize = 0;
    while a < cols
        invariant
            is_rect(sv),
            sv == shape_view(shape@),
            rows == shape@.len(),
            cols == sv[0].len(),
            a <= cols,
            r@.len() == a,
            forall|k: int| 0 <= k < a ==> r@[k]@ == quarter_turn(sv)[k],
        decreases cols - a,
    {
        let mut rowv: Vec<bool> = Vec::new();
        let mut b: usize = 0;
        while b < rows
            invariant
                is_rect(sv),
                sv == shape_view(shape@),
                rows == shape@.len(),
                cols == sv[0].len(),
                a < cols,
                b <= rows,
                rowv@.len() == b,
                forall|k: int| 0 <= k < b ==> rowv@[k] == sv[rows - 1 - k][a as int],
            decreases rows - b,
        {
            proof {
                assert(sv[rows - 1 - b].len() == cols);
            }
            rowv.push(shape[rows - 1 - b][a]);
            b += 1;
        }
        proof {
            assert(rowv@ =~= quarter_turn(sv)[a as int]);
        }
        r.push(rowv);
        a += 1;
    }
    proof {
        assert(shape_view(r@) =~= quarter_turn(sv));
        lemma_quarter_turn_rect(sv);
    }
    r
}

/// The shape rotated clockwise by `rotation` quarter turns; the count is
/// taken modulo 4, and rotating by zero returns an unchanged copy. Each
/// turn count uses its closed-form cell mapping, which agrees with repeated
/// single-quarter application. The input shape is never mutated.
pub fn rotate_shape(shape: &Vec<Vec<bool>>, rotation: u8) -> (r: Vec<Vec<bool>>)
    requires
        is_rect(shape_view(shape@)),
    ensures
        shape_view(r@) == rot(shape_view(shape@), (rotation % 4) as nat),
        is_rect(shape_view(r@)),
{
    let ghost sv = shape_view(shape@);
    let k = rotation % 4;
    proof {
        assert(rot(sv, 0) == sv);
    }
    if k == 0 {
        copy_shape(shape)
    } else if k == 1 {
        quarter_turn_of(shape)
    } else if k == 2 {
        half_turn_of(shape)
    } else {
        three_quarter_turn_of(shape)
    }
}

fn half_turn_of(shape: &Vec<Vec<bool>>) -> (r: Vec<Vec<bool>>)
    requires
        is_rect(shape_view(shape@)),
    ensures
        shape_view(r@) == rot(shape_view(shape@), 2),
        is_rect(shape_view(r@)),
{
    let ghost sv = shape_view(shape@);
    proof {
        lemma_rot2_cells(sv);
    }
    let rows = shape.len();
    let cols = shape[0].len();
    let mut r: Vec<Vec<bool>> = Vec::new();
    let mut a: usize = 0;
    while a < rows
        invariant
            is_rect(sv),
            sv == shape_view(shape@),
            rows == shape@.len(),
            cols == sv[0].len(),
            a <= rows,
            r@.len() == a,
            forall|k: int| 0 <= k < a ==> r@[k]@ == rot(sv, 2)[k],
            rot(sv, 2).len() == rows,
            is_rect(rot(sv, 2)),
            rot(sv, 2)[0].len() == cols,
            forall|i: int, j: int|
                0 <= i < rows && 0 <= j < cols ==> rot(sv, 2)[i][j] == sv[rows - 1 - i][cols - 1
                    - j],
        decreases rows - a,
    {
        let mut rowv: Vec<bool> = Vec::new();
        let mut b: usize = 0;
        while b < cols
            invariant
                is_rect(sv),
                sv == shape_view(shape@),
                rows == shape@.len(),
                cols == sv[0].len(),
                a < rows,
                b <= cols,
                rowv@.len() == b,
                forall|k: int| 0 <= k < b ==> rowv@[k] == sv[rows - 1 - a][cols - 1 - k],
        decreases cols - b,
        {
            proof {
                assert(sv[rows - 1 - a].len() == cols);
            }
            rowv.push(shape[rows - 1 - a][cols - 1 - b]);
            b += 1;
        }
        proof {
            assert(rowv@ =~= rot(sv, 2)[a as int]);
        }
        r.push(rowv);
        a += 1;
    }
    proof {
        assert(shape_view(r@) =~= rot(sv, 2));
    }
    r
}

fn three_quarter_turn_of(shape: &Vec<Vec<bool>>) -> (r: Vec<Vec<bool>>)
    requires
        is_rect(shape_view(shape@)),
    ensures
        shape_view(r@) == rot(shape_view(shape@), 3),
        is_rect(shape_view(r@)),
{
    let ghost sv = shape_view(shape@);
    proof {
        lemma_rot3_cells(sv);
    }
    let rows = shape.len();
    let cols = shape[0].len();
    let mut r: Vec<Vec<bool>> = Vec::new();
    let mut a: usize = 0;
    while a < cols
        invariant
            is_rect(sv),
            sv == shape_view(shape@),
            rows == shape@.len(),
            cols == sv[0].len(),
            a <= cols,
            r@.len() == a,
            forall|k: int| 0 <= k < a ==> r@[k]@ == rot(sv, 3)[k],
            rot(sv, 3).len() == cols,
            is_rect(rot(sv, 3)),
            rot(sv, 3)[0].len() == rows,
            forall|i: int, j: int|
                0 <= i < cols && 0 <= j < rows ==> rot(sv, 3)[i][j] == sv[j][cols - 1 - i],
        decreases cols - a,
    {
        let mut rowv: Vec<bool> = Vec::new();
        let mut b: usize = 0;
        while b < rows
            invariant
                is_rect(sv),
                sv == shape_view(shape@),
                rows == shape@.len(),
                cols == sv[0].len(),
                a < cols,
                b <= rows,
                rowv@.len() == b,
                forall|k: int| 0 <= k < b ==> rowv@[k] == sv[k][cols - 1 - a],
            decreases rows - b,
        {
            proof {
                assert(sv[b as int].len() == cols);
            }
            rowv.push(shape[b][cols - 1 - a]);
            b += 1;
        }
        proof {
            assert(rowv@ =~= rot(sv, 3)[a as int]);
        }
        r.push(rowv);
        a += 1;
    }
    proof {
        assert(shape_view(r@) =~= rot(sv, 3));
    }
    r
}

} // verus!
