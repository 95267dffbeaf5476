use tetris_engine::pieces::{shape_for, tetromino_for, PieceType};
use tetris_engine::rotate::rotate_shape;
use tetris_engine::game::TetrisContractImpl;

const ALL_TYPES: [PieceType; 7] = [
    PieceType::I,
    PieceType::O,
    PieceType::T,
    PieceType::S,
    PieceType::Z,
    PieceType::J,
    PieceType::L,
];

#[test]
fn rotation_cycle_returns_every_shape() {
    for pt in ALL_TYPES {
        let shape = shape_for(pt);
        let once = rotate_shape(&shape, 1);
        let back = rotate_shape(&once, 3);
        assert_eq!(back, shape);
        assert_eq!(rotate_shape(&shape, 0), shape);
        assert_eq!(rotate_shape(&shape, 4), shape);
    }
}

#[test]
fn rotate_t_piece_closed_form() {
    let t = shape_for(PieceType::T);
    let expected = vec![
        vec![false, true, false],
        vec![false, true, true],
        vec![false, true, false],
    ];
    assert_eq!(rotate_shape(&t, 1), expected);
}

#[test]
fn rotate_i_piece_once() {
    let i = shape_for(PieceType::I);
    let expected = vec![
        vec![false, false, true, false],
        vec![false, false, true, false],
        vec![false, false, true, false],
        vec![false, false, true, false],
    ];
    assert_eq!(rotate_shape(&i, 1), expected);
}

#[test]
fn rotate_o_piece_is_fixed() {
    let o = shape_for(PieceType::O);
    for r in 0..4u8 {
        assert_eq!(rotate_shape(&o, r), o);
    }
}

#[test]
fn repeated_quarter_turns_match_closed_form() {
    let engine = TetrisContractImpl::new();
    for pt in ALL_TYPES {
        let shape = shape_for(pt);
        for r in 0..8u8 {
            assert_eq!(engine.rotate_matrix(&shape, r), rotate_shape(&shape, r % 4));
        }
    }
}

#[test]
fn half_turn_flips_both_axes() {
    let j = shape_for(PieceType::J);
    let expected = vec![
        vec![false, false, false],
        vec![true, true, true],
        vec![false, false, true],
    ];
    assert_eq!(rotate_shape(&j, 2), expected);
}

#[test]
fn tetromino_carries_its_type_and_shape() {
    for pt in ALL_TYPES {
        let t = tetromino_for(pt);
        assert_eq!(t.piece_type, pt);
        assert_eq!(t.shape, shape_for(pt));
        let rows = t.shape.len();
        assert!(rows >= 1);
        for row in &t.shape {
            assert_eq!(row.len(), t.shape[0].len());
        }
    }
}
