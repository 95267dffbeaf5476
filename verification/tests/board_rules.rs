use tetris_engine::board::{clear_lines, is_valid_move_with_board, place_piece};
use tetris_engine::pieces::PieceType;
use tetris_engine::state::{empty_board, GameState, Piece, Position};

fn piece(pt: PieceType, x: i32, y: i32, rotation: u8) -> Piece {
    Piece { piece_type: pt, position: Position { x, y }, rotation }
}

fn fresh_state() -> GameState {
    GameState {
        board: empty_board(10, 20),
        score: 0,
        current_piece: None,
        game_over: false,
    }
}

#[test]
fn fits_rejects_column_left_of_board() {
    let board = empty_board(10, 20);
    assert!(!is_valid_move_with_board(&board, &piece(PieceType::I, -1, 0, 0)));
    assert!(is_valid_move_with_board(&board, &piece(PieceType::I, 0, 0, 0)));
}

#[test]
fn fits_rejects_column_beyond_width() {
    let board = empty_board(10, 20);
    assert!(!is_valid_move_with_board(&board, &piece(PieceType::I, 7, 0, 0)));
    assert!(is_valid_move_with_board(&board, &piece(PieceType::I, 6, 0, 0)));
}

#[test]
fn fits_rejects_row_below_bottom() {
    let board = empty_board(10, 20);
    assert!(!is_valid_move_with_board(&board, &piece(PieceType::I, 3, 19, 0)));
    assert!(is_valid_move_with_board(&board, &piece(PieceType::I, 3, 18, 0)));
}

#[test]
fn fits_allows_rows_above_board_but_checks_columns() {
    let board = empty_board(10, 20);
    // The O piece at y = -2 sits entirely above the board.
    assert!(is_valid_move_with_board(&board, &piece(PieceType::O, 4, -2, 0)));
    // Even above the board the columns must be in range.
    assert!(!is_valid_move_with_board(&board, &piece(PieceType::O, -1, -2, 0)));
    assert!(!is_valid_move_with_board(&board, &piece(PieceType::O, 9, -2, 0)));
}

#[test]
fn fits_rejects_overlap_with_occupied_cell() {
    let mut board = empty_board(10, 20);
    board[19][4] = Some(PieceType::L);
    // The O piece at (4, 18) would cover (19, 4).
    assert!(!is_valid_move_with_board(&board, &piece(PieceType::O, 4, 18, 0)));
    assert!(is_valid_move_with_board(&board, &piece(PieceType::O, 4, 17, 0)));
}

#[test]
fn place_piece_writes_markers() {
    let mut s = fresh_state();
    place_piece(&mut s, &piece(PieceType::I, 3, 18, 0));
    // The I shape occupies its second row: absolute row 19, columns 3..=6.
    for x in 3..=6 {
        assert_eq!(s.board[19][x], Some(PieceType::I));
    }
    assert_eq!(s.board[18][3], None);
    assert_eq!(s.score, 0);
}

#[test]
fn place_piece_drops_cells_above_board() {
    let mut s = fresh_state();
    // The O piece at y = -1 has its top row above the board.
    place_piece(&mut s, &piece(PieceType::O, 0, -1, 0));
    assert_eq!(s.board[0][0], Some(PieceType::O));
    assert_eq!(s.board[0][1], Some(PieceType::O));
    for x in 0..10 {
        assert_eq!(s.board[1][x], None);
    }
}

#[test]
fn clear_single_bottom_row_shifts_rows_down() {
    let mut s = fresh_state();
    for x in 0..10 {
        s.board[19][x] = Some(PieceType::I);
    }
    s.board[18][5] = Some(PieceType::T);
    let lines = clear_lines(&mut s);
    assert_eq!(lines, 1);
    assert_eq!(s.score, 100);
    // A new empty row appears on top and every row shifts down by one.
    for x in 0..10 {
        assert_eq!(s.board[0][x], None);
    }
    assert_eq!(s.board[19][5], Some(PieceType::T));
    assert_eq!(s.board[18][5], None);
}

#[test]
fn clear_full_top_row() {
    let mut s = fresh_state();
    for x in 0..10 {
        s.board[0][x] = Some(PieceType::S);
    }
    let lines = clear_lines(&mut s);
    assert_eq!(lines, 1);
    assert_eq!(s.score, 100);
    for y in 0..20 {
        for x in 0..10 {
            assert_eq!(s.board[y][x], None);
        }
    }
}

#[test]
fn clear_no_rows_leaves_board_unchanged() {
    let mut s = fresh_state();
    s.board[19][0] = Some(PieceType::Z);
    let lines = clear_lines(&mut s);
    assert_eq!(lines, 0);
    assert_eq!(s.score, 0);
    assert_eq!(s.board[19][0], Some(PieceType::Z));
}

#[test]
fn clear_two_rows_scores_tier_two() {
    let mut s = fresh_state();
    for x in 0..10 {
        s.board[18][x] = Some(PieceType::J);
        s.board[19][x] = Some(PieceType::J);
    }
    let lines = clear_lines(&mut s);
    assert_eq!(lines, 2);
    assert_eq!(s.score, 300);
}

#[test]
fn clear_four_nonadjacent_rows_compacts_and_scores_tier_four() {
    let mut s = fresh_state();
    for x in 0..10 {
        s.board[13][x] = Some(PieceType::I);
        s.board[15][x] = Some(PieceType::I);
        s.board[17][x] = Some(PieceType::I);
        s.board[19][x] = Some(PieceType::I);
    }
    s.board[14][2] = Some(PieceType::T);
    s.board[16][1] = Some(PieceType::O);
    s.board[18][0] = Some(PieceType::Z);
    let lines = clear_lines(&mut s);
    assert_eq!(lines, 4);
    // The four-line bonus, not four times the one-line bonus.
    assert_eq!(s.score, 800);
    assert_ne!(s.score, 400);
    // Surviving rows keep their relative order below the new blank rows.
    assert_eq!(s.board[17][2], Some(PieceType::T));
    assert_eq!(s.board[18][1], Some(PieceType::O));
    assert_eq!(s.board[19][0], Some(PieceType::Z));
    for y in 0..4 {
        for x in 0..10 {
            assert_eq!(s.board[y][x], None);
        }
    }
}

#[test]
fn score_accumulates_across_clears() {
    let mut s = fresh_state();
    for x in 0..10 {
        s.board[19][x] = Some(PieceType::I);
    }
    clear_lines(&mut s);
    for x in 0..10 {
        s.board[18][x] = Some(PieceType::I);
        s.board[19][x] = Some(PieceType::I);
    }
    clear_lines(&mut s);
    assert_eq!(s.score, 400);
}
