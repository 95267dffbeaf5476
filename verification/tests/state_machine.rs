use tetris_engine::game::{
    generate_new_piece, generate_random_piece, GameAction, Operation, SpawnPolicy,
    TetrisContractImpl,
};
use tetris_engine::pieces::PieceType;
use tetris_engine::state::{state_well_formed, GameState, Piece, Position};

fn started() -> TetrisContractImpl {
    let mut c = TetrisContractImpl::new();
    let r = c.start_game();
    assert!(r.success);
    c
}

#[test]
fn new_engine_is_idle_and_well_formed() {
    let c = TetrisContractImpl::new();
    assert!(state_well_formed(&c.state));
    assert_eq!(c.state.score, 0);
    assert!(c.state.current_piece.is_none());
    assert!(!c.state.game_over);
    assert_eq!(c.state.board.len(), 20);
    assert_eq!(c.state.board[0].len(), 10);
}

#[test]
fn start_game_spawns_score_zero_piece() {
    let c = started();
    let p = c.state.current_piece.expect("piece spawned");
    assert_eq!(p.piece_type, PieceType::I);
    assert_eq!(p.position.x, 3);
    assert_eq!(p.position.y, 0);
    assert_eq!(p.rotation, 0);
    assert!(!c.state.game_over);
}

#[test]
fn start_game_while_in_progress_is_rejected() {
    let mut c = started();
    c.state.score = 55;
    let before_piece = c.state.current_piece;
    let r = c.start_game();
    assert!(!r.success);
    assert_eq!(r.message, "Game is already in progress");
    // State unchanged.
    assert_eq!(c.state.score, 55);
    assert_eq!(c.state.current_piece, before_piece);
}

#[test]
fn start_game_after_game_over_resets_everything() {
    let mut c = started();
    c.state.score = 700;
    c.state.board[19][0] = Some(PieceType::L);
    let r = c.game_over();
    assert!(r.success);
    assert!(c.state.game_over);
    assert!(c.state.current_piece.is_none());
    let r2 = c.start_game();
    assert!(r2.success);
    assert_eq!(c.state.score, 0);
    assert!(!c.state.game_over);
    assert!(c.state.current_piece.is_some());
    for y in 0..20 {
        for x in 0..10 {
            assert_eq!(c.state.board[y][x], None);
        }
    }
}

#[test]
fn moves_walk_to_the_left_wall_then_fail() {
    let mut c = started();
    // The I piece starts at x = 3; the first MoveLeft reaches x = 2.
    let r = c.move_left();
    assert!(r.success);
    assert_eq!(c.state.current_piece.unwrap().position.x, 2);
    let mut successes = 0;
    let mut failures = 0;
    for _ in 0..9 {
        let r = c.move_left();
        if r.success {
            successes += 1;
        } else {
            failures += 1;
            assert_eq!(r.message, "Cannot move left");
        }
    }
    // x = 2 -> 1 -> 0 succeed; x = -1 would put a column off the board.
    assert_eq!(successes, 2);
    assert_eq!(failures, 7);
    assert_eq!(c.state.current_piece.unwrap().position.x, 0);
}

#[test]
fn move_right_stops_at_the_wall() {
    let mut c = started();
    let mut successes = 0;
    for _ in 0..12 {
        if c.move_right().success {
            successes += 1;
        }
    }
    // The I piece spans columns x..x+3, so x = 6 is the rightmost fit.
    assert_eq!(successes, 3);
    assert_eq!(c.state.current_piece.unwrap().position.x, 6);
    let r = c.move_right();
    assert!(!r.success);
    assert_eq!(r.message, "Cannot move right");
}

#[test]
fn actions_without_active_game_are_rejected() {
    let mut c = TetrisContractImpl::new();
    for action in [GameAction::MoveLeft, GameAction::MoveRight, GameAction::Rotate, GameAction::Drop]
    {
        let r = c.execute_operation(Operation { action });
        assert!(!r.success);
        assert_eq!(r.message, "Game not in progress");
        assert!(c.state.current_piece.is_none());
        assert_eq!(c.state.score, 0);
    }
}

#[test]
fn rotate_succeeds_in_open_space() {
    let mut c = started();
    let r = c.rotate();
    assert!(r.success);
    assert_eq!(r.message, "Rotated");
    assert_eq!(c.state.current_piece.unwrap().rotation, 1);
    // Four rotations come back to rotation 0.
    c.rotate();
    c.rotate();
    c.rotate();
    assert_eq!(c.state.current_piece.unwrap().rotation, 0);
}

#[test]
fn rotate_into_collision_is_rejected() {
    let mut c = started();
    // Rotated, the I piece occupies column x+2 over rows y..y+3.
    c.state.board[2][5] = Some(PieceType::O);
    let r = c.rotate();
    assert!(!r.success);
    assert_eq!(r.message, "Cannot rotate");
    assert_eq!(c.state.current_piece.unwrap().rotation, 0);
}

#[test]
fn drop_lands_piece_on_the_floor() {
    let mut c = started();
    let r = c.drop();
    assert!(r.success);
    assert_eq!(r.message, "Piece dropped");
    // The I piece locks its occupied row at the bottom, columns 3..=6.
    for x in 3..=6 {
        assert_eq!(c.state.board[19][x], Some(PieceType::I));
    }
    // A new piece spawned; score unchanged since nothing cleared.
    assert_eq!(c.state.score, 0);
    assert!(c.state.current_piece.is_some());
    assert!(!c.state.game_over);
}

#[test]
fn drop_completing_bottom_row_scores_one_line() {
    let mut c = started();
    // Fill the bottom row except its two rightmost cells and make the
    // falling piece an O at the matching column.
    for x in 0..8 {
        c.state.board[19][x] = Some(PieceType::L);
    }
    c.state.current_piece = Some(Piece {
        piece_type: PieceType::O,
        position: Position { x: 8, y: 0 },
        rotation: 0,
    });
    let r = c.drop();
    assert!(r.success);
    assert_eq!(c.state.score, 100);
    // The completed bottom row is gone; the O piece's upper half slid down
    // into the new bottom row.
    assert_eq!(c.state.board[19][8], Some(PieceType::O));
    assert_eq!(c.state.board[19][9], Some(PieceType::O));
    assert_eq!(c.state.board[19][0], None);
    assert!(!c.state.game_over);
    assert!(c.state.current_piece.is_some());
}

#[test]
fn drop_with_no_room_to_spawn_ends_the_game() {
    let mut c = started();
    // Block the spawn area of the next piece (score stays 0, so an I piece
    // would spawn across row 1, columns 3..=6) and drop the current piece
    // far away on the left.
    c.state.board[1][4] = Some(PieceType::S);
    c.state.current_piece = Some(Piece {
        piece_type: PieceType::O,
        position: Position { x: 0, y: 2 },
        rotation: 0,
    });
    let r = c.drop();
    assert!(r.success);
    assert_eq!(r.message, "Game over");
    assert!(c.state.game_over);
    assert!(c.state.current_piece.is_none());
}

#[test]
fn execute_operation_runs_a_short_game() {
    let mut c = TetrisContractImpl::new();
    let r = c.execute_operation(Operation { action: GameAction::StartGame });
    assert!(r.success);
    let snapshot = r.game_state.expect("snapshot");
    assert_eq!(snapshot.score, 0);
    let r = c.execute_operation(Operation { action: GameAction::MoveRight });
    assert!(r.success);
    let r = c.execute_operation(Operation { action: GameAction::Drop });
    assert!(r.success);
    for x in 4..=7 {
        assert_eq!(c.state.board[19][x], Some(PieceType::I));
    }
    let r = c.execute_operation(Operation { action: GameAction::GameOver });
    assert!(r.success);
    assert!(c.state.game_over);
    assert!(c.state.current_piece.is_none());
}

#[test]
fn merge_piece_locks_in_place_and_scores() {
    let mut c = started();
    for x in 0..10 {
        if !(3..=6).contains(&x) {
            c.state.board[19][x] = Some(PieceType::J);
        }
    }
    // The I piece's occupied row sits at y + 1; at y = 18 it completes the
    // bottom row in place.
    c.state.current_piece = Some(Piece {
        piece_type: PieceType::I,
        position: Position { x: 3, y: 18 },
        rotation: 0,
    });
    c.merge_piece();
    assert_eq!(c.state.score, 100);
    for x in 0..10 {
        assert_eq!(c.state.board[19][x], None);
    }
    // The piece descriptor itself stays installed.
    assert!(c.state.current_piece.is_some());
}

#[test]
fn query_returns_a_matching_snapshot() {
    let mut c = started();
    c.state.board[19][9] = Some(PieceType::J);
    c.state.score = 123;
    let s = c.query();
    assert_eq!(s.score, 123);
    assert_eq!(s.board, c.state.board);
    assert_eq!(s.current_piece, c.state.current_piece);
    assert_eq!(s.game_over, c.state.game_over);
}

#[test]
fn deterministic_spawner_follows_the_score() {
    let types = [
        PieceType::I,
        PieceType::O,
        PieceType::T,
        PieceType::S,
        PieceType::Z,
        PieceType::J,
        PieceType::L,
    ];
    for k in 0..14u32 {
        let s = GameState { score: k, ..GameState::default() };
        let p = generate_new_piece(&s);
        assert_eq!(p.piece_type, types[(k % 7) as usize]);
        assert_eq!(p.position.x, 3);
        assert_eq!(p.position.y, 0);
        assert_eq!(p.rotation, 0);
    }
}

#[test]
fn random_spawner_uses_fixed_offset() {
    for _ in 0..20 {
        let p = generate_random_piece();
        assert_eq!(p.position.x, 3);
        assert_eq!(p.position.y, 0);
        assert_eq!(p.rotation, 0);
    }
}

#[test]
fn random_policy_engine_spawns_at_fixed_offset() {
    let mut c = TetrisContractImpl::new();
    c.policy = SpawnPolicy::Random;
    let r = c.start_game();
    assert!(r.success);
    let p = c.state.current_piece.expect("piece spawned");
    assert_eq!(p.position.x, 3);
    assert_eq!(p.position.y, 0);
    assert_eq!(p.rotation, 0);
}

#[test]
fn state_well_formed_rejects_ragged_board() {
    let mut c = TetrisContractImpl::new();
    assert!(state_well_formed(&c.state));
    c.state.board[7].pop();
    assert!(!state_well_formed(&c.state));
}
