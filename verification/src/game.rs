//! The game state machine: one transition per action, with game-over and
//! in-progress rules, spawning, and scoring.

use vstd::prelude::*;
use crate::pieces::{NUM_PIECE_TYPES, piece_type_of, piece_type_from_index};
use crate::board::{
    piece_fits, locked_grid, cleared_grid, rows_cleared, line_score, with_y, drop_dest,
    lemma_fits_bounds, lemma_locked_grid_ok, lemma_cleared_grid_ok, is_valid_move, place_piece,
    clear_lines, drop_destination,
};
use crate::rotate::{quarter_turn_of, rot, lemma_rotation_cycle};
use crate::pieces::{is_rect, shape_view};
use crate::state::{
    GameState, Piece, Position, grid_of, grid_width, grid_height, piece_ok, state_ok,
    states_match, blank_grid, empty_board, lemma_blank_grid_ok,
};

verus! {

broadcast use vstd::string::group_string_axioms;

/// The vocabulary of actions a host may request; there are no others.
#[derive(Debug, Clone, Copy, PartialEq, Eq, Structural)]
pub enum GameAction {
    StartGame,
    MoveLeft,
    MoveRight,
    Rotate,
    Drop,
    GameOver,
}

/// One requested action.
#[derive(Debug, Clone, Copy)]
pub struct Operation {
    pub action: GameAction,
}

/// The result of a transition: a success flag, a message, and a snapshot of
/// the state after the transition.
#[derive(Debug)]
pub struct GameResponse {
    pub success: bool,
    pub message: String,
    pub game_state: Option<GameState>,
}

/// How the next piece's type is chosen: deterministically from the score,
/// or by a uniform random draw.
#[derive(Debug, Clone, Copy, PartialEq, Eq, Structural)]
pub enum SpawnPolicy {
    ScoreBased,
    Random,
}

/// The column where a new piece spawns.
pub const SPAWN_X: i32 = 3;

/// The row where a new piece spawns.
pub const SPAWN_Y: i32 = 0;

/// A game is in progress: not over, with an active falling piece.
pub open spec fn in_progress(s: GameState) -> bool {
    !s.game_over && s.current_piece is Some
}

/// The piece the score-based spawner produces at a given score.
pub open spec fn spawned_piece(score: u32) -> Piece {
    Piece {
        piece_type: piece_type_of(score as int % NUM_PIECE_TYPES as int),
        position: Position { x: SPAWN_X, y: SPAWN_Y },
        rotation: 0,
    }
}

/// What is known of a spawned piece under a policy: the score-based spawner
/// is pinned exactly; of a random draw only the fixed offset and rotation.
pub open spec fn spawn_matches(policy: SpawnPolicy, score: u32, p: Piece) -> bool {
    match policy {
        SpawnPolicy::ScoreBased => p == spawned_piece(score),
        SpawnPolicy::Random => p.position.x == SPAWN_X && p.position.y == SPAWN_Y && p.rotation
            == 0,
    }
}

/// A response carries the given flag and message, and a snapshot holding
/// the same data as `snap`.
pub open spec fn resp_matches(r: GameResponse, success: bool, msg: Seq<char>, snap: GameState) -> bool {
    &&& r.success == success
    &&& r.message@ == msg
    &&& r.game_state matches Some(g) && states_match(g, snap)
}

/// The candidate piece for a horizontal move by `dx` columns.
pub open spec fn shifted(p: Piece, dx: int) -> Piece {
    Piece {
        piece_type: p.piece_type,
        position: Position { x: (p.position.x + dx) as i32, y: p.position.y },
        rotation: p.rotation,
    }
}

/// The candidate piece for a clockwise rotation step.
pub open spec fn rotated_piece(p: Piece) -> Piece {
    Piece {
        piece_type: p.piece_type,
        position: p.position,
        rotation: ((p.rotation + 1) % 4) as u8,
    }
}

/// What `start_game` does: rejected with no change while a game is in
/// progress; otherwise board and score reset and a spawned piece installed.
pub open spec fn start_game_spec(
    pre: GameState,
    policy: SpawnPolicy,
    post: GameState,
    r: GameResponse,
) -> bool {
    if in_progress(pre) {
        &&& states_match(post, pre)
        &&& resp_matches(r, false, "Game is already in progress"@, pre)
    } else {
        &&& exists|np: Piece|
            #[trigger] spawn_matches(policy, 0, np) && post.current_piece == Some(np)
        &&& (policy == SpawnPolicy::ScoreBased ==> post.current_piece == Some(spawned_piece(0)))
        &&& grid_of(post.board@) == blank_grid(
            grid_width(grid_of(pre.board@)),
            grid_height(grid_of(pre.board@)),
        )
        &&& post.score == 0
        &&& !post.game_over
        &&& resp_matches(r, true, "Game started"@, post)
    }
}

/// What a horizontal move or a rotation does: rejected with no change when
/// no game is in progress; otherwise the candidate replaces the current
/// piece exactly when it fits on the unchanged board.
pub open spec fn move_spec(
    pre: GameState,
    post: GameState,
    r: GameResponse,
    cand: Piece,
    ok_msg: Seq<char>,
    fail_msg: Seq<char>,
) -> bool {
    if !in_progress(pre) {
        &&& states_match(post, pre)
        &&& resp_matches(r, false, "Game not in progress"@, pre)
    } else {
        &&& post.score == pre.score
        &&& post.game_over == pre.game_over
        &&& grid_of(post.board@) == grid_of(pre.board@)
        &&& if piece_fits(grid_of(pre.board@), cand) {
            post.current_piece == Some(cand) && resp_matches(r, true, ok_msg, post)
        } else {
            post.current_piece == pre.current_piece && resp_matches(r, false, fail_msg, post)
        }
    }
}

/// The board after the falling piece hard-drops and locks, before lines
/// clear.
pub open spec fn drop_locked(pre: GameState) -> Seq<Seq<Option<crate::pieces::PieceType>>> {
    let g = grid_of(pre.board@);
    let p = pre.current_piece->0;
    locked_grid(g, with_y(p, drop_dest(g, p)))
}

/// The score after a drop: the old score plus the tiered award for the rows
/// the lock completed.
pub open spec fn drop_score(pre: GameState) -> u32 {
    (pre.score + line_score(rows_cleared(drop_locked(pre)))) as u32
}

/// What a drop does once a piece was active: the piece falls to its resting
/// position and locks, full rows clear and score, and the spawned piece
/// `np` either becomes the new falling piece or, if it cannot be placed,
/// the game ends with no active piece.
pub open spec fn drop_post(pre: GameState, post: GameState, r: GameResponse, np: Piece) -> bool {
    let locked = drop_locked(pre);
    &&& grid_of(post.board@) == cleared_grid(locked)
    &&& post.score == pre.score + line_score(rows_cleared(locked))
    &&& if piece_fits(cleared_grid(locked), np) {
        &&& post.current_piece == Some(np)
        &&& !post.game_over
        &&& resp_matches(r, true, "Piece dropped"@, post)
    } else {
        &&& post.current_piece is None
        &&& post.game_over
        &&& resp_matches(r, true, "Game over"@, post)
    }
}

/// What `drop` does: rejected with no change when no game is in progress;
/// otherwise `drop_post` holds of a piece the policy spawned at the updated
/// score.
pub open spec fn drop_spec(
    pre: GameState,
    policy: SpawnPolicy,
    post: GameState,
    r: GameResponse,
) -> bool {
    if !in_progress(pre) {
        &&& states_match(post, pre)
        &&& resp_matches(r, false, "Game not in progress"@, pre)
    } else {
        &&& exists|np: Piece|
            #[trigger] spawn_matches(policy, drop_score(pre), np) && drop_post(pre, post, r, np)
        &&& (policy == SpawnPolicy::ScoreBased ==> drop_post(
            pre,
            post,
            r,
            spawned_piece(drop_score(pre)),
        ))
    }
}

/// What the forfeit action does: unconditionally ends the game and clears
/// the active piece, leaving board and score as they were.
pub open spec fn force_over_spec(pre: GameState, post: GameState, r: GameResponse) -> bool {
    &&& grid_of(post.board@) == grid_of(pre.board@)
    &&& post.score == pre.score
    &&& post.current_piece is None
    &&& post.game_over
    &&& resp_matches(r, true, "Game over"@, post)
}

fn respond(success: bool, message: &str, state: &GameState) -> (r: GameResponse)
    ensures
        resp_matches(r, success, message@, *state),
{
    GameResponse { success, message: message.to_string(), game_state: Some(state.clone()) }
}

/// Relies on rand::random: a value drawn from the thread-local generator.
/// Nothing is promised of the draw.
pub assume_specification<T>[ rand::random::<T> ]() -> (r: T)
    where
        rand::distributions::Standard: rand::distributions::Distribution<T>,
;

/// Deterministic spawner: the piece type is the score modulo the catalog
/// size; the piece spawns at the fixed offset with rotation 0.
pub fn generate_new_piece(state: &GameState) -> (p: Piece)
    ensures
        p == spawned_piece(state.score),
        piece_ok(p),
{
    let idx = (state.score as usize) % NUM_PIECE_TYPES;
    Piece {
        piece_type: piece_type_from_index(idx),
        position: Position { x: SPAWN_X, y: SPAWN_Y },
        rotation: 0,
    }
}

/// Random spawner: a uniformly drawn piece type at the fixed spawn offset
/// with rotation 0. Only the offset and rotation are pinned; the type
/// depends on the draw.
pub fn generate_random_piece() -> (p: Piece)
    ensures
        p.position.x == SPAWN_X,
        p.position.y == SPAWN_Y,
        p.rotation == 0,
        piece_ok(p),
{
    let draw: usize = rand::random::<usize>();
    let idx = draw % NUM_PIECE_TYPES;
    Piece {
        piece_type: piece_type_from_index(idx),
        position: Position { x: SPAWN_X, y: SPAWN_Y },
        rotation: 0,
    }
}

/// The unified engine: the game state it owns between calls, and the
/// configured spawn policy.
pub struct TetrisContractImpl {
    pub state: GameState,
    pub policy: SpawnPolicy,
}

impl TetrisContractImpl {
    /// A fresh engine: default-sized empty board, score-based spawning.
    pub fn new() -> (c: Self)
        ensures
            state_ok(c.state),
            c.state.score == 0,
            c.state.current_piece is None,
            !c.state.game_over,
            grid_of(c.state.board@) == blank_grid(
                crate::state::DEFAULT_WIDTH as int,
                crate::state::DEFAULT_HEIGHT as int,
            ),
            c.policy == SpawnPolicy::ScoreBased,
    {
        TetrisContractImpl { state: GameState::default(), policy: SpawnPolicy::ScoreBased }
    }

    /// A snapshot of the current state, for read-only observers.
    pub fn query(&self) -> (s: GameState)
        ensures
            states_match(s, self.state),
    {
        self.state.clone()
    }

    /// A piece spawned under the configured policy at the current score.
    pub fn spawn_new_piece(&self) -> (p: Piece)
        ensures
            spawn_matches(self.policy, self.state.score, p),
            piece_ok(p),
    {
        match self.policy {
            SpawnPolicy::ScoreBased => generate_new_piece(&self.state),
            SpawnPolicy::Random => generate_random_piece(),
        }
    }

    /// Starts a new game unless one is already in progress.
    pub fn start_game(&mut self) -> (r: GameResponse)
        requires
            state_ok(old(self).state),
        ensures
            state_ok(final(self).state),
            final(self).policy == old(self).policy,
            start_game_spec(old(self).state, old(self).policy, final(self).state, r),
    {
        if !self.state.game_over && self.state.current_piece.is_some() {
            return respond(false, "Game is already in progress", &self.state);
        }
        let w = self.state.board[0].len();
        let h = self.state.board.len();
        self.state.board = empty_board(w, h);
        self.state.score = 0;
        self.state.game_over = false;
        let np = self.spawn_new_piece();
        self.state.current_piece = Some(np);
        proof {
            lemma_blank_grid_ok(w as int, h as int);
            assert(spawn_matches(self.policy, 0, np));
        }
        respond(true, "Game started", &self.state)
    }

    /// Moves the falling piece one column to the left if the result fits.
    pub fn move_left(&mut self) -> (r: GameResponse)
        requires
            state_ok(old(self).state),
        ensures
            state_ok(final(self).state),
            final(self).policy == old(self).policy,
            move_spec(
                old(self).state,
                final(self).state,
                r,
                shifted(old(self).state.current_piece->0, -1),
                "Moved left"@,
                "Cannot move left"@,
            ),
    {
        if self.state.game_over || self.state.current_piece.is_none() {
            return respond(false, "Game not in progress", &self.state);
        }
        let p = self.state.current_piece.unwrap();
        let cand = Piece {
            piece_type: p.piece_type,
            position: Position { x: p.position.x - 1, y: p.position.y },
            rotation: p.rotation,
        };
        proof {
            assert(cand == shifted(p, -1));
        }
        if is_valid_move(&self.state, &cand) {
            proof {
                lemma_fits_bounds(grid_of(self.state.board@), cand);
            }
            self.state.current_piece = Some(cand);
            respond(true, "Moved left", &self.state)
        } else {
            respond(false, "Cannot move left", &self.state)
        }
    }

    /// Moves the falling piece one column to the right if the result fits.
    pub fn move_right(&mut self) -> (r: GameResponse)
        requires
            state_ok(old(self).state),
        ensures
            state_ok(final(self).state),
            final(self).policy == old(self).policy,
            move_spec(
                old(self).state,
                final(self).state,
                r,
                shifted(old(self).state.current_piece->0, 1),
                "Moved right"@,
                "Cannot move right"@,
            ),
    {
        if self.state.game_over || self.state.current_piece.is_none() {
            return respond(false, "Game not in progress", &self.state);
        }
        let p = self.state.current_piece.unwrap();
        let cand = Piece {
            piece_type: p.piece_type,
            position: Position { x: p.position.x + 1, y: p.position.y },
            rotation: p.rotation,
        };
        proof {
            assert(cand == shifted(p, 1));
        }
        if is_valid_move(&self.state, &cand) {
            proof {
                lemma_fits_bounds(grid_of(self.state.board@), cand);
            }
            self.state.current_piece = Some(cand);
            respond(true, "Moved right", &self.state)
        } else {
            respond(false, "Cannot move right", &self.state)
        }
    }

    /// Rotates the falling piece one quarter turn clockwise if the result
    /// fits; there is no wall kick.
    pub fn rotate(&mut self) -> (r: GameResponse)
        requires
            state_ok(old(self).state),
        ensures
            state_ok(final(self).state),
            final(self).policy == old(self).policy,
            move_spec(
                old(self).state,
                final(self).state,
                r,
                rotated_piece(old(self).state.current_piece->0),
                "Rotated"@,
                "Cannot rotate"@,
            ),
    {
        if self.state.game_over || self.state.current_piece.is_none() {
            return respond(false, "Game not in progress", &self.state);
        }
        let p = self.state.current_piece.unwrap();
        let cand = Piece {
            piece_type: p.piece_type,
            position: p.position,
            rotation: (p.rotation + 1) % 4,
        };
        proof {
            assert(cand == rotated_piece(p));
        }
        if is_valid_move(&self.state, &cand) {
            self.state.current_piece = Some(cand);
            respond(true, "Rotated", &self.state)
        } else {
            respond(false, "Cannot rotate", &self.state)
        }
    }

    /// Hard-drops the falling piece: it falls to its resting position,
    /// locks, lines clear and score, and a new piece spawns; a new piece
    /// that cannot be placed ends the game instead.
    pub fn drop(&mut self) -> (r: GameResponse)
        requires
            state_ok(old(self).state),
            old(self).state.score + 800 <= u32::MAX,
        ensures
            state_ok(final(self).state),
            final(self).policy == old(self).policy,
            drop_spec(old(self).state, old(self).policy, final(self).state, r),
    {
        if self.state.game_over || self.state.current_piece.is_none() {
            return respond(false, "Game not in progress", &self.state);
        }
        let ghost pre = old(self).state;
        let ghost g = grid_of(pre.board@);
        let p = self.state.current_piece.unwrap();
        let dest = drop_destination(&self.state.board, &p);
        let landed = Piece {
            piece_type: p.piece_type,
            position: Position { x: p.position.x, y: dest },
            rotation: p.rotation,
        };
        proof {
            assert(landed == with_y(p, dest as int));
            assert(drop_locked(pre) == locked_grid(g, landed));
        }
        place_piece(&mut self.state, &landed);
        proof {
            lemma_locked_grid_ok(g, landed);
        }
        let lines = clear_lines(&mut self.state);
        proof {
            lemma_cleared_grid_ok(drop_locked(pre));
            assert(self.state.score == drop_score(pre));
        }
        let np = self.spawn_new_piece();
        if is_valid_move(&self.state, &np) {
            self.state.current_piece = Some(np);
            let resp = respond(true, "Piece dropped", &self.state);
            proof {
                assert(spawn_matches(self.policy, drop_score(pre), np) && drop_post(
                    pre,
                    self.state,
                    resp,
                    np,
                ));
            }
            resp
        } else {
            self.state.game_over = true;
            self.state.current_piece = None;
            let resp = respond(true, "Game over", &self.state);
            proof {
                assert(spawn_matches(self.policy, drop_score(pre), np) && drop_post(
                    pre,
                    self.state,
                    resp,
                    np,
                ));
            }
            resp
        }
    }

    /// Locks the falling piece where it stands, then clears and scores any
    /// completed rows. The piece descriptor itself stays installed; callers
    /// replace it afterwards. Without an active piece nothing changes.
    pub fn merge_piece(&mut self)
        requires
            state_ok(old(self).state),
            old(self).state.score + 800 <= u32::MAX,
        ensures
            state_ok(final(self).state),
            final(self).policy == old(self).policy,
            old(self).state.current_piece matches Some(p) ==> {
                let locked = locked_grid(grid_of(old(self).state.board@), p);
                &&& grid_of(final(self).state.board@) == cleared_grid(locked)
                &&& final(self).state.score == old(self).state.score + line_score(
                    rows_cleared(locked),
                )
                &&& final(self).state.current_piece == old(self).state.current_piece
                &&& final(self).state.game_over == old(self).state.game_over
            },
            old(self).state.current_piece is None ==> *final(self) == *old(self),
    {
        if self.state.current_piece.is_some() {
            let ghost g = grid_of(old(self).state.board@);
            let p = self.state.current_piece.unwrap();
            place_piece(&mut self.state, &p);
            proof {
                lemma_locked_grid_ok(g, p);
            }
            clear_lines(&mut self.state);
            proof {
                lemma_cleared_grid_ok(locked_grid(g, p));
            }
        }
    }

    /// Unconditionally ends the game and clears the active piece: an
    /// explicit forfeit, whatever the prior state.
    pub fn game_over(&mut self) -> (r: GameResponse)
        requires
            state_ok(old(self).state),
        ensures
            state_ok(final(self).state),
            final(self).policy == old(self).policy,
            force_over_spec(old(self).state, final(self).state, r),
    {
        self.state.game_over = true;
        self.state.current_piece = None;
        respond(true, "Game over", &self.state)
    }

    /// Applies one requested action to the owned state and reports the
    /// outcome.
    pub fn execute_operation(&mut self, operation: Operation) -> (r: GameResponse)
        requires
            state_ok(old(self).state),
            old(self).state.score + 800 <= u32::MAX,
        ensures
            state_ok(final(self).state),
            final(self).policy == old(self).policy,
            match operation.action {
                GameAction::StartGame => start_game_spec(
                    old(self).state,
                    old(self).policy,
                    final(self).state,
                    r,
                ),
                GameAction::MoveLeft => move_spec(
                    old(self).state,
                    final(self).state,
                    r,
                    shifted(old(self).state.current_piece->0, -1),
                    "Moved left"@,
                    "Cannot move left"@,
                ),
                GameAction::MoveRight => move_spec(
                    old(self).state,
                    final(self).state,
                    r,
                    shifted(old(self).state.current_piece->0, 1),
                    "Moved right"@,
                    "Cannot move right"@,
                ),
                GameAction::Rotate => move_spec(
                    old(self).state,
                    final(self).state,
                    r,
                    rotated_piece(old(self).state.current_piece->0),
                    "Rotated"@,
                    "Cannot rotate"@,
                ),
                GameAction::Drop => drop_spec(old(self).state, old(self).policy, final(self).state, r),
                GameAction::GameOver => force_over_spec(old(self).state, final(self).state, r),
            },
    {
        match operation.action {
            GameAction::StartGame => self.start_game(),
            GameAction::MoveLeft => self.move_left(),
            GameAction::MoveRight => self.move_right(),
            GameAction::Rotate => self.rotate(),
            GameAction::Drop => self.drop(),
            GameAction::GameOver => self.game_over(),
        }
    }

    /// The matrix rotated clockwise by `rotations` quarter turns, applied
    /// one turn at a time; by the rotation cycle this equals the closed-form
    /// rotation by `rotations % 4`.
    pub fn rotate_matrix(&self, matrix: &Vec<Vec<bool>>, rotations: u8) -> (r: Vec<Vec<bool>>)
        requires
            is_rect(shape_view(matrix@)),
        ensures
            shape_view(r@) == rot(shape_view(matrix@), rotations as nat),
            shape_view(r@) == rot(shape_view(matrix@), (rotations % 4) as nat),
    {
        let ghost sv = shape_view(matrix@);
        let mut result = crate::rotate::rotate_shape(matrix, 0);
        let mut i: u8 = 0;
        while i < rotations
            invariant
                is_rect(sv),
                sv == shape_view(matrix@),
                i <= rotations,
                shape_view(result@) == rot(sv, i as nat),
                is_rect(shape_view(result@)),
            decreases rotations - i,
        {
            result = quarter_turn_of(&result);
            i += 1;
            proof {
                assert(rot(sv, i as nat) == crate::rotate::quarter_turn(rot(sv, (i - 1) as nat)));
            }
        }
        proof {
            lemma_rotation_cycle(sv, rotations as nat);
        }
        result
    }
}

} // verus!
