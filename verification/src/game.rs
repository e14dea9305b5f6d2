use vstd::prelude::*;

verus! {

use rand::RngExt;

use crate::events::TickEvents;
use crate::input::InputSnapshot;
use crate::menu::{Difficulty, GameMode};
use crate::squares::{SquareEffect, effect_wf};
use crate::tetromino::{Tetromino, TetrominoType, is_spawned_piece, kind_from_index, kind_index,
    pivot_of, shape_offset, spec_kind_index};

pub const GRID_WIDTH: usize = 10;
pub const GRID_HEIGHT: usize = 20;

/// Points a full row is worth when it contains a gold bonus cell.
pub const GOLD_POINTS: u32 = 500;
/// Points a full row is worth when it contains a silver (and no gold)
/// bonus cell.
pub const SILVER_POINTS: u32 = 200;

/// All durations are integers in units of 1/300 second, chosen so that
/// every timing constant of the game is whole: 0.2 s = 60, 0.1 s = 30,
/// 0.27 s = 81, 0.3 s = 90, and the fall intervals 1/3 s = 100 and
/// 1/15 s = 20.
pub const UNITS_PER_SECOND: u32 = 300;
/// Delay before a held direction key starts repeating (0.2 s).
pub const INITIAL_HORIZONTAL_DELAY: u32 = 60;
/// Delay between repeated moves while a direction key stays held (0.1 s).
pub const HORIZONTAL_REPEAT_DELAY: u32 = 30;
/// Visual delay between detecting full rows and collapsing them (0.27 s).
pub const LINE_CLEAR_DELAY: u32 = 81;
/// Length of one blink phase of a bonus-square effect (0.3 s).
pub const BLINK_PHASE_TIME: u32 = 90;
/// Time between gravity steps at normal speed (1/3 s: 3 cells a second).
pub const NORMAL_FALL_INTERVAL: u32 = 100;
/// Time between gravity steps while soft-dropping (1/15 s).
pub const SOFT_DROP_FALL_INTERVAL: u32 = 20;
/// On-off cycles a fresh bonus-square effect blinks for.
pub const BLINK_CYCLES: u32 = 6;
/// Board fullness (rows from the topmost occupied row to the floor) at
/// which panic mode begins.
pub const PANIC_THRESHOLD: u32 = 12;

/// One occupied board cell: the kind that colours it and the id of the
/// locked piece that produced it.  Id 0 is reserved for bonus filler
/// cells, which have no originating piece.
#[derive(Clone, Copy, Debug, PartialEq, Eq, Structural)]
pub struct Cell {
    pub kind: TetrominoType,
    pub piece_id: u32,
}

pub open spec fn in_bounds(x: int, y: int) -> bool {
    0 <= x < GRID_WIDTH as int && 0 <= y < GRID_HEIGHT as int
}

/// Board cell covered by offset `i` of a shape anchored at `pos`.
pub open spec fn shape_cell(shape: [[i32; 2]; 4], pos: (i32, i32), i: int) -> (int, int) {
    (pos.0 + shape[i][0], pos.1 + shape[i][1])
}

/// Every offset of the shape stays within three cells of the kind's
/// rotation pivot.  Canonical shapes satisfy this and a quarter turn
/// preserves it, so it is an invariant of every reachable piece.
pub open spec fn shape_near_pivot(shape: [[i32; 2]; 4], t: TetrominoType) -> bool {
    forall|i: int| 0 <= i < 4 ==> {
        let piv = pivot_of(t);
        &&& -3 <= (#[trigger] shape[i])[0] - piv.0 <= 3
        &&& -3 <= shape[i][1] - piv.1 <= 3
    }
}

pub open spec fn rows_below_grid(cl: Seq<usize>) -> bool {
    forall|j: int| 0 <= j < cl.len() ==> (#[trigger] cl[j]) < GRID_HEIGHT
}

pub open spec fn rows_strictly_increasing(cl: Seq<usize>) -> bool {
    forall|j1: int, j2: int| 0 <= j1 < j2 < cl.len() ==> #[trigger] cl[j1] < #[trigger] cl[j2]
}

/// A reachable active piece: movable kind, shape near its pivot, and
/// all four cells on the board.
pub open spec fn piece_ok(t: Tetromino) -> bool {
    &&& t.t_type.is_movable()
    &&& shape_near_pivot(t.shape, t.t_type)
    &&& forall|i: int| 0 <= i < 4 ==> in_bounds(
        #[trigger] shape_cell(t.shape, t.pos, i).0,
        shape_cell(t.shape, t.pos, i).1,
    )
}

/// The simulation state: the board, the piece slots, run-state flags,
/// scores, timers and the bonus-square effects.  It has a single owner
/// and is advanced once per frame by `update`.
pub struct GameState {
    /// `board[y][x]`, row 0 at the top; `None` is an empty cell.
    pub board: Vec<Vec<Option<Cell>>>,
    /// The falling piece.  It stays in place during a pending line
    /// clear and is replaced at the next spawn.
    pub tetromino: Option<Tetromino>,
    /// The piece that spawns next, already at the spawn position.
    pub next_tetromino: Option<Tetromino>,
    /// The banked piece, kept with canonical shape at the spawn position.
    pub hold_tetromino: Option<Tetromino>,
    /// Whether the hold swap was already used since the last spawn.
    pub hold_used: bool,
    pub started: bool,
    pub paused: bool,
    pub in_panic: bool,
    pub game_over: bool,
    pub lines_cleared: u32,
    pub score: u32,
    /// Auto-repeat countdowns for the left and right keys.
    pub left_timer: u32,
    pub right_timer: u32,
    /// Gravity accumulator.
    pub fall_timer: u32,
    /// Countdown of a pending line clear; 0 means none is pending.
    pub line_clear_timer: u32,
    /// Rows awaiting collapse, strictly increasing.
    pub clearing_lines: Vec<usize>,
    /// Bonus-square reveals currently blinking.
    pub active_squares: Vec<SquareEffect>,
    /// Id the next locked piece will get; ids start at 1.
    pub next_piece_id: u32,
    /// Spawn counts of the seven movable kinds, indexed by kind.
    pub piece_statistics: Vec<u32>,
    /// Bonus points of the pending line clear, awarded at collapse.
    pub merge_bonus_pending: u32,
    /// Metadata from the menu; inert in the simulation.
    pub player_name: String,
    pub difficulty: Difficulty,
    pub game_mode: GameMode,
}

/// The board as specifications see it: a sequence of rows.
pub type GridView = Seq<Vec<Option<Cell>>>;

pub open spec fn grid_cell(b: GridView, x: int, y: int) -> Option<Cell> {
    b[y]@[x]
}

pub open spec fn grid_occupied(b: GridView, x: int, y: int) -> bool {
    grid_cell(b, x, y) is Some
}

/// Collision of offset `i` of a shape at `pos`: off the board or on an
/// occupied cell.
pub open spec fn grid_hit_at(b: GridView, shape: [[i32; 2]; 4], pos: (i32, i32), i: int) -> bool {
    let (x, y) = shape_cell(shape, pos, i);
    !in_bounds(x, y) || grid_occupied(b, x, y)
}

pub open spec fn grid_hits(b: GridView, shape: [[i32; 2]; 4], pos: (i32, i32)) -> bool {
    exists|i: int| 0 <= i < 4 && grid_hit_at(b, shape, pos, i)
}

impl GameState {
    #[verifier::inline]
    pub open spec fn cell_at(self, x: int, y: int) -> Option<Cell> {
        grid_cell(self.board@, x, y)
    }

    #[verifier::inline]
    pub open spec fn occupied(self, x: int, y: int) -> bool {
        grid_occupied(self.board@, x, y)
    }

    /// Collision of offset `i` of a shape at `pos`: off the board or on
    /// an occupied cell.
    #[verifier::inline]
    pub open spec fn hit_at(self, shape: [[i32; 2]; 4], pos: (i32, i32), i: int) -> bool {
        grid_hit_at(self.board@, shape, pos, i)
    }

    /// A shape at `pos` collides iff at least one of its four cells is
    /// out of bounds or already occupied.
    #[verifier::inline]
    pub open spec fn hits(self, shape: [[i32; 2]; 4], pos: (i32, i32)) -> bool {
        grid_hits(self.board@, shape, pos)
    }

    pub open spec fn board_wf(self) -> bool {
        &&& self.board@.len() == GRID_HEIGHT as int
        &&& forall|y: int| 0 <= y < GRID_HEIGHT as int ==> (#[trigger] self.board@[y])@.len() == GRID_WIDTH as int
    }

    /// A piece as it sits in the next or hold slot: fresh at the spawn
    /// position.
    pub open spec fn fresh_piece_wf(t: Tetromino) -> bool {
        &&& t.t_type.is_movable()
        &&& crate::tetromino::is_spawned_piece(t, t.t_type)
    }

    pub open spec fn clearing_wf(self) -> bool {
        &&& rows_below_grid(self.clearing_lines@)
        &&& rows_strictly_increasing(self.clearing_lines@)
    }

    /// Well-formedness of the whole state; constructors establish it
    /// and every operation preserves it.
    pub open spec fn wf(self) -> bool {
        &&& self.board_wf()
        &&& (self.tetromino matches Some(t) ==> piece_ok(t))
        &&& (self.next_tetromino matches Some(t) ==> Self::fresh_piece_wf(t))
        &&& (self.hold_tetromino matches Some(t) ==> Self::fresh_piece_wf(t))
        &&& self.clearing_wf()
        &&& forall|j: int| 0 <= j < self.active_squares@.len() ==> effect_wf(#[trigger] self.active_squares@[j])
        &&& self.piece_statistics@.len() == 7
    }

    pub open spec fn board_all_empty(self) -> bool {
        forall|x: int, y: int| in_bounds(x, y) ==> !self.occupied(x, y)
    }
}

/// A row of ten empty cells.
pub fn empty_row() -> (r: Vec<Option<Cell>>)
    ensures
        r@.len() == GRID_WIDTH as int,
        forall|x: int| 0 <= x < GRID_WIDTH as int ==> (#[trigger] r@[x]) is None,
{
    let mut r: Vec<Option<Cell>> = Vec::new();
    let mut x: usize = 0;
    while x < GRID_WIDTH
        invariant
            x <= GRID_WIDTH,
            r@.len() == x as int,
            forall|i: int| 0 <= i < x as int ==> (#[trigger] r@[i]) is None,
        decreases GRID_WIDTH - x,
    {
        r.push(None);
        x = x + 1;
    }
    r
}

/// An empty 10 x 20 board.
pub fn empty_board() -> (b: Vec<Vec<Option<Cell>>>)
    ensures
        b@.len() == GRID_HEIGHT as int,
        forall|y: int| 0 <= y < GRID_HEIGHT as int ==> (#[trigger] b@[y])@.len() == GRID_WIDTH as int,
        forall|x: int, y: int| in_bounds(x, y) ==> (#[trigger] b@[y]@[x]) is None,
{
    let mut b: Vec<Vec<Option<Cell>>> = Vec::new();
    let mut y: usize = 0;
    while y < GRID_HEIGHT
        invariant
            y <= GRID_HEIGHT,
            b@.len() == y as int,
            forall|j: int| 0 <= j < y as int ==> (#[trigger] b@[j])@.len() == GRID_WIDTH as int,
            forall|x: int, j: int| 0 <= j < y as int && 0 <= x < GRID_WIDTH as int ==> (#[trigger] b@[j]@[x]) is None,
        decreases GRID_HEIGHT - y,
    {
        b.push(empty_row());
        y = y + 1;
    }
    b
}

/// Seven zeroed per-kind spawn counters.
pub fn zero_statistics() -> (s: Vec<u32>)
    ensures
        s@.len() == 7,
        forall|k: int| 0 <= k < 7 ==> (#[trigger] s@[k]) == 0,
{
    let mut s: Vec<u32> = Vec::new();
    let mut k: usize = 0;
    while k < 7
        invariant
            k <= 7,
            s@.len() == k as int,
            forall|i: int| 0 <= i < k as int ==> (#[trigger] s@[i]) == 0,
        decreases 7 - k,
    {
        s.push(0);
        k = k + 1;
    }
    s
}

impl GameState {
    /// A fresh, not yet started state: empty board, no pieces, zeroed
    /// counters and timers, default metadata.
    pub fn new() -> (r: GameState)
        ensures
            r.wf(),
            r.board_all_empty(),
            r.tetromino is None,
            r.next_tetromino is None,
            r.hold_tetromino is None,
            !r.hold_used,
            !r.started,
            !r.paused,
            !r.in_panic,
            !r.game_over,
            r.lines_cleared == 0,
            r.score == 0,
            r.left_timer == 0,
            r.right_timer == 0,
            r.fall_timer == 0,
            r.line_clear_timer == 0,
            r.clearing_lines@.len() == 0,
            r.active_squares@.len() == 0,
            r.next_piece_id == 1,
            forall|k: int| 0 <= k < 7 ==> (#[trigger] r.piece_statistics@[k]) == 0,
            r.merge_bonus_pending == 0,
            r.player_name@.len() == 0,
            r.difficulty is Normal,
            r.game_mode is Classic,
    {
        GameState {
            board: empty_board(),
            tetromino: None,
            next_tetromino: None,
            hold_tetromino: None,
            hold_used: false,
            started: false,
            paused: false,
            in_panic: false,
            game_over: false,
            lines_cleared: 0,
            score: 0,
            left_timer: 0,
            right_timer: 0,
            fall_timer: 0,
            line_clear_timer: 0,
            clearing_lines: Vec::new(),
            active_squares: Vec::new(),
            next_piece_id: 1,
            piece_statistics: zero_statistics(),
            merge_bonus_pending: 0,
            player_name: String::new(),
            difficulty: Difficulty::Normal,
            game_mode: GameMode::Classic,
        }
    }

    /// Pure collision query: true iff some cell of the shape at `pos`
    /// falls outside the board or lands on an occupied cell.
    pub fn check_collision(&self, shape: &[[i32; 2]; 4], pos: (i32, i32)) -> (r: bool)
        requires
            self.board_wf(),
        ensures
            r == self.hits(*shape, pos),
    {
        let mut i: usize = 0;
        while i < 4
            invariant
                i <= 4,
                self.board_wf(),
                forall|j: int| 0 <= j < i as int ==> !self.hit_at(*shape, pos, j),
            decreases 4 - i,
        {
            let x: i64 = pos.0 as i64 + shape[i][0] as i64;
            let y: i64 = pos.1 as i64 + shape[i][1] as i64;
            if x < 0 || x >= GRID_WIDTH as i64 || y < 0 || y >= GRID_HEIGHT as i64 {
                assert(self.hit_at(*shape, pos, i as int));
                return true;
            }
            if self.board[y as usize][x as usize].is_some() {
                assert(self.hit_at(*shape, pos, i as int));
                return true;
            }
            assert(!self.hit_at(*shape, pos, i as int));
            i = i + 1;
        }
        false
    }

    /// Translate the active piece by `delta` without any checking; the
    /// caller has already ruled out a collision.  No-op without an
    /// active piece.
    pub fn move_tetromino(&mut self, delta: (i32, i32))
        requires
            old(self).wf(),
            old(self).tetromino matches Some(t) ==> forall|i: int| 0 <= i < 4 ==> in_bounds(
                #[trigger] shape_cell(t.shape, t.pos, i).0 + delta.0,
                shape_cell(t.shape, t.pos, i).1 + delta.1,
            ),
        ensures
            final(self).wf(),
            old(self).tetromino is None ==> *final(self) == *old(self),
            old(self).tetromino matches Some(t) ==> *final(self) == (GameState {
                tetromino: Some(Tetromino { pos: ((t.pos.0 + delta.0) as i32, (t.pos.1 + delta.1) as i32), ..t }),
                ..*old(self)
            }),
    {
        if let Some(t) = self.tetromino {
            proof {
                assert(in_bounds(
                    shape_cell(t.shape, t.pos, 0).0 + delta.0,
                    shape_cell(t.shape, t.pos, 0).1 + delta.1,
                ));
            }
            let new_pos = (t.pos.0 + delta.0, t.pos.1 + delta.1);
            self.tetromino = Some(Tetromino { shape: t.shape, pos: new_pos, t_type: t.t_type });
            proof {
                assert forall|i: int| 0 <= i < 4 implies in_bounds(
                    #[trigger] shape_cell(t.shape, new_pos, i).0,
                    shape_cell(t.shape, new_pos, i).1,
                ) by {
                    assert(in_bounds(
                        shape_cell(t.shape, t.pos, i).0 + delta.0,
                        shape_cell(t.shape, t.pos, i).1 + delta.1,
                    ));
                }
            }
        }
    }

    /// Replace the active piece's shape (after a successful rotation
    /// check).  No-op without an active piece.
    pub fn set_tetromino_shape(&mut self, shape: [[i32; 2]; 4])
        requires
            old(self).wf(),
            old(self).tetromino matches Some(t) ==> shape_near_pivot(shape, t.t_type) && forall|i: int|
                0 <= i < 4 ==> in_bounds(
                    #[trigger] shape_cell(shape, t.pos, i).0,
                    shape_cell(shape, t.pos, i).1,
                ),
        ensures
            final(self).wf(),
            old(self).tetromino is None ==> *final(self) == *old(self),
            old(self).tetromino matches Some(t) ==> *final(self) == (GameState {
                tetromino: Some(Tetromino { shape, ..t }),
                ..*old(self)
            }),
    {
        if let Some(t) = self.tetromino {
            self.tetromino = Some(Tetromino { shape, pos: t.pos, t_type: t.t_type });
        }
    }
}

/// (x, y) is among the first `n` cells of the piece (helper for the
/// merge loop).
pub open spec fn piece_covers_first(t: Tetromino, x: int, y: int, n: int) -> bool {
    exists|i: int| 0 <= i < n && shape_cell(t.shape, t.pos, i) == (x, y)
}

/// (x, y) is one of the four cells the piece occupies.
pub open spec fn piece_covers(t: Tetromino, x: int, y: int) -> bool {
    piece_covers_first(t, x, y, 4)
}

/// A counter bumped by one, stopping at the type's ceiling.
pub open spec fn sat_inc(x: u32) -> u32 {
    if x == u32::MAX { x } else { (x + 1) as u32 }
}

/// A freshly spawned piece is a reachable one.
pub proof fn lemma_spawned_piece_ok(t: Tetromino)
    requires
        t.t_type.is_movable(),
        crate::tetromino::is_spawned_piece(t, t.t_type),
    ensures
        piece_ok(t),
{
    assert forall|i: int| 0 <= i < 4 implies in_bounds(
        #[trigger] shape_cell(t.shape, t.pos, i).0,
        shape_cell(t.shape, t.pos, i).1,
    ) && {
        let piv = pivot_of(t.t_type);
        -3 <= t.shape[i][0] - piv.0 <= 3 && -3 <= t.shape[i][1] - piv.1 <= 3
    } by {
        assert(t.shape[i][0] == shape_offset(t.t_type, i).0);
        assert(t.shape[i][1] == shape_offset(t.t_type, i).1);
    }
}

pub open spec fn grid_row_full(b: GridView, y: int) -> bool {
    forall|x: int| 0 <= x < GRID_WIDTH as int ==> grid_occupied(b, x, y)
}

pub open spec fn grid_row_has_kind(b: GridView, y: int, k: TetrominoType) -> bool {
    exists|x: int| 0 <= x < GRID_WIDTH as int
        && ((#[trigger] grid_cell(b, x, y)) matches Some(c) && c.kind == k)
}

pub open spec fn grid_row_bonus(b: GridView, y: int) -> u32 {
    if grid_row_has_kind(b, y, TetrominoType::BonusGold) {
        GOLD_POINTS
    } else if grid_row_has_kind(b, y, TetrominoType::BonusSilver) {
        SILVER_POINTS
    } else {
        0
    }
}

pub open spec fn grid_bonus_below(b: GridView, y: int) -> int
    decreases y,
{
    if y <= 0 {
        0
    } else {
        grid_bonus_below(b, y - 1)
            + if grid_row_full(b, y - 1) { grid_row_bonus(b, y - 1) as int } else { 0 }
    }
}

pub proof fn lemma_grid_bonus_below_bound(b: GridView, y: int)
    requires
        0 <= y,
    ensures
        0 <= grid_bonus_below(b, y) <= 500 * y,
    decreases y,
{
    if y > 0 {
        lemma_grid_bonus_below_bound(b, y - 1);
    }
}

impl GameState {
    /// Every cell of the fixed board row `y` is occupied.
    #[verifier::inline]
    pub open spec fn row_full(self, y: int) -> bool {
        grid_row_full(self.board@, y)
    }

    /// Some cell of row `y` holds the given kind.
    #[verifier::inline]
    pub open spec fn row_has_kind(self, y: int, k: TetrominoType) -> bool {
        grid_row_has_kind(self.board@, y, k)
    }

    /// Bonus contribution of a full row: gold beats silver beats none.
    #[verifier::inline]
    pub open spec fn spec_row_bonus(self, y: int) -> u32 {
        grid_row_bonus(self.board@, y)
    }

    /// Total pending bonus of the full rows among rows 0..y.
    #[verifier::inline]
    pub open spec fn full_rows_bonus_below(self, y: int) -> int {
        grid_bonus_below(self.board@, y)
    }

    pub proof fn lemma_bonus_below_bound(self, y: int)
        requires
            0 <= y,
        ensures
            0 <= self.full_rows_bonus_below(y) <= 500 * y,
    {
        lemma_grid_bonus_below_bound(self.board@, y);
    }

    /// Write the active piece's four cells into the board under a fresh
    /// piece id.  Exactly those cells change, all to the same new id;
    /// the id counter advances.  No-op without an active piece.
    pub fn merge_active_piece(&mut self)
        requires
            old(self).wf(),
        ensures
            final(self).wf(),
            old(self).tetromino is None ==> *final(self) == *old(self),
            old(self).tetromino matches Some(t) ==> {
                &&& forall|x: int, y: int| in_bounds(x, y) ==> final(self).cell_at(x, y)
                    == (if piece_covers(t, x, y) {
                        Some(Cell { kind: t.t_type, piece_id: old(self).next_piece_id })
                    } else {
                        old(self).cell_at(x, y)
                    })
                &&& final(self).next_piece_id == sat_inc(old(self).next_piece_id)
                &&& *final(self) == (GameState {
                    board: final(self).board,
                    next_piece_id: final(self).next_piece_id,
                    ..*old(self)
                })
            },
    {
        if let Some(t) = self.tetromino {
            let id = self.next_piece_id;
            self.next_piece_id = self.next_piece_id.saturating_add(1);
            let mut i: usize = 0;
            while i < 4
                invariant
                    i <= 4,
                    self.board_wf(),
                    piece_ok(t),
                    self.next_piece_id == sat_inc(id),
                    forall|x: int, y: int| in_bounds(x, y) ==> self.cell_at(x, y)
                        == (if piece_covers_first(t, x, y, i as int) {
                            Some(Cell { kind: t.t_type, piece_id: id })
                        } else {
                            old(self).cell_at(x, y)
                        }),
                    *self == (GameState { board: self.board, next_piece_id: self.next_piece_id, ..*old(self) }),
                decreases 4 - i,
            {
                proof {
                    assert(in_bounds(shape_cell(t.shape, t.pos, i as int).0, shape_cell(t.shape, t.pos, i as int).1));
                }
                let x = t.pos.0 + t.shape[i][0];
                let y = t.pos.1 + t.shape[i][1];
                self.board[y as usize][x as usize] = Some(Cell { kind: t.t_type, piece_id: id });
                proof {
                    assert forall|xx: int, yy: int| in_bounds(xx, yy) implies self.cell_at(xx, yy)
                        == (if piece_covers_first(t, xx, yy, i as int + 1) {
                            Some(Cell { kind: t.t_type, piece_id: id })
                        } else {
                            old(self).cell_at(xx, yy)
                        }) by {
                        if piece_covers_first(t, xx, yy, i as int + 1) {
                            if shape_cell(t.shape, t.pos, i as int) == (xx, yy) {
                            } else {
                                assert(piece_covers_first(t, xx, yy, i as int));
                            }
                        } else {
                            assert(!piece_covers_first(t, xx, yy, i as int));
                            assert(shape_cell(t.shape, t.pos, i as int) != (xx, yy));
                        }
                    }
                }
                i = i + 1;
            }
        }
    }

    /// Whether every cell of row `y` is occupied.
    pub fn is_row_full(&self, y: usize) -> (r: bool)
        requires
            self.board_wf(),
            y < GRID_HEIGHT,
        ensures
            r == self.row_full(y as int),
    {
        let mut x: usize = 0;
        while x < GRID_WIDTH
            invariant
                x <= GRID_WIDTH,
                self.board_wf(),
                y < GRID_HEIGHT,
                forall|j: int| 0 <= j < x as int ==> self.occupied(j, y as int),
            decreases GRID_WIDTH - x,
        {
            if self.board[y][x].is_none() {
                assert(!self.occupied(x as int, y as int));
                return false;
            }
            x = x + 1;
        }
        true
    }

    /// Bonus points row `y` would contribute if cleared.
    pub fn row_bonus(&self, y: usize) -> (r: u32)
        requires
            self.board_wf(),
            y < GRID_HEIGHT,
        ensures
            r == self.spec_row_bonus(y as int),
    {
        let mut has_gold = false;
        let mut has_silver = false;
        let mut x: usize = 0;
        while x < GRID_WIDTH
            invariant
                x <= GRID_WIDTH,
                self.board_wf(),
                y < GRID_HEIGHT,
                has_gold ==> self.row_has_kind(y as int, TetrominoType::BonusGold),
                !has_gold ==> forall|j: int| 0 <= j < x as int
                    ==> ((#[trigger] self.cell_at(j, y as int)) matches Some(c) ==> c.kind != TetrominoType::BonusGold),
                has_silver ==> self.row_has_kind(y as int, TetrominoType::BonusSilver),
                !has_silver ==> forall|j: int| 0 <= j < x as int
                    ==> ((#[trigger] self.cell_at(j, y as int)) matches Some(c) ==> c.kind != TetrominoType::BonusSilver),
            decreases GRID_WIDTH - x,
        {
            let copt = self.board[y][x];
            proof {
                assert(self.cell_at(x as int, y as int) == copt);
            }
            if let Some(c) = copt {
                if c.kind == TetrominoType::BonusGold {
                    has_gold = true;
                }
                if c.kind == TetrominoType::BonusSilver {
                    has_silver = true;
                }
            }
            x = x + 1;
        }
        if has_gold {
            GOLD_POINTS
        } else if has_silver {
            SILVER_POINTS
        } else {
            0
        }
    }

    /// Collect the indices of all full rows, bottom-up in increasing
    /// order, together with the bonus points those rows will award.
    pub fn scan_full_rows(&self) -> (r: (Vec<usize>, u32))
        requires
            self.board_wf(),
        ensures
            forall|j: int| 0 <= j < r.0@.len() ==> (#[trigger] r.0@[j]) < GRID_HEIGHT
                && self.row_full(r.0@[j] as int),
            forall|j1: int, j2: int| 0 <= j1 < j2 < r.0@.len() ==> r.0@[j1] < r.0@[j2],
            forall|y: int| 0 <= y < GRID_HEIGHT as int && self.row_full(y) ==> r.0@.contains(y as usize),
            r.1 == self.full_rows_bonus_below(GRID_HEIGHT as int),
    {
        let mut rows: Vec<usize> = Vec::new();
        let mut bonus: u32 = 0;
        let mut y: usize = 0;
        while y < GRID_HEIGHT
            invariant
                y <= GRID_HEIGHT,
                self.board_wf(),
                forall|j: int| 0 <= j < rows@.len() ==> (#[trigger] rows@[j]) < y
                    && self.row_full(rows@[j] as int),
                forall|j1: int, j2: int| 0 <= j1 < j2 < rows@.len() ==> rows@[j1] < rows@[j2],
                forall|yy: int| 0 <= yy < y as int && self.row_full(yy) ==> rows@.contains(yy as usize),
                bonus == self.full_rows_bonus_below(y as int),
            decreases GRID_HEIGHT - y,
        {
            proof {
                self.lemma_bonus_below_bound(y as int);
            }
            if self.is_row_full(y) {
                let b = self.row_bonus(y);
                bonus = bonus + b;
                let ghost rows0 = rows@;
                rows.push(y);
                proof {
                    assert forall|yy: int| 0 <= yy < y as int + 1 && self.row_full(yy)
                        implies rows@.contains(yy as usize) by {
                        if yy < y as int {
                            let j = choose|j: int| 0 <= j < rows0.len() && rows0[j] == yy as usize;
                            assert(rows@[j] == yy as usize);
                        } else {
                            assert(rows@[rows@.len() - 1] == yy as usize);
                        }
                    }
                }
            }
            y = y + 1;
        }
        (rows, bonus)
    }

    /// Number of rows from the topmost occupied row down to the floor;
    /// 0 on an empty board.
    pub fn check_for_fullness(&mut self) -> (r: u32)
        requires
            old(self).wf(),
        ensures
            *final(self) == *old(self),
            0 <= r <= GRID_HEIGHT,
            forall|x: int, y: int| in_bounds(x, y) && y < GRID_HEIGHT as int - r ==> !final(self).occupied(x, y),
            r > 0 ==> exists|x: int| 0 <= x < GRID_WIDTH as int
                && #[trigger] final(self).occupied(x, GRID_HEIGHT as int - r),
    {
        let mut y_min: u32 = 20;
        let mut y: usize = 0;
        while y < GRID_HEIGHT
            invariant
                y <= GRID_HEIGHT,
                self.wf(),
                *self == *old(self),
                y_min <= 20,
                forall|xx: int, yy: int| in_bounds(xx, yy) && yy < y as int && yy < y_min as int
                    ==> !self.occupied(xx, yy),
                y_min < 20 ==> y_min < y && exists|xx: int| 0 <= xx < GRID_WIDTH as int
                    && self.occupied(xx, y_min as int),
            decreases GRID_HEIGHT - y,
        {
            let mut x: usize = 0;
            while x < GRID_WIDTH
                invariant
                    x <= GRID_WIDTH,
                    y < GRID_HEIGHT,
                    self.wf(),
                    *self == *old(self),
                    y_min <= 20,
                    forall|xx: int, yy: int| in_bounds(xx, yy) && yy < y as int && yy < y_min as int
                        ==> !self.occupied(xx, yy),
                    y_min < 20 ==> exists|xx: int| 0 <= xx < GRID_WIDTH as int
                        && self.occupied(xx, y_min as int),
                    y_min < 20 ==> y_min <= y,
                    forall|xx: int| 0 <= xx < x as int && (y as int) < y_min as int ==> !self.occupied(xx, y as int),
                decreases GRID_WIDTH - x,
            {
                if self.board[y][x].is_some() {
                    proof {
                        assert(self.occupied(x as int, y as int));
                    }
                    if (y as u32) < y_min {
                        y_min = y as u32;
                    }
                }
                x = x + 1;
            }
            y = y + 1;
        }
        20 - y_min
    }
}

/// Relies on rand::rng and RngExt::random_range over 0..7: the draw is
/// the index of some movable kind.  Nothing more is assumed of the
/// value, so two calls may differ.
#[verifier::external_body]
fn random_kind_index() -> (r: usize)
    ensures
        r < 7,
{
    rand::rng().random_range(0..7)
}

/// How a successful or failed spawn relates the state before and after:
/// nothing happens outside a running game; a queued piece that already
/// collides ends the game; otherwise the queued piece becomes active,
/// its kind's spawn counter is bumped, a fresh piece of kind `k` is
/// queued, the hold swap is re-armed and gravity restarts.
pub open spec fn spawn_transition(pre: GameState, post: GameState, k: TetrominoType) -> bool {
    if !pre.started {
        post == pre
    } else {
        match pre.next_tetromino {
            None => post == pre,
            Some(n) => {
                if pre.hits(n.shape, n.pos) {
                    post == (GameState { game_over: true, started: false, ..pre })
                } else {
                    &&& post.tetromino == Some(n)
                    &&& (post.next_tetromino matches Some(m) && m.t_type == k
                        && is_spawned_piece(m, k))
                    &&& post.piece_statistics@ == pre.piece_statistics@.update(
                        spec_kind_index(n.t_type),
                        sat_inc(pre.piece_statistics@[spec_kind_index(n.t_type)]),
                    )
                    &&& post == (GameState {
                        tetromino: post.tetromino,
                        next_tetromino: post.next_tetromino,
                        piece_statistics: post.piece_statistics,
                        hold_used: false,
                        fall_timer: 0,
                        ..pre
                    })
                }
            },
        }
    }
}

/// Everything `start_game` pins down: a cleared running state whose
/// first piece has kind `curr`, whose queued piece has kind `nk`, and
/// whose spawn counters record exactly that first spawn.  Timers of the
/// input repeat and gravity, and the menu metadata, are left alone.
pub open spec fn start_transition(pre: GameState, post: GameState, curr: TetrominoType, nk: TetrominoType) -> bool {
    &&& post.board_all_empty()
    &&& (post.tetromino matches Some(t) && is_spawned_piece(t, curr) && t.t_type == curr)
    &&& (post.next_tetromino matches Some(m) && is_spawned_piece(m, nk) && m.t_type == nk)
    &&& forall|j: int| 0 <= j < 7 ==> (#[trigger] post.piece_statistics@[j])
        == if j == spec_kind_index(curr) { 1u32 } else { 0u32 }
    &&& post.piece_statistics@.len() == 7
    &&& post == (GameState {
        board: post.board,
        tetromino: post.tetromino,
        next_tetromino: post.next_tetromino,
        hold_tetromino: None,
        hold_used: false,
        started: true,
        paused: false,
        in_panic: false,
        game_over: false,
        lines_cleared: 0,
        score: 0,
        line_clear_timer: 0,
        clearing_lines: post.clearing_lines,
        active_squares: post.active_squares,
        next_piece_id: 1,
        piece_statistics: post.piece_statistics,
        merge_bonus_pending: 0,
        ..pre
    })
    &&& post.clearing_lines@.len() == 0
    &&& post.active_squares@.len() == 0
}

impl GameState {
    /// Install the queued piece as the active one and queue a fresh
    /// piece of kind `k`; if the queued piece already collides at its
    /// spawn position the game ends instead.
    pub fn spawn_with_next_kind(&mut self, k: TetrominoType)
        requires
            old(self).wf(),
            k.is_movable(),
        ensures
            final(self).wf(),
            spawn_transition(*old(self), *final(self), k),
    {
        if !self.started {
            return;
        }
        if let Some(next_t) = self.next_tetromino {
            if self.check_collision(&next_t.shape, next_t.pos) {
                self.game_over = true;
                self.started = false;
            } else {
                proof {
                    lemma_spawned_piece_ok(next_t);
                }
                self.tetromino = Some(next_t);
                let ki = kind_index(next_t.t_type);
                let c = self.piece_statistics[ki];
                self.piece_statistics[ki] = c.saturating_add(1);
                self.next_tetromino = Some(Tetromino::new(k));
                self.hold_used = false;
                self.fall_timer = 0;
            }
        }
    }

    /// As `spawn_with_next_kind`, with the kind of the freshly queued
    /// piece drawn uniformly from the seven movable kinds.
    pub fn spawn_new_tetromino(&mut self)
        requires
            old(self).wf(),
        ensures
            final(self).wf(),
            exists|k: TetrominoType| k.is_movable()
                && #[trigger] spawn_transition(*old(self), *final(self), k),
    {
        let idx = random_kind_index();
        let k = kind_from_index(idx);
        self.spawn_with_next_kind(k);
    }

    /// Reset every run-state field and begin a game whose first two
    /// pieces have the given kinds.
    pub fn start_game_with(&mut self, curr: TetrominoType, nk: TetrominoType)
        requires
            old(self).wf(),
            curr.is_movable(),
            nk.is_movable(),
        ensures
            final(self).wf(),
            start_transition(*old(self), *final(self), curr, nk),
    {
        self.started = true;
        self.game_over = false;
        self.paused = false;
        self.in_panic = false;
        self.lines_cleared = 0;
        self.score = 0;
        self.board = empty_board();
        self.hold_tetromino = None;
        self.hold_used = false;
        self.line_clear_timer = 0;
        self.clearing_lines = Vec::new();
        self.active_squares = Vec::new();
        self.next_piece_id = 1;
        self.merge_bonus_pending = 0;
        self.piece_statistics = zero_statistics();
        let ki = kind_index(curr);
        self.piece_statistics[ki] = 1;
        let t = Tetromino::new(curr);
        proof {
            lemma_spawned_piece_ok(t);
        }
        self.tetromino = Some(t);
        self.next_tetromino = Some(Tetromino::new(nk));
    }

    /// Begin a game with both the first and the queued piece drawn
    /// uniformly from the seven movable kinds.
    pub fn start_game(&mut self)
        requires
            old(self).wf(),
        ensures
            final(self).wf(),
            exists|curr: TetrominoType, nk: TetrominoType| curr.is_movable() && nk.is_movable()
                && #[trigger] start_transition(*old(self), *final(self), curr, nk),
    {
        let curr = kind_from_index(random_kind_index());
        let nk = kind_from_index(random_kind_index());
        self.start_game_with(curr, nk);
    }
}

/// Saturating addition of two counters, as the executable code
/// performs it.
pub open spec fn sat_add(a: u32, b: u32) -> u32 {
    if a + b > u32::MAX { u32::MAX } else { (a + b) as u32 }
}

/// Entries of `cl` strictly below `i`.
pub open spec fn count_lt(cl: Seq<usize>, i: int) -> int
    decreases cl.len(),
{
    if cl.len() == 0 {
        0
    } else {
        count_lt(cl.drop_last(), i) + if (cl.last() as int) < i { 1int } else { 0 }
    }
}

/// Entries of `cl` equal to `i`.
pub open spec fn count_eq(cl: Seq<usize>, i: int) -> int
    decreases cl.len(),
{
    if cl.len() == 0 {
        0
    } else {
        count_eq(cl.drop_last(), i) + if (cl.last() as int) == i { 1int } else { 0 }
    }
}

/// Entries of `cl` strictly above `i`: when `cl` is the list of cleared
/// rows, this is how far row `i` shifts down in the collapse.
pub open spec fn count_gt(cl: Seq<usize>, i: int) -> int
    decreases cl.len(),
{
    if cl.len() == 0 {
        0
    } else {
        count_gt(cl.drop_last(), i) + if (cl.last() as int) > i { 1int } else { 0 }
    }
}

pub proof fn lemma_counts_partition(cl: Seq<usize>, i: int)
    ensures
        count_lt(cl, i) + count_eq(cl, i) + count_gt(cl, i) == cl.len(),
        count_lt(cl, i) >= 0,
        count_eq(cl, i) >= 0,
        count_gt(cl, i) >= 0,
    decreases cl.len(),
{
    if cl.len() > 0 {
        lemma_counts_partition(cl.drop_last(), i);
    }
}

pub proof fn lemma_count_eq_zero(cl: Seq<usize>, i: int)
    requires
        forall|j: int| 0 <= j < cl.len() ==> (#[trigger] cl[j]) as int != i,
    ensures
        count_eq(cl, i) == 0,
    decreases cl.len(),
{
    if cl.len() > 0 {
        lemma_count_eq_zero(cl.drop_last(), i);
    }
}

pub proof fn lemma_count_eq_pos(cl: Seq<usize>, i: int, w: int)
    requires
        0 <= w < cl.len(),
        (cl[w] as int) == i,
    ensures
        count_eq(cl, i) >= 1,
    decreases cl.len(),
{
    lemma_counts_partition(cl.drop_last(), i);
    if w < cl.len() - 1 {
        lemma_count_eq_pos(cl.drop_last(), i, w);
    }
}

pub proof fn lemma_count_eq_at_most_one(cl: Seq<usize>, i: int)
    requires
        rows_strictly_increasing(cl),
    ensures
        count_eq(cl, i) <= 1,
    decreases cl.len(),
{
    if cl.len() > 0 {
        let rest = cl.drop_last();
        assert(rows_strictly_increasing(rest));
        if (cl.last() as int) == i {
            assert forall|j: int| 0 <= j < rest.len() implies (#[trigger] rest[j]) as int != i by {
                assert(cl[j] < cl[cl.len() - 1]);
            }
            lemma_count_eq_zero(rest, i);
        } else {
            lemma_count_eq_at_most_one(rest, i);
        }
    }
}

pub proof fn lemma_count_lt_succ(cl: Seq<usize>, i: int)
    ensures
        count_lt(cl, i + 1) == count_lt(cl, i) + count_eq(cl, i),
    decreases cl.len(),
{
    if cl.len() > 0 {
        lemma_count_lt_succ(cl.drop_last(), i);
    }
}

pub proof fn lemma_counts_all_below(cl: Seq<usize>, i: int)
    requires
        forall|j: int| 0 <= j < cl.len() ==> ((#[trigger] cl[j]) as int) < i,
    ensures
        count_gt(cl, i) == 0,
        count_eq(cl, i) == 0,
        count_lt(cl, i) == cl.len(),
    decreases cl.len(),
{
    if cl.len() > 0 {
        lemma_counts_all_below(cl.drop_last(), i);
    }
}

pub proof fn lemma_counts_all_at_least(cl: Seq<usize>, i: int)
    requires
        forall|j: int| 0 <= j < cl.len() ==> ((#[trigger] cl[j]) as int) >= i,
    ensures
        count_lt(cl, i) == 0,
    decreases cl.len(),
{
    if cl.len() > 0 {
        lemma_counts_all_at_least(cl.drop_last(), i);
    }
}

pub proof fn lemma_sorted_index_lower_bound(cl: Seq<usize>, j: int)
    requires
        rows_strictly_increasing(cl),
        0 <= j < cl.len(),
    ensures
        (cl[j] as int) >= j,
    decreases j,
{
    if j > 0 {
        lemma_sorted_index_lower_bound(cl, j - 1);
        assert(cl[j - 1] < cl[j]);
    }
}

pub proof fn lemma_sorted_bounded_len(cl: Seq<usize>)
    requires
        rows_strictly_increasing(cl),
        rows_below_grid(cl),
    ensures
        cl.len() <= GRID_HEIGHT,
{
    if cl.len() > GRID_HEIGHT {
        lemma_sorted_index_lower_bound(cl, GRID_HEIGHT as int);
        assert(cl[GRID_HEIGHT as int] < GRID_HEIGHT);
    }
}

/// Linear membership scan of a row list.
pub fn contains_line(v: &Vec<usize>, target: usize) -> (r: bool)
    ensures
        r == v@.contains(target),
{
    let mut j: usize = 0;
    while j < v.len()
        invariant
            j <= v@.len(),
            forall|i: int| 0 <= i < j as int ==> (#[trigger] v@[i]) != target,
        decreases v@.len() - j,
    {
        if v[j] == target {
            assert(v@[j as int] == target);
            return true;
        }
        j = j + 1;
    }
    false
}

/// A cell-for-cell copy of one board row.
pub fn copy_row(row: &Vec<Option<Cell>>) -> (r: Vec<Option<Cell>>)
    ensures
        r@ == row@,
{
    let mut r: Vec<Option<Cell>> = Vec::new();
    let mut i: usize = 0;
    while i < row.len()
        invariant
            i <= row@.len(),
            r@ == row@.subrange(0, i as int),
        decreases row@.len() - i,
    {
        r.push(row[i]);
        proof {
            assert(r@ =~= row@.subrange(0, i as int + 1));
        }
        i = i + 1;
    }
    proof {
        assert(r@ =~= row@);
    }
    r
}

impl GameState {
    /// Remove the rows listed in `clearing_lines`, shift what was above
    /// them down, insert empty rows at the top, and award the counters:
    /// `lines_cleared` grows by the number of removed rows and `score`
    /// by the pending bonus.  Row `i` of the old board survives exactly
    /// when it is not listed, and lands `count_gt` cleared rows lower.
    pub fn collapse_cleared_rows(&mut self)
        requires
            old(self).wf(),
        ensures
            final(self).wf(),
            forall|x: int, j: int| 0 <= x < GRID_WIDTH as int && 0 <= j < old(self).clearing_lines@.len()
                ==> !final(self).occupied(x, j),
            forall|i: int| 0 <= i < GRID_HEIGHT as int && !old(self).clearing_lines@.contains(i as usize)
                ==> i + count_gt(old(self).clearing_lines@, i) < GRID_HEIGHT as int
                    && final(self).board@[i + count_gt(old(self).clearing_lines@, i)]@
                        == old(self).board@[i]@,
            final(self).lines_cleared == sat_add(old(self).lines_cleared, old(self).clearing_lines@.len() as u32),
            final(self).score == sat_add(old(self).score, old(self).merge_bonus_pending),
            final(self).merge_bonus_pending == 0,
            final(self).clearing_lines@.len() == 0,
            *final(self) == (GameState {
                board: final(self).board,
                lines_cleared: final(self).lines_cleared,
                score: final(self).score,
                merge_bonus_pending: 0,
                clearing_lines: final(self).clearing_lines,
                ..*old(self)
            }),
    {
        let ghost cl = self.clearing_lines@;
        let k = self.clearing_lines.len();
        proof {
            lemma_sorted_bounded_len(cl);
        }
        let mut nb: Vec<Vec<Option<Cell>>> = Vec::new();
        let mut j: usize = 0;
        while j < k
            invariant
                j <= k,
                nb@.len() == j as int,
                forall|jj: int| 0 <= jj < j as int ==> (#[trigger] nb@[jj])@.len() == GRID_WIDTH as int,
                forall|x: int, jj: int| 0 <= x < GRID_WIDTH as int && 0 <= jj < j as int
                    ==> (#[trigger] nb@[jj]@[x]) is None,
            decreases k - j,
        {
            nb.push(empty_row());
            j = j + 1;
        }
        proof {
            lemma_counts_all_at_least(cl, 0);
        }
        let mut y: usize = 0;
        while y < GRID_HEIGHT
            invariant
                y <= GRID_HEIGHT,
                k == cl.len(),
                cl == self.clearing_lines@,
                self == old(self),
                self.wf(),
                nb@.len() >= k,
                nb@.len() == k + y as int - count_lt(cl, y as int),
                forall|jj: int| 0 <= jj < nb@.len() ==> (#[trigger] nb@[jj])@.len() == GRID_WIDTH as int,
                forall|x: int, jj: int| 0 <= x < GRID_WIDTH as int && 0 <= jj < k
                    ==> jj < nb@.len() && (#[trigger] nb@[jj]@[x]) is None,
                forall|i: int| 0 <= i < y as int && count_eq(cl, i) == 0
                    ==> 0 <= k + i - #[trigger] count_lt(cl, i) < nb@.len()
                        && nb@[k + i - count_lt(cl, i)]@ == self.board@[i]@,
            decreases GRID_HEIGHT - y,
        {
            proof {
                lemma_counts_partition(cl, y as int);
                lemma_count_lt_succ(cl, y as int);
                lemma_count_eq_at_most_one(cl, y as int);
            }
            if !contains_line(&self.clearing_lines, y) {
                proof {
                    assert forall|jj: int| 0 <= jj < cl.len() implies ((#[trigger] cl[jj]) as int) != y as int by {
                        assert(cl[jj] != y);
                    }
                    lemma_count_eq_zero(cl, y as int);
                }
                let ghost p = nb@.len();
                nb.push(copy_row(&self.board[y]));
                proof {
                    assert(nb@[p as int]@ == self.board@[y as int]@);
                }
            } else {
                proof {
                    let w = choose|w: int| 0 <= w < cl.len() && cl[w] == y;
                    lemma_count_eq_pos(cl, y as int, w);
                }
            }
            y = y + 1;
        }
        proof {
            assert forall|jj: int| 0 <= jj < cl.len() implies ((#[trigger] cl[jj]) as int) < GRID_HEIGHT as int by {}
            lemma_counts_all_below(cl, GRID_HEIGHT as int);
            assert(nb@.len() == GRID_HEIGHT as int);
        }
        self.board = nb;
        self.lines_cleared = self.lines_cleared.saturating_add(k as u32);
        self.score = self.score.saturating_add(self.merge_bonus_pending);
        self.merge_bonus_pending = 0;
        self.clearing_lines = Vec::new();
        proof {
            assert forall|i: int| 0 <= i < GRID_HEIGHT as int && !cl.contains(i as usize)
                implies i + count_gt(cl, i) < GRID_HEIGHT as int
                    && self.board@[i + count_gt(cl, i)]@ == old(self).board@[i]@ by {
                assert forall|jj: int| 0 <= jj < cl.len() implies ((#[trigger] cl[jj]) as int) != i by {
                    assert(cl[jj] != i as usize);
                }
                lemma_count_eq_zero(cl, i);
                lemma_counts_partition(cl, i);
            }
        }
    }
}

/// Boards that agree on which cells are occupied agree on every
/// collision query.
pub proof fn lemma_hits_under_same_occupancy(b1: GridView, b2: GridView, shape: [[i32; 2]; 4], pos: (i32, i32))
    requires
        forall|x: int, y: int| in_bounds(x, y)
            ==> #[trigger] grid_occupied(b1, x, y) == grid_occupied(b2, x, y),
    ensures
        grid_hits(b1, shape, pos) == grid_hits(b2, shape, pos),
{
    assert forall|i: int| 0 <= i < 4 implies #[trigger] grid_hit_at(b1, shape, pos, i)
        == grid_hit_at(b2, shape, pos, i) by {
        let (x, y) = shape_cell(shape, pos, i);
        if in_bounds(x, y) {
            assert(grid_occupied(b1, x, y) == grid_occupied(b2, x, y));
        }
    }
    if grid_hits(b1, shape, pos) {
        let i = choose|i: int| 0 <= i < 4 && grid_hit_at(b1, shape, pos, i);
        assert(grid_hit_at(b2, shape, pos, i));
    }
    if grid_hits(b2, shape, pos) {
        let i = choose|i: int| 0 <= i < 4 && grid_hit_at(b2, shape, pos, i);
        assert(grid_hit_at(b1, shape, pos, i));
    }
}

/// What the spawn step at the end of a lock leaves behind, relative to
/// the state before the lock.  The collision that decides between a
/// spawn and a game over is stated against the final board, whose
/// occupancy is the one the spawn saw.
pub open spec fn post_lock_spawn(pre: GameState, post: GameState) -> bool {
    if !pre.started || pre.next_tetromino is None {
        &&& post.tetromino == pre.tetromino
        &&& post.next_tetromino == pre.next_tetromino
        &&& post.hold_used == pre.hold_used
        &&& post.fall_timer == pre.fall_timer
        &&& post.piece_statistics@ == pre.piece_statistics@
        &&& post.game_over == pre.game_over
        &&& post.started == pre.started
    } else {
        match pre.next_tetromino {
            Some(n) => {
                if grid_hits(post.board@, n.shape, n.pos) {
                    &&& post.game_over
                    &&& !post.started
                    &&& post.tetromino == pre.tetromino
                    &&& post.next_tetromino == pre.next_tetromino
                    &&& post.hold_used == pre.hold_used
                    &&& post.fall_timer == pre.fall_timer
                    &&& post.piece_statistics@ == pre.piece_statistics@
                } else {
                    &&& post.tetromino == Some(n)
                    &&& (post.next_tetromino matches Some(m) && m.t_type.is_movable()
                        && is_spawned_piece(m, m.t_type))
                    &&& !post.hold_used
                    &&& post.fall_timer == 0
                    &&& post.piece_statistics@ == pre.piece_statistics@.update(
                        spec_kind_index(n.t_type),
                        sat_inc(pre.piece_statistics@[spec_kind_index(n.t_type)]),
                    )
                    &&& post.game_over == pre.game_over
                    &&& post.started == pre.started
                }
            },
            None => true,
        }
    }
}

/// What the game-over check and spawn at the end of a collapse leave
/// behind.  Unlike the lock, the collapse tests the queued piece even
/// in a game that is not running.
pub open spec fn post_clear_spawn(pre: GameState, post: GameState) -> bool {
    match pre.next_tetromino {
        None => {
            &&& post.tetromino == pre.tetromino
            &&& post.next_tetromino == pre.next_tetromino
            &&& post.hold_used == pre.hold_used
            &&& post.fall_timer == pre.fall_timer
            &&& post.piece_statistics@ == pre.piece_statistics@
            &&& post.game_over == pre.game_over
            &&& post.started == pre.started
        },
        Some(n) => {
            if grid_hits(post.board@, n.shape, n.pos) {
                &&& post.game_over
                &&& !post.started
                &&& post.tetromino == pre.tetromino
                &&& post.next_tetromino == pre.next_tetromino
                &&& post.hold_used == pre.hold_used
                &&& post.fall_timer == pre.fall_timer
                &&& post.piece_statistics@ == pre.piece_statistics@
            } else if !pre.started {
                &&& post.tetromino == pre.tetromino
                &&& post.next_tetromino == pre.next_tetromino
                &&& post.hold_used == pre.hold_used
                &&& post.fall_timer == pre.fall_timer
                &&& post.piece_statistics@ == pre.piece_statistics@
                &&& post.game_over == pre.game_over
                &&& post.started == pre.started
            } else {
                &&& post.tetromino == Some(n)
                &&& (post.next_tetromino matches Some(m) && m.t_type.is_movable()
                    && is_spawned_piece(m, m.t_type))
                &&& !post.hold_used
                &&& post.fall_timer == 0
                &&& post.piece_statistics@ == pre.piece_statistics@.update(
                    spec_kind_index(n.t_type),
                    sat_inc(pre.piece_statistics@[spec_kind_index(n.t_type)]),
                )
                &&& post.game_over == pre.game_over
                &&& post.started == pre.started
            }
        },
    }
}

/// `merge_active_piece`'s contract as a relation between two states.
pub open spec fn merge_transition(pre: GameState, post: GameState) -> bool {
    &&& (pre.tetromino is None ==> post == pre)
    &&& (pre.tetromino matches Some(t) ==> {
        &&& forall|x: int, y: int| #![trigger grid_cell(post.board@, x, y)] in_bounds(x, y)
            ==> post.cell_at(x, y) == (if piece_covers(t, x, y) {
                Some(Cell { kind: t.t_type, piece_id: pre.next_piece_id })
            } else {
                pre.cell_at(x, y)
            })
        &&& post.next_piece_id == sat_inc(pre.next_piece_id)
        &&& post == (GameState {
            board: post.board,
            next_piece_id: post.next_piece_id,
            ..pre
        })
    })
}

/// The bookkeeping after a lock's detector pass: the pending bonus and
/// the clearing list are recomputed from the (final) board, and either
/// the timed clear starts or the queued piece spawns.
pub open spec fn lock_finish(s2: GameState, post: GameState) -> bool {
    &&& post.board == s2.board
    &&& post.active_squares == s2.active_squares
    &&& post.merge_bonus_pending == grid_bonus_below(s2.board@, GRID_HEIGHT as int)
    &&& forall|j: int| 0 <= j < post.clearing_lines@.len()
        ==> (#[trigger] post.clearing_lines@[j]) < GRID_HEIGHT
            && grid_row_full(s2.board@, post.clearing_lines@[j] as int)
    &&& forall|y: int| 0 <= y < GRID_HEIGHT as int && grid_row_full(s2.board@, y)
        ==> post.clearing_lines@.contains(y as usize)
    &&& rows_strictly_increasing(post.clearing_lines@)
    &&& if post.clearing_lines@.len() > 0 {
        post == (GameState {
            merge_bonus_pending: post.merge_bonus_pending,
            clearing_lines: post.clearing_lines,
            line_clear_timer: LINE_CLEAR_DELAY,
            ..s2
        })
    } else {
        exists|k: TetrominoType| #[trigger] k.is_movable() && spawn_transition(
            (GameState {
                merge_bonus_pending: post.merge_bonus_pending,
                clearing_lines: post.clearing_lines,
                ..s2
            }),
            post,
            k,
        )
    }
}

/// `lock_tetromino`'s contract as one relation: the merge, the
/// detector scan and the clear-or-spawn bookkeeping in sequence.
pub open spec fn lock_transition(pre: GameState, post: GameState) -> bool {
    exists|s1: GameState, s2: GameState|
        #![trigger merge_transition(pre, s1), crate::squares::detector_transition(s1, s2)]
        {
        &&& merge_transition(pre, s1)
        &&& crate::squares::detector_transition(s1, s2)
        &&& lock_finish(s2, post)
    }
}

/// `collapse_cleared_rows`'s contract as a relation between two
/// states.
pub open spec fn collapse_transition(pre: GameState, post: GameState) -> bool {
    &&& forall|x: int, j: int| 0 <= x < GRID_WIDTH as int && 0 <= j < pre.clearing_lines@.len()
        ==> !(#[trigger] grid_occupied(post.board@, x, j))
    &&& forall|i: int| 0 <= i < GRID_HEIGHT as int && !pre.clearing_lines@.contains(i as usize)
        ==> i + count_gt(pre.clearing_lines@, i) < GRID_HEIGHT as int
            && (#[trigger] post.board@[i + count_gt(pre.clearing_lines@, i)])@ == pre.board@[i]@
    &&& post.lines_cleared == sat_add(pre.lines_cleared, pre.clearing_lines@.len() as u32)
    &&& post.score == sat_add(pre.score, pre.merge_bonus_pending)
    &&& post.merge_bonus_pending == 0
    &&& post.clearing_lines@.len() == 0
    &&& post == (GameState {
        board: post.board,
        lines_cleared: post.lines_cleared,
        score: post.score,
        merge_bonus_pending: 0,
        clearing_lines: post.clearing_lines,
        ..pre
    })
}

/// `clear_lines_delayed`'s contract as one relation: the collapse,
/// then either the game ends on a blocked spawn (and nothing else
/// happens, in particular no detector rescan), or the queued piece
/// spawns and the detector rescans the collapsed board.
pub open spec fn clear_transition(pre: GameState, post: GameState) -> bool {
    exists|s1: GameState| #![trigger collapse_transition(pre, s1)] {
        &&& collapse_transition(pre, s1)
        &&& match s1.next_tetromino {
            Some(n) => if grid_hits(s1.board@, n.shape, n.pos) {
                post == (GameState { game_over: true, started: false, ..s1 })
            } else {
                exists|s2: GameState, k: TetrominoType|
                    #![trigger spawn_transition(s1, s2, k)]
                    {
                    &&& k.is_movable()
                    &&& spawn_transition(s1, s2, k)
                    &&& crate::squares::detector_transition(s2, post)
                }
            },
            None => exists|s2: GameState, k: TetrominoType|
                #![trigger spawn_transition(s1, s2, k)]
                {
                &&& k.is_movable()
                &&& spawn_transition(s1, s2, k)
                &&& crate::squares::detector_transition(s2, post)
            },
        }
    }
}

/// `hold_swap`'s contract as a relation between two states.
#[verifier::opaque]
pub open spec fn hold_transition(pre: GameState, post: GameState) -> bool {
    &&& (pre.hold_used ==> post == pre)
    &&& (!pre.hold_used && pre.tetromino is None ==> post == pre)
    &&& (pre.tetromino matches Some(cur) ==> !pre.hold_used ==> (match pre.hold_tetromino {
        Some(h) => {
            if grid_hits(pre.board@, h.shape, h.pos) {
                post == pre
            } else {
                &&& (post.hold_tetromino matches Some(s2) && is_spawned_piece(s2, cur.t_type))
                &&& post.tetromino == Some(h)
                &&& post.hold_used
                &&& post == (GameState {
                    hold_used: true,
                    hold_tetromino: post.hold_tetromino,
                    tetromino: Some(h),
                    ..pre
                })
            }
        },
        None => {
            &&& (post.hold_tetromino matches Some(s2) && is_spawned_piece(s2, cur.t_type))
            &&& exists|k: TetrominoType| #[trigger] k.is_movable() && spawn_transition(
                (GameState {
                    hold_used: true,
                    hold_tetromino: post.hold_tetromino,
                    tetromino: None,
                    ..pre
                }),
                post,
                k,
            )
        },
    }))
}

impl GameState {
    /// Write the active piece into the board under a fresh id, run the
    /// bonus-square detector, and scan for full rows.  Full rows start
    /// the timed clear (with their bonus pending); otherwise the queued
    /// piece spawns at once.
    pub fn lock_tetromino(&mut self)
        requires
            old(self).wf(),
        ensures
            final(self).wf(),
            old(self).tetromino matches Some(t) ==> {
                &&& forall|x: int, y: int| in_bounds(x, y) && piece_covers(t, x, y)
                    ==> #[trigger] final(self).occupied(x, y)
                &&& forall|x: int, y: int| in_bounds(x, y) && !piece_covers(t, x, y)
                    ==> #[trigger] final(self).occupied(x, y) == old(self).occupied(x, y)
                &&& final(self).next_piece_id == sat_inc(old(self).next_piece_id)
            },
            old(self).tetromino is None ==> {
                &&& forall|x: int, y: int| in_bounds(x, y)
                    ==> #[trigger] final(self).occupied(x, y) == old(self).occupied(x, y)
                &&& final(self).next_piece_id == old(self).next_piece_id
            },
            forall|j: int| 0 <= j < final(self).clearing_lines@.len()
                ==> (#[trigger] final(self).clearing_lines@[j]) < GRID_HEIGHT
                    && final(self).row_full(final(self).clearing_lines@[j] as int),
            forall|y: int| 0 <= y < GRID_HEIGHT as int && final(self).row_full(y)
                ==> final(self).clearing_lines@.contains(y as usize),
            final(self).merge_bonus_pending == final(self).full_rows_bonus_below(GRID_HEIGHT as int),
            final(self).active_squares@.len() >= old(self).active_squares@.len(),
            forall|j: int| 0 <= j < old(self).active_squares@.len()
                ==> final(self).active_squares@[j] == old(self).active_squares@[j],
            final(self).clearing_lines@.len() > 0 ==> final(self).line_clear_timer == LINE_CLEAR_DELAY
                && *final(self) == (GameState {
                    board: final(self).board,
                    active_squares: final(self).active_squares,
                    next_piece_id: final(self).next_piece_id,
                    merge_bonus_pending: final(self).merge_bonus_pending,
                    clearing_lines: final(self).clearing_lines,
                    line_clear_timer: LINE_CLEAR_DELAY,
                    ..*old(self)
                }),
            lock_transition(*old(self), *final(self)),
            old(self).tetromino matches Some(t) ==> forall|x: int, y: int|
                #![trigger grid_cell(final(self).board@, x, y)]
                in_bounds(x, y) ==> (final(self).cell_at(x, y) == (if piece_covers(t, x, y) {
                    Some(Cell { kind: t.t_type, piece_id: old(self).next_piece_id })
                } else {
                    old(self).cell_at(x, y)
                }) || (final(self).cell_at(x, y) matches Some(c) && c.kind.is_bonus() && c.piece_id == 0)),
            old(self).tetromino is None ==> forall|x: int, y: int|
                #![trigger grid_cell(final(self).board@, x, y)]
                in_bounds(x, y) ==> (final(self).cell_at(x, y) == old(self).cell_at(x, y)
                    || (final(self).cell_at(x, y) matches Some(c) && c.kind.is_bonus() && c.piece_id == 0)),
            final(self).clearing_lines@.len() == 0 ==> post_lock_spawn(*old(self), *final(self))
                && *final(self) == (GameState {
                    board: final(self).board,
                    active_squares: final(self).active_squares,
                    next_piece_id: final(self).next_piece_id,
                    merge_bonus_pending: final(self).merge_bonus_pending,
                    clearing_lines: final(self).clearing_lines,
                    tetromino: final(self).tetromino,
                    next_tetromino: final(self).next_tetromino,
                    hold_used: final(self).hold_used,
                    fall_timer: final(self).fall_timer,
                    piece_statistics: final(self).piece_statistics,
                    game_over: final(self).game_over,
                    started: final(self).started,
                    ..*old(self)
                }),
    {
        let ghost s0 = *old(self);
        self.merge_active_piece();
        let ghost s1 = *self;
        self.check_for_4x4_squares();
        let ghost s2 = *self;
        let rb = self.scan_full_rows();
        self.merge_bonus_pending = rb.1;
        self.clearing_lines = rb.0;
        if self.clearing_lines.len() > 0 {
            self.line_clear_timer = LINE_CLEAR_DELAY;
            proof {
                lemma_lock_occupancy(s0, s1, s2, *self);
                assert(merge_transition(s0, s1));
                assert(crate::squares::detector_transition(s1, s2));
                assert(*self == (GameState {
                    merge_bonus_pending: self.merge_bonus_pending,
                    clearing_lines: self.clearing_lines,
                    line_clear_timer: LINE_CLEAR_DELAY,
                    ..s2
                }));
                assert(lock_finish(s2, *self));
                assert(lock_transition(s0, *self));
            }
        } else {
            let ghost s3 = *self;
            self.spawn_new_tetromino();
            proof {
                lemma_lock_occupancy(s0, s1, s2, *self);
                let k = choose|k: TetrominoType| k.is_movable()
                    && #[trigger] spawn_transition(s3, *self, k);
                assert(spawn_transition(s3, *self, k));
                assert(post_lock_spawn(s0, *self));
                assert(merge_transition(s0, s1));
                assert(crate::squares::detector_transition(s1, s2));
                assert(s3 == (GameState {
                    merge_bonus_pending: self.merge_bonus_pending,
                    clearing_lines: self.clearing_lines,
                    ..s2
                }));
                assert(lock_finish(s2, *self));
                assert(lock_transition(s0, *self));
            }
        }
    }
}

/// Occupancy bookkeeping across the three phases of a lock: the merge
/// fills the piece's cells, the detector and the spawn leave occupancy
/// alone.
proof fn lemma_lock_occupancy(s0: GameState, s1: GameState, s2: GameState, post: GameState)
    requires
        s0.tetromino is None ==> s1 == s0,
        s0.tetromino matches Some(t) ==> forall|x: int, y: int| in_bounds(x, y)
            ==> #[trigger] s1.cell_at(x, y) == (if piece_covers(t, x, y) {
                Some(Cell { kind: t.t_type, piece_id: s0.next_piece_id })
            } else {
                s0.cell_at(x, y)
            }),
        forall|x: int, y: int| in_bounds(x, y)
            ==> #[trigger] s2.occupied(x, y) == s1.occupied(x, y),
        forall|x: int, y: int| #![trigger grid_cell(s2.board@, x, y)] in_bounds(x, y)
            ==> (s2.cell_at(x, y) == s1.cell_at(x, y)
                || (s2.cell_at(x, y) matches Some(c) && c.kind.is_bonus() && c.piece_id == 0)),
        post.board == s2.board,
    ensures
        s0.tetromino matches Some(t) ==> {
            &&& forall|x: int, y: int| in_bounds(x, y) && piece_covers(t, x, y)
                ==> #[trigger] post.occupied(x, y)
            &&& forall|x: int, y: int| in_bounds(x, y) && !piece_covers(t, x, y)
                ==> #[trigger] post.occupied(x, y) == s0.occupied(x, y)
        },
        s0.tetromino is None ==> forall|x: int, y: int| in_bounds(x, y)
            ==> #[trigger] post.occupied(x, y) == s0.occupied(x, y),
        s0.tetromino matches Some(t) ==> forall|x: int, y: int|
            #![trigger grid_cell(post.board@, x, y)]
            in_bounds(x, y) ==> (post.cell_at(x, y) == (if piece_covers(t, x, y) {
                Some(Cell { kind: t.t_type, piece_id: s0.next_piece_id })
            } else {
                s0.cell_at(x, y)
            }) || (post.cell_at(x, y) matches Some(c) && c.kind.is_bonus() && c.piece_id == 0)),
        s0.tetromino is None ==> forall|x: int, y: int|
            #![trigger grid_cell(post.board@, x, y)]
            in_bounds(x, y) ==> (post.cell_at(x, y) == s0.cell_at(x, y)
                || (post.cell_at(x, y) matches Some(c) && c.kind.is_bonus() && c.piece_id == 0)),
{
    assert forall|x: int, y: int| #![trigger grid_cell(post.board@, x, y)] in_bounds(x, y)
        implies post.cell_at(x, y) == s2.cell_at(x, y) by {}
    assert forall|x: int, y: int| in_bounds(x, y)
        implies #[trigger] post.occupied(x, y) == s1.occupied(x, y) by {
        assert(s2.occupied(x, y) == s1.occupied(x, y));
    }
    match s0.tetromino {
        Some(t) => {
            assert forall|x: int, y: int| in_bounds(x, y) && piece_covers(t, x, y)
                implies #[trigger] post.occupied(x, y) by {
                assert(s1.cell_at(x, y) == Some(Cell { kind: t.t_type, piece_id: s0.next_piece_id }));
            }
            assert forall|x: int, y: int| in_bounds(x, y) && !piece_covers(t, x, y)
                implies #[trigger] post.occupied(x, y) == s0.occupied(x, y) by {
                assert(s1.cell_at(x, y) == s0.cell_at(x, y));
            }
        },
        None => {},
    }
}

impl GameState {
    /// The delayed step of the clear pipeline: collapse the flashing
    /// rows, award the pending bonus, then spawn the queued piece if it
    /// fits (game over if it does not) and rescan for 4x4 squares.
    pub fn clear_lines_delayed(&mut self)
        requires
            old(self).wf(),
        ensures
            final(self).wf(),
            forall|x: int, j: int| 0 <= x < GRID_WIDTH as int && 0 <= j < old(self).clearing_lines@.len()
                ==> !final(self).occupied(x, j),
            forall|i: int, x: int| 0 <= i < GRID_HEIGHT as int
                && !old(self).clearing_lines@.contains(i as usize) && 0 <= x < GRID_WIDTH as int
                ==> i + count_gt(old(self).clearing_lines@, i) < GRID_HEIGHT as int
                    && #[trigger] final(self).occupied(x, i + count_gt(old(self).clearing_lines@, i))
                        == old(self).occupied(x, i),
            final(self).lines_cleared == sat_add(old(self).lines_cleared, old(self).clearing_lines@.len() as u32),
            final(self).score == sat_add(old(self).score, old(self).merge_bonus_pending),
            final(self).merge_bonus_pending == 0,
            final(self).clearing_lines@.len() == 0,
            post_clear_spawn(*old(self), *final(self)),
            clear_transition(*old(self), *final(self)),
            *final(self) == (GameState {
                board: final(self).board,
                active_squares: final(self).active_squares,
                lines_cleared: final(self).lines_cleared,
                score: final(self).score,
                merge_bonus_pending: 0,
                clearing_lines: final(self).clearing_lines,
                tetromino: final(self).tetromino,
                next_tetromino: final(self).next_tetromino,
                hold_used: final(self).hold_used,
                fall_timer: final(self).fall_timer,
                piece_statistics: final(self).piece_statistics,
                game_over: final(self).game_over,
                started: final(self).started,
                ..*old(self)
            }),
    {
        let ghost s0 = *old(self);
        self.collapse_cleared_rows();
        let ghost s1 = *self;
        if let Some(next) = self.next_tetromino {
            if self.check_collision(&next.shape, next.pos) {
                self.game_over = true;
                self.started = false;
                proof {
                    lemma_collapse_occupancy(s0, s1, *self);
                    assert(collapse_transition(s0, s1));
                    assert(*self == (GameState { game_over: true, started: false, ..s1 }));
                    assert(clear_transition(s0, *self));
                }
                return;
            }
        }
        let ghost s2 = *self;
        self.spawn_new_tetromino();
        let ghost s3 = *self;
        self.check_for_4x4_squares();
        proof {
            assert forall|x: int, y: int| in_bounds(x, y)
                implies #[trigger] self.occupied(x, y) == s1.occupied(x, y) by {
                assert(self.occupied(x, y) == s3.occupied(x, y));
            }
            lemma_collapse_occupancy(s0, s1, *self);
            match s0.next_tetromino {
                Some(n) => {
                    lemma_hits_under_same_occupancy(self.board@, s1.board@, n.shape, n.pos);
                    if !grid_hits(self.board@, n.shape, n.pos) && s0.started {
                        let k = choose|k: TetrominoType| k.is_movable()
                            && #[trigger] spawn_transition(s2, s3, k);
                        assert(spawn_transition(s2, s3, k));
                    }
                },
                None => {},
            }
            assert(collapse_transition(s0, s1));
            let kk = choose|kk: TetrominoType| kk.is_movable()
                && #[trigger] spawn_transition(s2, s3, kk);
            assert(s2 == s1);
            assert(spawn_transition(s1, s3, kk));
            assert(crate::squares::detector_transition(s3, *self));
            assert(clear_transition(s0, *self));
        }
    }
}

/// Occupancy of the collapsed board, carried to any later state that
/// preserves occupancy.
proof fn lemma_collapse_occupancy(s0: GameState, s1: GameState, post: GameState)
    requires
        s0.board_wf(),
        s1.board_wf(),
        s0.clearing_wf(),
        forall|x: int, j: int| 0 <= x < GRID_WIDTH as int && 0 <= j < s0.clearing_lines@.len()
            ==> !s1.occupied(x, j),
        forall|i: int| 0 <= i < GRID_HEIGHT as int && !s0.clearing_lines@.contains(i as usize)
            ==> i + count_gt(s0.clearing_lines@, i) < GRID_HEIGHT as int
                && s1.board@[i + count_gt(s0.clearing_lines@, i)]@ == s0.board@[i]@,
        forall|x: int, y: int| in_bounds(x, y)
            ==> #[trigger] post.occupied(x, y) == s1.occupied(x, y),
    ensures
        forall|x: int, j: int| 0 <= x < GRID_WIDTH as int && 0 <= j < s0.clearing_lines@.len()
            ==> !post.occupied(x, j),
        forall|i: int, x: int| 0 <= i < GRID_HEIGHT as int
            && !s0.clearing_lines@.contains(i as usize) && 0 <= x < GRID_WIDTH as int
            ==> i + count_gt(s0.clearing_lines@, i) < GRID_HEIGHT as int
                && #[trigger] post.occupied(x, i + count_gt(s0.clearing_lines@, i))
                    == s0.occupied(x, i),
{
    lemma_sorted_bounded_len(s0.clearing_lines@);
    assert forall|x: int, j: int| 0 <= x < GRID_WIDTH as int && 0 <= j < s0.clearing_lines@.len()
        implies !post.occupied(x, j) by {
        assert(!s1.occupied(x, j));
        assert(in_bounds(x, j));
    }
    assert forall|i: int, x: int| 0 <= i < GRID_HEIGHT as int
        && !s0.clearing_lines@.contains(i as usize) && 0 <= x < GRID_WIDTH as int
        implies i + count_gt(s0.clearing_lines@, i) < GRID_HEIGHT as int
            && #[trigger] post.occupied(x, i + count_gt(s0.clearing_lines@, i))
                == s0.occupied(x, i) by {
        let p = i + count_gt(s0.clearing_lines@, i);
        lemma_counts_partition(s0.clearing_lines@, i);
        assert(in_bounds(x, p));
        assert(s1.cell_at(x, p) == s0.cell_at(x, i)) by {
            assert(s1.board@[p]@ == s0.board@[i]@);
        }
        assert(post.occupied(x, p) == s1.occupied(x, p));
    }
}

/// The piece fell `d` cells and nothing else changed: every
/// intermediate position was free and the next one collides.
pub open spec fn dropped_outcome(pre: GameState, post: GameState, t: Tetromino, d: int) -> bool {
    &&& 0 <= d
    &&& post == (GameState {
        tetromino: Some(Tetromino { pos: (t.pos.0, (t.pos.1 + d) as i32), ..t }),
        ..pre
    })
    &&& forall|i: int| 0 < i <= d ==> !(#[trigger] grid_hits(pre.board@, t.shape, (t.pos.0, (t.pos.1 + i) as i32)))
    &&& pre.hits(t.shape, (t.pos.0, (t.pos.1 + d + 1) as i32))
}

impl GameState {
    /// Let the active piece fall as far as it can: afterwards it sits
    /// directly above the first obstacle.  No-op without an active
    /// piece.
    pub fn drop_to_floor(&mut self)
        requires
            old(self).wf(),
        ensures
            final(self).wf(),
            old(self).tetromino is None ==> *final(self) == *old(self),
            old(self).tetromino matches Some(t) ==> exists|d: int|
                #[trigger] dropped_outcome(*old(self), *final(self), t, d),
    {
        let t0 = match self.tetromino {
            Some(t) => t,
            None => {
                return;
            },
        };
        proof {
            assert(in_bounds(shape_cell(t0.shape, t0.pos, 0).0, shape_cell(t0.shape, t0.pos, 0).1));
        }
        let mut cur = t0;
        let mut steps: u32 = 0;
        while !self.check_collision(&cur.shape, (cur.pos.0, cur.pos.1 + 1))
            invariant
                self.wf(),
                self.tetromino == Some(cur),
                cur.shape == t0.shape,
                cur.t_type == t0.t_type,
                cur.pos.0 == t0.pos.0,
                -4 <= t0.pos.1 <= 22,
                -4 <= cur.pos.1 <= 22,
                cur.pos.1 == t0.pos.1 + steps,
                steps <= 26,
                forall|i: int| 0 < i <= steps ==> !(#[trigger] grid_hits(old(self).board@, t0.shape, (t0.pos.0, (t0.pos.1 + i) as i32))),
                *self == (GameState { tetromino: Some(cur), ..*old(self) }),
            decreases 30 - steps,
        {
            proof {
                assert(!self.hits(cur.shape, (cur.pos.0, (cur.pos.1 + 1) as i32)));
                assert forall|i: int| 0 <= i < 4 implies in_bounds(
                    #[trigger] shape_cell(cur.shape, cur.pos, i).0 + 0,
                    shape_cell(cur.shape, cur.pos, i).1 + 1,
                ) by {
                    assert(!self.hit_at(cur.shape, (cur.pos.0, (cur.pos.1 + 1) as i32), i));
                    assert(shape_cell(cur.shape, (cur.pos.0, (cur.pos.1 + 1) as i32), i)
                        == (shape_cell(cur.shape, cur.pos, i).0, shape_cell(cur.shape, cur.pos, i).1 + 1));
                }
            }
            self.move_tetromino((0, 1));
            cur = Tetromino { shape: cur.shape, pos: (cur.pos.0, cur.pos.1 + 1), t_type: cur.t_type };
            steps = steps + 1;
            proof {
                assert(piece_ok(cur));
                assert(in_bounds(shape_cell(cur.shape, cur.pos, 0).0, shape_cell(cur.shape, cur.pos, 0).1));
                assert(cur.pos.1 <= 22);
            }
        }
        proof {
            assert(dropped_outcome(*old(self), *self, t0, steps as int));
        }
    }

    /// Bank the active piece.  With an empty hold slot the piece is
    /// stored (reset to its canonical spawn form) and the queued piece
    /// spawns; with an occupied slot the two swap, unless the stored
    /// piece cannot re-enter at the spawn position, in which case
    /// nothing changes.  Usable once per spawn.
    pub fn hold_swap(&mut self)
        requires
            old(self).wf(),
        ensures
            final(self).wf(),
            hold_transition(*old(self), *final(self)),
            old(self).hold_used ==> *final(self) == *old(self),
            !old(self).hold_used && old(self).tetromino is None ==> *final(self) == *old(self),
            old(self).tetromino matches Some(cur) ==> !old(self).hold_used ==> (match old(self).hold_tetromino {
                Some(h) => {
                    if old(self).hits(h.shape, h.pos) {
                        *final(self) == *old(self)
                    } else {
                        &&& (final(self).hold_tetromino matches Some(s2)
                            && is_spawned_piece(s2, cur.t_type))
                        &&& final(self).tetromino == Some(h)
                        &&& final(self).hold_used
                        &&& *final(self) == (GameState {
                            hold_used: true,
                            hold_tetromino: final(self).hold_tetromino,
                            tetromino: Some(h),
                            ..*old(self)
                        })
                    }
                },
                None => {
                    &&& (final(self).hold_tetromino matches Some(s2)
                        && is_spawned_piece(s2, cur.t_type))
                    &&& exists|k: TetrominoType| #[trigger] k.is_movable() && spawn_transition(
                        (GameState {
                            hold_used: true,
                            hold_tetromino: final(self).hold_tetromino,
                            tetromino: None,
                            ..*old(self)
                        }),
                        *final(self),
                        k,
                    )
                },
            }),
    {
        proof {
            reveal(hold_transition);
        }
        if self.hold_used {
            return;
        }
        let cur = match self.tetromino {
            Some(t) => t,
            None => {
                return;
            },
        };
        let stored = Tetromino::new(cur.t_type);
        match self.hold_tetromino {
            Some(h) => {
                if !self.check_collision(&h.shape, h.pos) {
                    proof {
                        lemma_spawned_piece_ok(h);
                    }
                    self.hold_used = true;
                    self.hold_tetromino = Some(stored);
                    self.tetromino = Some(h);
                }
            },
            None => {
                self.hold_used = true;
                self.hold_tetromino = Some(stored);
                self.tetromino = None;
                self.spawn_new_tetromino();
            },
        }
    }

    /// One gravity advance: accumulate `dt`; when the accumulator
    /// reaches the fall interval (short while soft-dropping), spend it
    /// and move the piece down one cell, locking instead when blocked.
    /// Reports whether a lock happened.
    pub fn gravity_step(&mut self, dt: u32, soft_drop: bool) -> (locked: bool)
        requires
            old(self).wf(),
        ensures
            final(self).wf(),
            gravity_transition(*old(self), *final(self), dt, soft_drop, locked),
            old(self).tetromino is None ==> *final(self) == *old(self) && !locked,
            old(self).tetromino matches Some(t) ==> ({
                let interval = if soft_drop { SOFT_DROP_FALL_INTERVAL } else { NORMAL_FALL_INTERVAL };
                let nt = sat_add(old(self).fall_timer, dt);
                let below = (t.pos.0, (t.pos.1 + 1) as i32);
                if nt < interval {
                    *final(self) == (GameState { fall_timer: nt, ..*old(self) }) && !locked
                } else {
                    &&& locked == old(self).hits(t.shape, below)
                    &&& !locked ==> *final(self) == (GameState {
                        tetromino: Some(Tetromino { pos: below, ..t }),
                        fall_timer: (nt - interval) as u32,
                        ..*old(self)
                    })
                    &&& locked ==> lock_transition((GameState {
                        fall_timer: (nt - interval) as u32,
                        ..*old(self)
                    }), *final(self))
                    &&& locked ==> ({
                        &&& final(self).active_squares@.len() >= old(self).active_squares@.len()
                        &&& (forall|j: int| 0 <= j < old(self).active_squares@.len()
                            ==> final(self).active_squares@[j] == old(self).active_squares@[j])
                        &&& final(self).in_panic == old(self).in_panic
                        &&& final(self).paused == old(self).paused
                        &&& final(self).score == old(self).score
                        &&& final(self).lines_cleared == old(self).lines_cleared
                        &&& forall|x: int, y: int| in_bounds(x, y) && piece_covers(t, x, y)
                            ==> #[trigger] final(self).occupied(x, y)
                        &&& forall|x: int, y: int| in_bounds(x, y) && !piece_covers(t, x, y)
                            ==> #[trigger] final(self).occupied(x, y) == old(self).occupied(x, y)
                        &&& final(self).next_piece_id == sat_inc(old(self).next_piece_id)
                        &&& forall|j: int| 0 <= j < final(self).clearing_lines@.len()
                            ==> (#[trigger] final(self).clearing_lines@[j]) < GRID_HEIGHT
                                && final(self).row_full(final(self).clearing_lines@[j] as int)
                        &&& forall|y: int| 0 <= y < GRID_HEIGHT as int && final(self).row_full(y)
                            ==> final(self).clearing_lines@.contains(y as usize)
                        &&& final(self).merge_bonus_pending
                            == final(self).full_rows_bonus_below(GRID_HEIGHT as int)
                        &&& (final(self).clearing_lines@.len() > 0
                            ==> final(self).line_clear_timer == LINE_CLEAR_DELAY)
                    })
                }
            }),
    {
        proof {
            reveal(gravity_transition);
        }
        let t = match self.tetromino {
            Some(t) => t,
            None => {
                return false;
            },
        };
        let interval = if soft_drop { SOFT_DROP_FALL_INTERVAL } else { NORMAL_FALL_INTERVAL };
        let nt = self.fall_timer.saturating_add(dt);
        self.fall_timer = nt;
        if nt < interval {
            return false;
        }
        self.fall_timer = nt - interval;
        proof {
            assert(in_bounds(shape_cell(t.shape, t.pos, 0).0, shape_cell(t.shape, t.pos, 0).1));
        }
        if self.check_collision(&t.shape, (t.pos.0, t.pos.1 + 1)) {
            let ghost gpre = *self;
            self.lock_tetromino();
            proof {
                assert(gpre == (GameState {
                    fall_timer: (sat_add(old(self).fall_timer, dt) - (if soft_drop {
                        SOFT_DROP_FALL_INTERVAL
                    } else {
                        NORMAL_FALL_INTERVAL
                    })) as u32,
                    ..*old(self)
                }));
                assert(lock_transition(gpre, *self));
            }
            true
        } else {
            proof {
                assert forall|i: int| 0 <= i < 4 implies in_bounds(
                    #[trigger] shape_cell(t.shape, t.pos, i).0 + 0,
                    shape_cell(t.shape, t.pos, i).1 + 1,
                ) by {
                    assert(!self.hit_at(t.shape, (t.pos.0, (t.pos.1 + 1) as i32), i));
                    assert(shape_cell(t.shape, (t.pos.0, (t.pos.1 + 1) as i32), i)
                        == (shape_cell(t.shape, t.pos, i).0, shape_cell(t.shape, t.pos, i).1 + 1));
                }
            }
            self.move_tetromino((0, 1));
            false
        }
    }
}

/// `gravity_step`'s contract as a relation: the accumulator grows by
/// `dt`; once it reaches the fall interval it is spent and the piece
/// either moves down one cell or, blocked, goes through the lock
/// pipeline.
#[verifier::opaque]
pub open spec fn gravity_transition(pre: GameState, post: GameState, dt: u32, soft: bool, locked: bool) -> bool {
    match pre.tetromino {
        None => post == pre && !locked,
        Some(t) => {
            let interval = if soft { SOFT_DROP_FALL_INTERVAL } else { NORMAL_FALL_INTERVAL };
            let nt = sat_add(pre.fall_timer, dt);
            let below = (t.pos.0, (t.pos.1 + 1) as i32);
            if nt < interval {
                post == (GameState { fall_timer: nt, ..pre }) && !locked
            } else {
                &&& locked == grid_hits(pre.board@, t.shape, below)
                &&& (!locked ==> post == (GameState {
                    tetromino: Some(Tetromino { pos: below, ..t }),
                    fall_timer: (nt - interval) as u32,
                    ..pre
                }))
                &&& (locked ==> lock_transition((GameState {
                    fall_timer: (nt - interval) as u32,
                    ..pre
                }), post))
            }
        },
    }
}

/// A state with only its pause flag replaced; names the state the
/// tick controller hands to the input step after the pause edge.
pub open spec fn with_paused(s: GameState, p: bool) -> GameState {
    GameState { paused: p, ..s }
}

pub proof fn lemma_counts_nonneg(s: Seq<SquareEffect>, from: int, to: int)
    ensures
        gold_count(s, from, to) >= 0,
        silver_count(s, from, to) >= 0,
    decreases to - from,
{
    if to > from {
        lemma_counts_nonneg(s, from, to - 1);
    }
}

/// Gold effects among `s[from..to]`.
pub open spec fn gold_count(s: Seq<SquareEffect>, from: int, to: int) -> int
    decreases to - from,
{
    if to <= from {
        0
    } else {
        gold_count(s, from, to - 1) + if s[to - 1].is_gold { 1int } else { 0 }
    }
}

/// Silver effects among `s[from..to]`.
pub open spec fn silver_count(s: Seq<SquareEffect>, from: int, to: int) -> int
    decreases to - from,
{
    if to <= from {
        0
    } else {
        silver_count(s, from, to - 1) + if s[to - 1].is_gold { 0int } else { 1 }
    }
}

impl GameState {
    /// Advance the game by one frame of `dt` time units: toggle pause
    /// on the key edge; while frozen (paused, unstarted or over) do
    /// nothing else; while a clear is pending only count it down,
    /// collapsing on expiry; otherwise handle input, gravity, the
    /// blinking effects and the panic threshold.  The returned record
    /// lists this tick's discrete occurrences.
    #[verifier::rlimit(100)]
    pub fn update(&mut self, dt: u32, input: &InputSnapshot) -> (ev: TickEvents)
        requires
            old(self).wf(),
        ensures
            final(self).wf(),
            ev.pause_toggled == (input.pause_pressed && !old(self).game_over),
            final(self).paused == (if input.pause_pressed && !old(self).game_over {
                !old(self).paused
            } else {
                old(self).paused
            }),
            (final(self).paused || !old(self).started || old(self).game_over) ==> ({
                &&& *final(self) == (GameState { paused: final(self).paused, ..*old(self) })
                &&& ev.quiet_but_pause()
            }),
            !(final(self).paused || !old(self).started || old(self).game_over)
                && old(self).line_clear_timer > 0 ==> ({
                if old(self).line_clear_timer > dt {
                    &&& *final(self) == (GameState {
                        paused: final(self).paused,
                        line_clear_timer: (old(self).line_clear_timer - dt) as u32,
                        ..*old(self)
                    })
                    &&& ev.quiet_but_pause()
                } else {
                    &&& final(self).line_clear_timer == 0
                    &&& final(self).clearing_lines@.len() == 0
                    &&& final(self).lines_cleared == sat_add(
                        old(self).lines_cleared,
                        old(self).clearing_lines@.len() as u32,
                    )
                    &&& final(self).score == sat_add(old(self).score, old(self).merge_bonus_pending)
                    &&& final(self).merge_bonus_pending == 0
                    &&& clear_transition((GameState {
                        paused: final(self).paused,
                        line_clear_timer: 0,
                        ..*old(self)
                    }), *final(self))
                    &&& ev.lines_cleared == old(self).clearing_lines@.len() as u32
                    &&& ev.clear_bonus_awarded == old(self).merge_bonus_pending
                    &&& ev.game_over == (final(self).game_over && !old(self).game_over)
                    &&& !ev.piece_moved && !ev.piece_rotated && !ev.piece_locked
                    &&& !ev.lines_clearing_started && ev.clearing_rows@.len() == 0
                    &&& ev.gold_squares_formed == 0 && ev.silver_squares_formed == 0
                    &&& !ev.panic_toggled
                }
            }),
            !(final(self).paused || !old(self).started || old(self).game_over)
                && old(self).line_clear_timer == 0 ==> ({
                &&& final(self).in_panic == (exists|x: int, y: int| in_bounds(x, y)
                    && y <= GRID_HEIGHT as int - PANIC_THRESHOLD as int
                    && #[trigger] final(self).occupied(x, y))
                &&& ev.panic_toggled == (final(self).in_panic != old(self).in_panic)
            }),
            !(final(self).paused || !old(self).started || old(self).game_over)
                && old(self).line_clear_timer == 0
                ==> exists|eva: TickEvents, evb: TickEvents, s1: GameState, s2: GameState, lkd: bool|
                #![trigger crate::input::input_transition(
                        with_paused(*old(self), final(self).paused),
                        s1, dt, *input, eva, evb),
                    gravity_transition(s1, s2, dt, input.down_held, lkd)]
                {
                &&& eva.quiet_but_pause()
                &&& eva.pause_toggled == (input.pause_pressed && !old(self).game_over)
                &&& crate::input::input_transition(
                    with_paused(*old(self), final(self).paused),
                    s1, dt, *input, eva, evb)
                &&& gravity_transition(s1, s2, dt, input.down_held, lkd)
                &&& final(self).active_squares@ == crate::squares::surviving_effects(s2.active_squares@, dt)
                &&& *final(self) == (GameState {
                    active_squares: final(self).active_squares,
                    in_panic: final(self).in_panic,
                    ..s2
                })
                &&& ev.piece_locked == (evb.piece_locked || lkd)
                &&& ev.lines_clearing_started == (evb.lines_clearing_started
                    || (lkd && s2.clearing_lines@.len() > 0))
                &&& ((lkd && s2.clearing_lines@.len() > 0 && !evb.lines_clearing_started)
                    ==> ev.clearing_rows@ == s2.clearing_lines@)
                &&& (!(lkd && s2.clearing_lines@.len() > 0 && !evb.lines_clearing_started)
                    ==> ev.clearing_rows == evb.clearing_rows)
                &&& ev.game_over == (evb.game_over || (s2.game_over && !s1.game_over))
                &&& ev.piece_moved == evb.piece_moved
                &&& ev.piece_rotated == evb.piece_rotated
                &&& ev.lines_cleared == evb.lines_cleared
                &&& ev.clear_bonus_awarded == evb.clear_bonus_awarded
                &&& ev.pause_toggled == evb.pause_toggled
                &&& ev.gold_squares_formed as int == (if evb.gold_squares_formed
                        + gold_count(s2.active_squares@, old(self).active_squares@.len() as int,
                            s2.active_squares@.len() as int) > u32::MAX {
                    u32::MAX as int
                } else {
                    evb.gold_squares_formed + gold_count(s2.active_squares@,
                        old(self).active_squares@.len() as int, s2.active_squares@.len() as int)
                })
                &&& ev.silver_squares_formed as int == (if evb.silver_squares_formed
                        + silver_count(s2.active_squares@, old(self).active_squares@.len() as int,
                            s2.active_squares@.len() as int) > u32::MAX {
                    u32::MAX as int
                } else {
                    evb.silver_squares_formed + silver_count(s2.active_squares@,
                        old(self).active_squares@.len() as int, s2.active_squares@.len() as int)
                })
            },
    {
        let mut ev = TickEvents::new();
        if input.pause_pressed && !self.game_over {
            self.paused = !self.paused;
            ev.pause_toggled = true;
        }
        if self.paused || !self.started || self.game_over {
            return ev;
        }
        if self.line_clear_timer > 0 {
            if self.line_clear_timer > dt {
                self.line_clear_timer = self.line_clear_timer - dt;
            } else {
                self.line_clear_timer = 0;
                let count = self.clearing_lines.len();
                let pending = self.merge_bonus_pending;
                let was_over = self.game_over;
                let ghost pre_clear = *self;
                self.clear_lines_delayed();
                ev.lines_cleared = count as u32;
                ev.clear_bonus_awarded = pending;
                if self.game_over && !was_over {
                    ev.game_over = true;
                }
                proof {
                    assert(pre_clear == (GameState {
                        paused: self.paused,
                        line_clear_timer: 0,
                        ..*old(self)
                    }));
                    assert(clear_transition(pre_clear, *self));
                }
            }
            return ev;
        }
        let squares_before = self.active_squares.len();
        let ghost eva_g = ev;
        let ghost pre_a = *self;
        self.process_input(dt, input, &mut ev);
        let ghost s1_g = *self;
        let ghost evb_g = ev;
        let was_over_fall = self.game_over;
        let locked = self.gravity_step(dt, input.down_held);
        let ghost s2_g = *self;
        if locked {
            ev.piece_locked = true;
            if self.clearing_lines.len() > 0 && !ev.lines_clearing_started {
                ev.lines_clearing_started = true;
                ev.clearing_rows = copy_lines(&self.clearing_lines);
            }
        }
        if self.game_over && !was_over_fall {
            ev.game_over = true;
        }
        let ghost pre_count = *self;
        let ghost ev0 = ev;
        let mut j = squares_before;
        while j < self.active_squares.len()
            invariant
                self.wf(),
                *self == pre_count,
                squares_before <= j,
                j <= self.active_squares@.len(),
                ev == (TickEvents {
                    gold_squares_formed: ev.gold_squares_formed,
                    silver_squares_formed: ev.silver_squares_formed,
                    ..ev0
                }),
                ev.gold_squares_formed as int == (if ev0.gold_squares_formed
                        + gold_count(pre_count.active_squares@, squares_before as int, j as int) > u32::MAX {
                    u32::MAX as int
                } else {
                    ev0.gold_squares_formed
                        + gold_count(pre_count.active_squares@, squares_before as int, j as int)
                }),
                ev.silver_squares_formed as int == (if ev0.silver_squares_formed
                        + silver_count(pre_count.active_squares@, squares_before as int, j as int) > u32::MAX {
                    u32::MAX as int
                } else {
                    ev0.silver_squares_formed
                        + silver_count(pre_count.active_squares@, squares_before as int, j as int)
                }),
            decreases self.active_squares@.len() - j,
        {
            proof {
                lemma_counts_nonneg(pre_count.active_squares@, squares_before as int, j as int);
            }
            if self.active_squares[j].is_gold {
                ev.gold_squares_formed = ev.gold_squares_formed.saturating_add(1);
            } else {
                ev.silver_squares_formed = ev.silver_squares_formed.saturating_add(1);
            }
            j = j + 1;
        }
        self.update_square_effects(dt);
        let ghost pre_panic = *self;
        let fullness = self.check_for_fullness();
        if fullness >= PANIC_THRESHOLD && !self.in_panic {
            self.in_panic = true;
            ev.panic_toggled = true;
        } else if fullness < PANIC_THRESHOLD && self.in_panic {
            self.in_panic = false;
            ev.panic_toggled = true;
        }
        proof {
            if fullness >= PANIC_THRESHOLD {
                assert(fullness > 0);
                let x0 = choose|x: int| 0 <= x < GRID_WIDTH as int
                    && #[trigger] pre_panic.occupied(x, GRID_HEIGHT as int - fullness);
                assert(self.occupied(x0, GRID_HEIGHT as int - fullness));
                assert(GRID_HEIGHT as int - fullness <= GRID_HEIGHT as int - PANIC_THRESHOLD as int);
            } else {
                assert forall|x: int, y: int| in_bounds(x, y)
                    && y <= GRID_HEIGHT as int - PANIC_THRESHOLD as int
                    implies !(#[trigger] self.occupied(x, y)) by {
                    assert(y < GRID_HEIGHT as int - fullness);
                    assert(!pre_panic.occupied(x, y));
                }
            }
            assert(pre_a == with_paused(*old(self), self.paused));
            assert(crate::input::input_transition(
                with_paused(*old(self), self.paused),
                s1_g, dt, *input, eva_g, evb_g));
            assert(eva_g.quiet_but_pause());
            assert(gravity_transition(s1_g, s2_g, dt, input.down_held, locked));
            assert(self.active_squares@
                == crate::squares::surviving_effects(s2_g.active_squares@, dt));
            assert(*self == (GameState {
                active_squares: self.active_squares,
                in_panic: self.in_panic,
                ..s2_g
            }));
            assert(squares_before as int == old(self).active_squares@.len());
        }
        ev
    }
}

impl GameState {
    /// Read one board cell.
    pub fn board_cell(&self, x: usize, y: usize) -> (r: Option<Cell>)
        requires
            self.board_wf(),
            x < GRID_WIDTH,
            y < GRID_HEIGHT,
        ensures
            r == self.cell_at(x as int, y as int),
    {
        self.board[y][x]
    }

    pub fn current_score(&self) -> (r: u32)
        ensures
            r == self.score,
    {
        self.score
    }

    pub fn total_lines_cleared(&self) -> (r: u32)
        ensures
            r == self.lines_cleared,
    {
        self.lines_cleared
    }

    /// How many pieces of the given kind have spawned this game.
    pub fn piece_count(&self, t: TetrominoType) -> (r: u32)
        requires
            self.wf(),
            t.is_movable(),
        ensures
            r == self.piece_statistics@[spec_kind_index(t)],
    {
        let ki = kind_index(t);
        self.piece_statistics[ki]
    }

    pub fn active_piece(&self) -> (r: Option<Tetromino>)
        ensures
            r == self.tetromino,
    {
        self.tetromino
    }

    pub fn queued_piece(&self) -> (r: Option<Tetromino>)
        ensures
            r == self.next_tetromino,
    {
        self.next_tetromino
    }

    pub fn held_piece(&self) -> (r: Option<Tetromino>)
        ensures
            r == self.hold_tetromino,
    {
        self.hold_tetromino
    }

    pub fn is_paused(&self) -> (r: bool)
        ensures
            r == self.paused,
    {
        self.paused
    }

    pub fn is_game_over(&self) -> (r: bool)
        ensures
            r == self.game_over,
    {
        self.game_over
    }

    /// Time left on the pending line clear; 0 when none is pending.
    pub fn clear_time_left(&self) -> (r: u32)
        ensures
            r == self.line_clear_timer,
    {
        self.line_clear_timer
    }
}

/// A copy of the row list, for the event record.
pub fn copy_lines(v: &Vec<usize>) -> (r: Vec<usize>)
    ensures
        r@ == v@,
{
    let mut r: Vec<usize> = Vec::new();
    let mut i: usize = 0;
    while i < v.len()
        invariant
            i <= v@.len(),
            r@ == v@.subrange(0, i as int),
        decreases v@.len() - i,
    {
        r.push(v[i]);
        proof {
            assert(r@ =~= v@.subrange(0, i as int + 1));
        }
        i = i + 1;
    }
    proof {
        assert(r@ =~= v@);
    }
    r
}

} // verus!
