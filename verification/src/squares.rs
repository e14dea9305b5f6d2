use vstd::prelude::*;

verus! {

use crate::game::{Cell, GameState, GRID_HEIGHT, GRID_WIDTH, grid_cell, in_bounds};
use crate::tetromino::TetrominoType;

/// An in-progress bonus-square reveal: a 4x4 region that was converted
/// to bonus filler and now blinks before settling.  `original` keeps the
/// sixteen replaced cells, row-major, so a renderer can show them during
/// the off phase of the flash.
#[derive(Debug)]
pub struct SquareEffect {
    /// Column of the region's top-left corner.
    pub x: usize,
    /// Row of the region's top-left corner.
    pub y: usize,
    /// Gold if every contributing piece had the same kind, else silver.
    pub is_gold: bool,
    /// Time left in the current blink phase.
    pub timer: u32,
    /// Whether the bonus colour is currently displayed.
    pub flash_on: bool,
    /// On-off cycles left before the effect settles.
    pub blinks_remaining: u32,
    /// The sixteen replaced cells, row-major.
    pub original: Vec<Cell>,
}

/// Shape of an effect record: its origin fits a 4x4 window on the
/// board and the saved snapshot has one entry per window cell.
pub open spec fn effect_wf(e: SquareEffect) -> bool {
    &&& e.x + 4 <= crate::game::GRID_WIDTH
    &&& e.y + 4 <= crate::game::GRID_HEIGHT
    &&& e.original@.len() == 16
}

/// (x, y) lies in the 4x4 window whose top-left corner is (wx, wy).
pub open spec fn in_window(wx: int, wy: int, x: int, y: int) -> bool {
    wx <= x < wx + 4 && wy <= y < wy + 4
}

/// (wx, wy) is a possible window origin: the window fits on the board.
pub open spec fn window_origin_ok(wx: int, wy: int) -> bool {
    0 <= wx <= GRID_WIDTH as int - 4 && 0 <= wy <= GRID_HEIGHT as int - 4
}

/// The cell is occupied and not a bonus filler.
pub open spec fn cell_plain(s: GameState, x: int, y: int) -> bool {
    s.cell_at(x, y) matches Some(c) && !c.kind.is_bonus()
}

/// All sixteen cells of the window are occupied by non-bonus cells.
pub open spec fn window_filled_plain(s: GameState, wx: int, wy: int) -> bool {
    forall|x: int, y: int| in_window(wx, wy, x, y) ==> #[trigger] cell_plain(s, x, y)
}

/// The cell is occupied by a cell of the locked piece `pid`.
pub open spec fn cell_has_id(s: GameState, x: int, y: int, pid: u32) -> bool {
    s.cell_at(x, y) matches Some(c) && c.piece_id == pid
}

/// Some cell of the window belongs to piece `pid`.
pub open spec fn id_in_window(s: GameState, wx: int, wy: int, pid: u32) -> bool {
    exists|x: int, y: int| in_window(wx, wy, x, y) && #[trigger] cell_has_id(s, x, y, pid)
}

/// Every cell of piece `pid`, anywhere on the board, lies inside the
/// window.
pub open spec fn id_cells_inside(s: GameState, wx: int, wy: int, pid: u32) -> bool {
    forall|x: int, y: int| in_bounds(x, y) && #[trigger] cell_has_id(s, x, y, pid)
        ==> in_window(wx, wy, x, y)
}

/// Piece `pid` lies wholly in the window: a piece straddling the
/// window boundary disqualifies the window.
pub open spec fn pid_contained(s: GameState, wx: int, wy: int, pid: u32) -> bool {
    id_cells_inside(s, wx, wy, pid)
}

/// Every piece touching the window is wholly contained in it.
pub open spec fn window_pieces_contained(s: GameState, wx: int, wy: int) -> bool {
    forall|pid: u32| #[trigger] id_in_window(s, wx, wy, pid) ==> pid_contained(s, wx, wy, pid)
}

/// The window turns into a bonus square: sixteen plain occupied cells,
/// every touching piece wholly inside.
pub open spec fn window_qualifies(s: GameState, wx: int, wy: int) -> bool {
    &&& window_origin_ok(wx, wy)
    &&& window_filled_plain(s, wx, wy)
    &&& window_pieces_contained(s, wx, wy)
}

/// Kind of the (occupied) cell at (x, y).
pub open spec fn cell_kind_at(s: GameState, x: int, y: int) -> TetrominoType {
    s.cell_at(x, y)->Some_0.kind
}

/// All cells of the window share one kind; a qualifying window is then
/// gold, otherwise silver.
pub open spec fn window_uniform(s: GameState, wx: int, wy: int) -> bool {
    forall|x1: int, y1: int, x2: int, y2: int|
        in_window(wx, wy, x1, y1) && in_window(wx, wy, x2, y2)
        ==> #[trigger] cell_kind_at(s, x1, y1) == #[trigger] cell_kind_at(s, x2, y2)
}

/// An active effect is anchored at (wx, wy).
pub open spec fn has_effect_at(effects: Seq<SquareEffect>, wx: int, wy: int) -> bool {
    exists|j: int| 0 <= j < effects.len() && (#[trigger] effects[j]).x == wx && effects[j].y == wy
}

/// Converting one qualifying window cannot make any other window
/// qualify: a window qualifying afterwards already qualified before.
proof fn lemma_conversion_preserves_disqualification(
    pre: GameState,
    post: GameState,
    wxc: int,
    wyc: int,
    bk: TetrominoType,
    wx: int,
    wy: int,
)
    requires
        window_origin_ok(wxc, wyc),
        window_filled_plain(pre, wxc, wyc),
        window_pieces_contained(pre, wxc, wyc),
        bk.is_bonus(),
        forall|x: int, y: int| in_bounds(x, y) ==> #[trigger] post.cell_at(x, y)
            == (if in_window(wxc, wyc, x, y) {
                Some(Cell { kind: bk, piece_id: 0 })
            } else {
                pre.cell_at(x, y)
            }),
        window_qualifies(post, wx, wy),
    ensures
        window_qualifies(pre, wx, wy),
{
    // every cell of the qualifying window is non-bonus afterwards, so
    // none of them lies in the converted window: they are unchanged
    assert forall|x: int, y: int| in_window(wx, wy, x, y)
        implies !in_window(wxc, wyc, x, y) && post.cell_at(x, y) == pre.cell_at(x, y)
            && #[trigger] cell_plain(pre, x, y) by {
        assert(cell_plain(post, x, y));
        assert(in_bounds(x, y));
        if in_window(wxc, wyc, x, y) {
            assert(post.cell_at(x, y) == Some(Cell { kind: bk, piece_id: 0 }));
            assert(false);
        }
    }
    assert forall|pid: u32| #[trigger] id_in_window(pre, wx, wy, pid)
        implies pid_contained(pre, wx, wy, pid) by {
        let (x0, y0) = choose|x0: int, y0: int| in_window(wx, wy, x0, y0)
            && #[trigger] cell_has_id(pre, x0, y0, pid);
        assert(cell_plain(pre, x0, y0) && post.cell_at(x0, y0) == pre.cell_at(x0, y0));
        assert(cell_has_id(post, x0, y0, pid));
        assert(id_in_window(post, wx, wy, pid));
        assert(pid_contained(post, wx, wy, pid));
        if pid == 0 {
            // the converted window's corner carries id 0 afterwards and
            // would have to lie inside this window; but cells of this
            // window are disjoint from the converted one
            assert(in_bounds(wxc, wyc) && in_window(wxc, wyc, wxc, wyc));
            assert(cell_has_id(post, wxc, wyc, 0));
            assert(in_window(wx, wy, wxc, wyc));
            assert(cell_plain(pre, wxc, wyc));
            assert(!in_window(wxc, wyc, wxc, wyc));
            assert(false);
        }
        // the piece has no cell in the converted window: such a cell
        // would force the whole piece inside it, away from (x0, y0)
        assert forall|x1: int, y1: int| in_bounds(x1, y1) && #[trigger] cell_has_id(pre, x1, y1, pid)
            implies !in_window(wxc, wyc, x1, y1) by {
            if in_window(wxc, wyc, x1, y1) {
                assert(id_in_window(pre, wxc, wyc, pid));
                assert(id_cells_inside(pre, wxc, wyc, pid));
                assert(in_window(wxc, wyc, x0, y0));
                assert(false);
            }
        }
        assert(id_cells_inside(pre, wx, wy, pid)) by {
            assert forall|x: int, y: int| in_bounds(x, y) && #[trigger] cell_has_id(pre, x, y, pid)
                implies in_window(wx, wy, x, y) by {
                assert(cell_has_id(post, x, y, pid));
            }
        }
    }
}

/// A piece with a cell inside the window and a cell outside it keeps
/// the window from qualifying.
pub proof fn lemma_straddling_piece_disqualifies(
    s: GameState,
    wx: int,
    wy: int,
    pid: u32,
    xi: int,
    yi: int,
    xo: int,
    yo: int,
)
    requires
        in_window(wx, wy, xi, yi),
        cell_has_id(s, xi, yi, pid),
        in_bounds(xo, yo),
        cell_has_id(s, xo, yo, pid),
        !in_window(wx, wy, xo, yo),
    ensures
        !window_qualifies(s, wx, wy),
{
    assert(id_in_window(s, wx, wy, pid));
    assert(!id_cells_inside(s, wx, wy, pid));
}

/// A 4x4 region of plain occupied cells, each touching piece wholly
/// contained in it, qualifies as a bonus square; `window_uniform` then
/// decides gold against silver.
pub proof fn lemma_window_qualification(s: GameState, wx: int, wy: int)
    requires
        window_origin_ok(wx, wy),
        window_filled_plain(s, wx, wy),
        window_pieces_contained(s, wx, wy),
    ensures
        window_qualifies(s, wx, wy),
{
}

/// What a full row is worth once bonus filler sits in it: a gold cell
/// anywhere brings the gold points; otherwise a silver cell brings the
/// silver points; a row without bonus cells brings nothing.
pub proof fn lemma_row_bonus_classification(b: crate::game::GridView, y: int)
    ensures
        crate::game::grid_row_has_kind(b, y, TetrominoType::BonusGold)
            ==> crate::game::grid_row_bonus(b, y) == crate::game::GOLD_POINTS,
        !crate::game::grid_row_has_kind(b, y, TetrominoType::BonusGold)
            && crate::game::grid_row_has_kind(b, y, TetrominoType::BonusSilver)
            ==> crate::game::grid_row_bonus(b, y) == crate::game::SILVER_POINTS,
        !crate::game::grid_row_has_kind(b, y, TetrominoType::BonusGold)
            && !crate::game::grid_row_has_kind(b, y, TetrominoType::BonusSilver)
            ==> crate::game::grid_row_bonus(b, y) == 0,
{
}

impl GameState {
    /// Whether all sixteen window cells are occupied and none is
    /// already a bonus cell.
    pub fn window_plain_filled(&self, wx: usize, wy: usize) -> (r: bool)
        requires
            self.board_wf(),
            window_origin_ok(wx as int, wy as int),
        ensures
            r == window_filled_plain(*self, wx as int, wy as int),
    {
        let mut dy: usize = 0;
        while dy < 4
            invariant
                dy <= 4,
                self.board_wf(),
                window_origin_ok(wx as int, wy as int),
                forall|x: int, y: int| in_window(wx as int, wy as int, x, y) && y < wy + dy
                    ==> #[trigger] cell_plain(*self, x, y),
            decreases 4 - dy,
        {
            let mut dx: usize = 0;
            while dx < 4
                invariant
                    dx <= 4,
                    dy < 4,
                    self.board_wf(),
                    window_origin_ok(wx as int, wy as int),
                    forall|x: int, y: int| in_window(wx as int, wy as int, x, y) && y < wy + dy
                        ==> #[trigger] cell_plain(*self, x, y),
                    forall|x: int| wx <= x < wx + dx ==> #[trigger] cell_plain(*self, x, (wy + dy) as int),
                decreases 4 - dx,
            {
                match self.board[wy + dy][wx + dx] {
                    None => {
                        assert(!cell_plain(*self, (wx + dx) as int, (wy + dy) as int));
                        return false;
                    },
                    Some(c) => {
                        if c.kind == TetrominoType::BonusGold || c.kind == TetrominoType::BonusSilver {
                            assert(!cell_plain(*self, (wx + dx) as int, (wy + dy) as int));
                            return false;
                        }
                        assert(cell_plain(*self, (wx + dx) as int, (wy + dy) as int));
                    },
                }
                dx = dx + 1;
            }
            dy = dy + 1;
        }
        true
    }

    /// Whether every board cell of piece `pid` lies inside the window.
    pub fn pid_ok(&self, wx: usize, wy: usize, pid: u32) -> (r: bool)
        requires
            self.board_wf(),
            window_origin_ok(wx as int, wy as int),
        ensures
            r == pid_contained(*self, wx as int, wy as int, pid),
    {
        let mut outside = false;
        let mut y: usize = 0;
        while y < GRID_HEIGHT
            invariant
                y <= GRID_HEIGHT,
                self.board_wf(),
                window_origin_ok(wx as int, wy as int),
                !outside ==> forall|xx: int, yy: int| 0 <= xx < GRID_WIDTH as int && 0 <= yy < y as int
                    && #[trigger] cell_has_id(*self, xx, yy, pid) ==> in_window(wx as int, wy as int, xx, yy),
                outside ==> exists|xx: int, yy: int| in_bounds(xx, yy)
                    && #[trigger] cell_has_id(*self, xx, yy, pid) && !in_window(wx as int, wy as int, xx, yy),
            decreases GRID_HEIGHT - y,
        {
            let mut x: usize = 0;
            while x < GRID_WIDTH
                invariant
                    x <= GRID_WIDTH,
                    y < GRID_HEIGHT,
                    self.board_wf(),
                    window_origin_ok(wx as int, wy as int),
                    !outside ==> forall|xx: int, yy: int| 0 <= xx < GRID_WIDTH as int && 0 <= yy < y as int
                        && #[trigger] cell_has_id(*self, xx, yy, pid) ==> in_window(wx as int, wy as int, xx, yy),
                    !outside ==> forall|xx: int| 0 <= xx < x as int
                        && #[trigger] cell_has_id(*self, xx, y as int, pid) ==> in_window(wx as int, wy as int, xx, y as int),
                    outside ==> exists|xx: int, yy: int| in_bounds(xx, yy)
                        && #[trigger] cell_has_id(*self, xx, yy, pid) && !in_window(wx as int, wy as int, xx, yy),
                decreases GRID_WIDTH - x,
            {
                let copt = self.board[y][x];
                proof {
                    assert(self.cell_at(x as int, y as int) == copt);
                }
                if let Some(c) = copt {
                    if c.piece_id == pid {
                        if x < wx || x >= wx + 4 || y < wy || y >= wy + 4 {
                            outside = true;
                            proof {
                                assert(cell_has_id(*self, x as int, y as int, pid));
                                assert(!in_window(wx as int, wy as int, x as int, y as int));
                            }
                        }
                    }
                }
                x = x + 1;
            }
            y = y + 1;
        }
        proof {
            if !outside {
                assert forall|xx: int, yy: int| in_bounds(xx, yy)
                    && #[trigger] cell_has_id(*self, xx, yy, pid)
                    implies in_window(wx as int, wy as int, xx, yy) by {}
            }
        }
        !outside
    }

    /// Whether every piece with a cell in the window is wholly
    /// contained in it.
    pub fn window_pieces_ok(&self, wx: usize, wy: usize) -> (r: bool)
        requires
            self.board_wf(),
            window_origin_ok(wx as int, wy as int),
            window_filled_plain(*self, wx as int, wy as int),
        ensures
            r == window_pieces_contained(*self, wx as int, wy as int),
    {
        let mut dy: usize = 0;
        while dy < 4
            invariant
                dy <= 4,
                self.board_wf(),
                window_origin_ok(wx as int, wy as int),
                window_filled_plain(*self, wx as int, wy as int),
                forall|x: int, y: int| in_window(wx as int, wy as int, x, y) && y < wy + dy
                    ==> (#[trigger] self.cell_at(x, y) matches Some(c)
                        && pid_contained(*self, wx as int, wy as int, c.piece_id)),
            decreases 4 - dy,
        {
            let mut dx: usize = 0;
            while dx < 4
                invariant
                    dx <= 4,
                    dy < 4,
                    self.board_wf(),
                    window_origin_ok(wx as int, wy as int),
                    window_filled_plain(*self, wx as int, wy as int),
                    forall|x: int, y: int| in_window(wx as int, wy as int, x, y) && y < wy + dy
                        ==> (#[trigger] self.cell_at(x, y) matches Some(c)
                            && pid_contained(*self, wx as int, wy as int, c.piece_id)),
                    forall|x: int| wx <= x < wx + dx
                        ==> (#[trigger] self.cell_at(x, (wy + dy) as int) matches Some(c)
                            && pid_contained(*self, wx as int, wy as int, c.piece_id)),
                decreases 4 - dx,
            {
                proof {
                    assert(cell_plain(*self, (wx + dx) as int, (wy + dy) as int));
                }
                let copt = self.board[wy + dy][wx + dx];
                if let Some(c) = copt {
                    if !self.pid_ok(wx, wy, c.piece_id) {
                        proof {
                            assert(cell_has_id(*self, (wx + dx) as int, (wy + dy) as int, c.piece_id));
                            assert(id_in_window(*self, wx as int, wy as int, c.piece_id));
                        }
                        return false;
                    }
                }
                dx = dx + 1;
            }
            dy = dy + 1;
        }
        proof {
            assert forall|pid: u32| #[trigger] id_in_window(*self, wx as int, wy as int, pid)
                implies pid_contained(*self, wx as int, wy as int, pid) by {
                let (x, y) = choose|x: int, y: int| in_window(wx as int, wy as int, x, y)
                    && #[trigger] cell_has_id(*self, x, y, pid);
                assert(self.cell_at(x, y) matches Some(c)
                    && pid_contained(*self, wx as int, wy as int, c.piece_id));
            }
        }
        true
    }

    /// Whether all sixteen cells of a filled window share one kind.
    pub fn window_all_same_kind(&self, wx: usize, wy: usize) -> (r: bool)
        requires
            self.board_wf(),
            window_origin_ok(wx as int, wy as int),
            window_filled_plain(*self, wx as int, wy as int),
        ensures
            r == window_uniform(*self, wx as int, wy as int),
    {
        proof {
            assert(cell_plain(*self, wx as int, wy as int));
        }
        let k0 = match self.board[wy][wx] {
            Some(c) => c.kind,
            None => {
                proof {
                    assert(false);
                }
                TetrominoType::I
            },
        };
        let mut dy: usize = 0;
        while dy < 4
            invariant
                dy <= 4,
                self.board_wf(),
                window_origin_ok(wx as int, wy as int),
                window_filled_plain(*self, wx as int, wy as int),
                k0 == cell_kind_at(*self, wx as int, wy as int),
                forall|x: int, y: int| in_window(wx as int, wy as int, x, y) && y < wy + dy
                    ==> #[trigger] cell_kind_at(*self, x, y) == k0,
            decreases 4 - dy,
        {
            let mut dx: usize = 0;
            while dx < 4
                invariant
                    dx <= 4,
                    dy < 4,
                    self.board_wf(),
                    window_origin_ok(wx as int, wy as int),
                    window_filled_plain(*self, wx as int, wy as int),
                    k0 == cell_kind_at(*self, wx as int, wy as int),
                    forall|x: int, y: int| in_window(wx as int, wy as int, x, y) && y < wy + dy
                        ==> #[trigger] cell_kind_at(*self, x, y) == k0,
                    forall|x: int| wx <= x < wx + dx
                        ==> #[trigger] cell_kind_at(*self, x, (wy + dy) as int) == k0,
                decreases 4 - dx,
            {
                proof {
                    assert(cell_plain(*self, (wx + dx) as int, (wy + dy) as int));
                }
                if let Some(c) = self.board[wy + dy][wx + dx] {
                    if !(c.kind == k0) {
                        proof {
                            assert(cell_kind_at(*self, (wx + dx) as int, (wy + dy) as int) != k0);
                            assert(!window_uniform(*self, wx as int, wy as int));
                        }
                        return false;
                    }
                }
                dx = dx + 1;
            }
            dy = dy + 1;
        }
        true
    }

    /// Whether an active effect is already anchored at (wx, wy).
    pub fn has_effect_at_origin(&self, wx: usize, wy: usize) -> (r: bool)
        ensures
            r == has_effect_at(self.active_squares@, wx as int, wy as int),
    {
        let mut j: usize = 0;
        while j < self.active_squares.len()
            invariant
                j <= self.active_squares@.len(),
                forall|i: int| 0 <= i < j as int ==> !((#[trigger] self.active_squares@[i]).x == wx as int
                    && self.active_squares@[i].y == wy as int),
            decreases self.active_squares@.len() - j,
        {
            let e = &self.active_squares[j];
            if e.x == wx && e.y == wy {
                return true;
            }
            j = j + 1;
        }
        false
    }

    /// The sixteen window cells of a filled window, row-major.
    pub fn snapshot_window(&self, wx: usize, wy: usize) -> (r: Vec<Cell>)
        requires
            self.board_wf(),
            window_origin_ok(wx as int, wy as int),
            window_filled_plain(*self, wx as int, wy as int),
        ensures
            r@.len() == 16,
            forall|dx: int, dy: int| 0 <= dx < 4 && 0 <= dy < 4
                ==> (self.cell_at(wx + dx, wy + dy) matches Some(c) && #[trigger] r@[4 * dy + dx] == c),
    {
        let mut r: Vec<Cell> = Vec::new();
        let mut dy: usize = 0;
        while dy < 4
            invariant
                dy <= 4,
                self.board_wf(),
                window_origin_ok(wx as int, wy as int),
                window_filled_plain(*self, wx as int, wy as int),
                r@.len() == 4 * dy,
                forall|ex: int, ey: int| 0 <= ex < 4 && 0 <= ey < dy as int
                    ==> (self.cell_at(wx + ex, wy + ey) matches Some(c) && #[trigger] r@[4 * ey + ex] == c),
            decreases 4 - dy,
        {
            let mut dx: usize = 0;
            while dx < 4
                invariant
                    dx <= 4,
                    dy < 4,
                    self.board_wf(),
                    window_origin_ok(wx as int, wy as int),
                    window_filled_plain(*self, wx as int, wy as int),
                    r@.len() == 4 * dy + dx,
                    forall|ex: int, ey: int| 0 <= ex < 4 && 0 <= ey < dy as int
                        ==> (self.cell_at(wx + ex, wy + ey) matches Some(c) && #[trigger] r@[4 * ey + ex] == c),
                    forall|ex: int| 0 <= ex < dx as int
                        ==> (self.cell_at(wx + ex, wy + dy) matches Some(c) && #[trigger] r@[4 * dy + ex] == c),
                decreases 4 - dx,
            {
                proof {
                    assert(cell_plain(*self, (wx + dx) as int, (wy + dy) as int));
                }
                let c = match self.board[wy + dy][wx + dx] {
                    Some(c) => c,
                    None => {
                        proof {
                            assert(false);
                        }
                        Cell { kind: TetrominoType::I, piece_id: 0 }
                    },
                };
                r.push(c);
                dx = dx + 1;
            }
            dy = dy + 1;
        }
        r
    }

    /// Overwrite the sixteen window cells with bonus filler of the
    /// given colour; no other cell changes.
    pub fn convert_window(&mut self, wx: usize, wy: usize, gold: bool)
        requires
            old(self).wf(),
            window_origin_ok(wx as int, wy as int),
        ensures
            final(self).wf(),
            forall|x: int, y: int| in_bounds(x, y) ==> final(self).cell_at(x, y)
                == (if in_window(wx as int, wy as int, x, y) {
                    Some(Cell {
                        kind: if gold { TetrominoType::BonusGold } else { TetrominoType::BonusSilver },
                        piece_id: 0,
                    })
                } else {
                    old(self).cell_at(x, y)
                }),
            *final(self) == (GameState { board: final(self).board, ..*old(self) }),
    {
        let kind = if gold { TetrominoType::BonusGold } else { TetrominoType::BonusSilver };
        let mut dy: usize = 0;
        while dy < 4
            invariant
                dy <= 4,
                self.board_wf(),
                window_origin_ok(wx as int, wy as int),
                *self == (GameState { board: self.board, ..*old(self) }),
                kind == (if gold { TetrominoType::BonusGold } else { TetrominoType::BonusSilver }),
                forall|x: int, y: int| in_bounds(x, y) ==> self.cell_at(x, y)
                    == (if in_window(wx as int, wy as int, x, y) && y < wy + dy {
                        Some(Cell { kind, piece_id: 0 })
                    } else {
                        old(self).cell_at(x, y)
                    }),
            decreases 4 - dy,
        {
            let mut dx: usize = 0;
            while dx < 4
                invariant
                    dx <= 4,
                    dy < 4,
                    self.board_wf(),
                    window_origin_ok(wx as int, wy as int),
                    *self == (GameState { board: self.board, ..*old(self) }),
                    kind == (if gold { TetrominoType::BonusGold } else { TetrominoType::BonusSilver }),
                    forall|x: int, y: int| in_bounds(x, y) ==> self.cell_at(x, y)
                        == (if in_window(wx as int, wy as int, x, y)
                                && (y < wy + dy || (y == wy + dy && x < wx + dx)) {
                            Some(Cell { kind, piece_id: 0 })
                        } else {
                            old(self).cell_at(x, y)
                        }),
                decreases 4 - dx,
            {
                self.board[wy + dy][wx + dx] = Some(Cell { kind, piece_id: 0 });
                dx = dx + 1;
            }
            dy = dy + 1;
        }
    }

    /// Scan every 4x4 window, top-left to bottom-right; each qualifying
    /// window without an effect already anchored there is converted to
    /// bonus filler (gold when its cells share one kind, else silver)
    /// and a blinking effect is registered.  Only the board and the
    /// effect list change; occupied cells stay occupied, and a cell
    /// changes only by becoming bonus filler.
    #[verifier::rlimit(80)]
    pub fn check_for_4x4_squares(&mut self)
        requires
            old(self).wf(),
        ensures
            final(self).wf(),
            forall|x: int, y: int| in_bounds(x, y)
                ==> final(self).occupied(x, y) == old(self).occupied(x, y),
            forall|x: int, y: int| in_bounds(x, y) ==> (final(self).cell_at(x, y) == old(self).cell_at(x, y)
                || (final(self).cell_at(x, y) matches Some(c) && c.kind.is_bonus() && c.piece_id == 0)),
            final(self).active_squares@.len() >= old(self).active_squares@.len(),
            forall|j: int| 0 <= j < old(self).active_squares@.len()
                ==> final(self).active_squares@[j] == old(self).active_squares@[j],
            forall|j: int| old(self).active_squares@.len() <= j < final(self).active_squares@.len()
                ==> new_effect_ok(*final(self), #[trigger] final(self).active_squares@[j]),
            forall|j: int| old(self).active_squares@.len() <= j < final(self).active_squares@.len()
                ==> registered_effect_ok(*old(self), #[trigger] final(self).active_squares@[j]),
            forall|x: int, y: int| #![trigger grid_cell(final(self).board@, x, y)] in_bounds(x, y)
                && final(self).cell_at(x, y) != old(self).cell_at(x, y)
                ==> exists|j: int| old(self).active_squares@.len() <= j < final(self).active_squares@.len()
                    && in_window((#[trigger] final(self).active_squares@[j]).x as int,
                        final(self).active_squares@[j].y as int, x, y),
            forall|j1: int, j2: int| 0 <= j1 < j2 < final(self).active_squares@.len()
                && old(self).active_squares@.len() <= j2
                ==> !((#[trigger] final(self).active_squares@[j1]).x
                        == (#[trigger] final(self).active_squares@[j2]).x
                    && final(self).active_squares@[j1].y == final(self).active_squares@[j2].y),
            forall|a: int, b: int| window_origin_ok(a, b)
                && #[trigger] window_qualifies(*final(self), a, b)
                ==> has_effect_at(final(self).active_squares@, a, b),
            *final(self) == (GameState {
                board: final(self).board,
                active_squares: final(self).active_squares,
                ..*old(self)
            }),
    {
        let mut wy: usize = 0;
        while wy < GRID_HEIGHT - 3
            invariant
                wy <= GRID_HEIGHT - 3,
                self.wf(),
                *self == (GameState { board: self.board, active_squares: self.active_squares, ..*old(self) }),
                forall|x: int, y: int| in_bounds(x, y)
                    ==> self.occupied(x, y) == old(self).occupied(x, y),
                forall|x: int, y: int| in_bounds(x, y) ==> (self.cell_at(x, y) == old(self).cell_at(x, y)
                    || (self.cell_at(x, y) matches Some(c) && c.kind.is_bonus() && c.piece_id == 0)),
                self.active_squares@.len() >= old(self).active_squares@.len(),
                forall|j: int| 0 <= j < old(self).active_squares@.len()
                    ==> self.active_squares@[j] == old(self).active_squares@[j],
                forall|j: int| old(self).active_squares@.len() <= j < self.active_squares@.len()
                    ==> new_effect_ok(*self, #[trigger] self.active_squares@[j]),
                forall|j: int| old(self).active_squares@.len() <= j < self.active_squares@.len()
                    ==> registered_effect_ok(*old(self), #[trigger] self.active_squares@[j]),
                forall|a: int, b: int| #[trigger] window_qualifies(*self, a, b)
                    ==> window_qualifies(*old(self), a, b),
                forall|x: int, y: int| #![trigger grid_cell(self.board@, x, y)] in_bounds(x, y)
                    && self.cell_at(x, y) != old(self).cell_at(x, y)
                    ==> exists|j: int| old(self).active_squares@.len() <= j < self.active_squares@.len()
                        && in_window((#[trigger] self.active_squares@[j]).x as int,
                            self.active_squares@[j].y as int, x, y),
                forall|j1: int, j2: int| 0 <= j1 < j2 < self.active_squares@.len()
                    && old(self).active_squares@.len() <= j2
                    ==> !((#[trigger] self.active_squares@[j1]).x == (#[trigger] self.active_squares@[j2]).x
                        && self.active_squares@[j1].y == self.active_squares@[j2].y),
                forall|a: int, b: int| window_origin_ok(a, b) && b < wy as int
                    && #[trigger] window_qualifies(*self, a, b)
                    ==> has_effect_at(self.active_squares@, a, b),
            decreases GRID_HEIGHT - 3 - wy,
        {
            let mut wx: usize = 0;
            while wx < GRID_WIDTH - 3
                invariant
                    wx <= GRID_WIDTH - 3,
                    wy < GRID_HEIGHT - 3,
                    self.wf(),
                    *self == (GameState { board: self.board, active_squares: self.active_squares, ..*old(self) }),
                    forall|x: int, y: int| in_bounds(x, y)
                        ==> self.occupied(x, y) == old(self).occupied(x, y),
                    forall|x: int, y: int| in_bounds(x, y) ==> (self.cell_at(x, y) == old(self).cell_at(x, y)
                        || (self.cell_at(x, y) matches Some(c) && c.kind.is_bonus() && c.piece_id == 0)),
                    self.active_squares@.len() >= old(self).active_squares@.len(),
                    forall|j: int| 0 <= j < old(self).active_squares@.len()
                        ==> self.active_squares@[j] == old(self).active_squares@[j],
                    forall|j: int| old(self).active_squares@.len() <= j < self.active_squares@.len()
                        ==> new_effect_ok(*self, #[trigger] self.active_squares@[j]),
                    forall|j: int| old(self).active_squares@.len() <= j < self.active_squares@.len()
                        ==> registered_effect_ok(*old(self), #[trigger] self.active_squares@[j]),
                    forall|a: int, b: int| #[trigger] window_qualifies(*self, a, b)
                        ==> window_qualifies(*old(self), a, b),
                    forall|x: int, y: int| #![trigger grid_cell(self.board@, x, y)] in_bounds(x, y)
                        && self.cell_at(x, y) != old(self).cell_at(x, y)
                        ==> exists|j: int| old(self).active_squares@.len() <= j < self.active_squares@.len()
                            && in_window((#[trigger] self.active_squares@[j]).x as int,
                                self.active_squares@[j].y as int, x, y),
                    forall|j1: int, j2: int| 0 <= j1 < j2 < self.active_squares@.len()
                        && old(self).active_squares@.len() <= j2
                        ==> !((#[trigger] self.active_squares@[j1]).x == (#[trigger] self.active_squares@[j2]).x
                            && self.active_squares@[j1].y == self.active_squares@[j2].y),
                    forall|a: int, b: int| window_origin_ok(a, b)
                        && (b < wy as int || (b == wy as int && a < wx as int))
                        && #[trigger] window_qualifies(*self, a, b)
                        ==> has_effect_at(self.active_squares@, a, b),
                decreases GRID_WIDTH - 3 - wx,
            {
                if self.window_plain_filled(wx, wy) {
                    if self.window_pieces_ok(wx, wy) {
                        if !self.has_effect_at_origin(wx, wy) {
                            let gold = self.window_all_same_kind(wx, wy);
                            let snap = self.snapshot_window(wx, wy);
                            let ghost mid = *self;
                            self.convert_window(wx, wy, gold);
                            proof {
                                assert forall|x: int, y: int| in_bounds(x, y) implies
                                    self.occupied(x, y) == old(self).occupied(x, y)
                                    && (self.cell_at(x, y) == old(self).cell_at(x, y)
                                        || (self.cell_at(x, y) matches Some(c)
                                            && c.kind.is_bonus() && c.piece_id == 0)) by {
                                    if in_window(wx as int, wy as int, x, y) {
                                        assert(cell_plain(mid, x, y));
                                    } else {
                                        assert(self.cell_at(x, y) == mid.cell_at(x, y));
                                    }
                                }
                                assert forall|j: int| old(self).active_squares@.len() <= j
                                    < self.active_squares@.len()
                                    implies new_effect_ok(*self, #[trigger] self.active_squares@[j]) by {
                                    let e = self.active_squares@[j];
                                    assert(new_effect_ok(mid, e));
                                    let ghost bk = if e.is_gold { TetrominoType::BonusGold } else {
                                        TetrominoType::BonusSilver };
                                    assert forall|x: int, y: int| in_window(e.x as int, e.y as int, x, y)
                                        implies #[trigger] self.cell_at(x, y)
                                            == Some(Cell { kind: bk, piece_id: 0 }) by {
                                        assert(mid.cell_at(x, y) == Some(Cell { kind: bk, piece_id: 0 }));
                                        assert(in_bounds(x, y));
                                        if in_window(wx as int, wy as int, x, y) {
                                            assert(cell_plain(mid, x, y));
                                            assert(false);
                                        }
                                    }
                                }
                            }
                            let effect = SquareEffect {
                                x: wx,
                                y: wy,
                                is_gold: gold,
                                timer: crate::game::BLINK_PHASE_TIME,
                                flash_on: true,
                                blinks_remaining: crate::game::BLINK_CYCLES,
                                original: snap,
                            };
                            let ghost pre_push = *self;
                            self.active_squares.push(effect);
                            proof {
                                let ghost bkk = if gold { TetrominoType::BonusGold } else {
                                    TetrominoType::BonusSilver };
                                assert forall|x: int, y: int| in_bounds(x, y)
                                    implies #[trigger] self.cell_at(x, y)
                                        == (if in_window(wx as int, wy as int, x, y) {
                                            Some(Cell { kind: bkk, piece_id: 0 })
                                        } else {
                                            mid.cell_at(x, y)
                                        }) by {
                                    assert(self.cell_at(x, y) == pre_push.cell_at(x, y));
                                }
                                assert forall|a: int, b: int| window_origin_ok(a, b)
                                    && (b < wy as int || (b == wy as int && a < wx as int + 1))
                                    && #[trigger] window_qualifies(*self, a, b)
                                    implies has_effect_at(self.active_squares@, a, b) by {
                                    let m = self.active_squares@.len();
                                    if a == wx as int && b == wy as int {
                                        assert(self.active_squares@[m - 1].x == wx as int
                                            && self.active_squares@[m - 1].y == wy as int);
                                    } else {
                                        lemma_conversion_preserves_disqualification(
                                            mid, *self, wx as int, wy as int, bkk, a, b);
                                        assert(window_qualifies(mid, a, b));
                                        assert(has_effect_at(mid.active_squares@, a, b));
                                        let j = choose|j: int| 0 <= j < mid.active_squares@.len()
                                            && (#[trigger] mid.active_squares@[j]).x == a
                                            && mid.active_squares@[j].y == b;
                                        assert(self.active_squares@[j] == mid.active_squares@[j]);
                                        assert(has_effect_at(self.active_squares@, a, b));
                                    }
                                }
                                let ghost m = self.active_squares@.len();
                                let ghost wxi = wx as int;
                                let ghost wyi = wy as int;
                                // qualification can only shrink across this conversion
                                assert forall|a: int, b: int| #[trigger] window_qualifies(*self, a, b)
                                    implies window_qualifies(*old(self), a, b) by {
                                    lemma_conversion_preserves_disqualification(
                                        mid, *self, wxi, wyi, bkk, a, b);
                                }
                                // the converted window's cells were untouched since the scan began
                                assert forall|x: int, y: int| in_window(wxi, wyi, x, y)
                                    implies #[trigger] mid.cell_at(x, y) == old(self).cell_at(x, y) by {
                                    assert(cell_plain(mid, x, y));
                                    assert(in_bounds(x, y));
                                }
                                // so its qualification and classification speak of the old board
                                assert(window_qualifies(mid, wxi, wyi));
                                assert(window_qualifies(*old(self), wxi, wyi));
                                assert(window_uniform(mid, wxi, wyi) == window_uniform(*old(self), wxi, wyi)) by {
                                    if window_uniform(mid, wxi, wyi) {
                                        assert forall|x1: int, y1: int, x2: int, y2: int|
                                            in_window(wxi, wyi, x1, y1) && in_window(wxi, wyi, x2, y2)
                                            implies #[trigger] cell_kind_at(*old(self), x1, y1)
                                                == #[trigger] cell_kind_at(*old(self), x2, y2) by {
                                            assert(mid.cell_at(x1, y1) == old(self).cell_at(x1, y1));
                                            assert(mid.cell_at(x2, y2) == old(self).cell_at(x2, y2));
                                            assert(cell_kind_at(mid, x1, y1) == cell_kind_at(mid, x2, y2));
                                        }
                                    }
                                    if window_uniform(*old(self), wxi, wyi) {
                                        assert forall|x1: int, y1: int, x2: int, y2: int|
                                            in_window(wxi, wyi, x1, y1) && in_window(wxi, wyi, x2, y2)
                                            implies #[trigger] cell_kind_at(mid, x1, y1)
                                                == #[trigger] cell_kind_at(mid, x2, y2) by {
                                            assert(mid.cell_at(x1, y1) == old(self).cell_at(x1, y1));
                                            assert(mid.cell_at(x2, y2) == old(self).cell_at(x2, y2));
                                            assert(cell_kind_at(*old(self), x1, y1)
                                                == cell_kind_at(*old(self), x2, y2));
                                        }
                                    }
                                }
                                assert(!has_effect_at(old(self).active_squares@, wxi, wyi)) by {
                                    if has_effect_at(old(self).active_squares@, wxi, wyi) {
                                        let j = choose|j: int| 0 <= j < old(self).active_squares@.len()
                                            && (#[trigger] old(self).active_squares@[j]).x == wxi
                                            && old(self).active_squares@[j].y == wyi;
                                        assert(mid.active_squares@[j] == old(self).active_squares@[j]);
                                        assert(has_effect_at(mid.active_squares@, wxi, wyi));
                                    }
                                }
                                assert(registered_effect_ok(*old(self), effect)) by {
                                    assert forall|dx: int, dy: int| 0 <= dx < 4 && 0 <= dy < 4
                                        implies old(self).cell_at(wxi + dx, wyi + dy)
                                            == Some(#[trigger] effect.original@[4 * dy + dx]) by {
                                        assert(in_window(wxi, wyi, wxi + dx, wyi + dy));
                                        assert(mid.cell_at(wxi + dx, wyi + dy) == old(self).cell_at(wxi + dx, wyi + dy));
                                        assert(mid.cell_at(wxi + dx, wyi + dy) matches Some(c)
                                            && snap@[4 * dy + dx] == c);
                                    }
                                }
                                assert forall|j: int| old(self).active_squares@.len() <= j < m
                                    implies registered_effect_ok(*old(self), #[trigger] self.active_squares@[j]) by {
                                    if j < m - 1 {
                                        assert(self.active_squares@[j] == mid.active_squares@[j]);
                                        assert(registered_effect_ok(*old(self), mid.active_squares@[j]));
                                    } else {
                                        assert(self.active_squares@[j] == effect);
                                    }
                                }
                                // every changed cell lies under some freshly registered effect
                                assert forall|x: int, y: int| #![trigger grid_cell(self.board@, x, y)]
                                    in_bounds(x, y) && self.cell_at(x, y) != old(self).cell_at(x, y)
                                    implies exists|j: int| old(self).active_squares@.len() <= j < m
                                        && in_window((#[trigger] self.active_squares@[j]).x as int,
                                            self.active_squares@[j].y as int, x, y) by {
                                    if in_window(wxi, wyi, x, y) {
                                        assert(self.active_squares@[m - 1].x == wx
                                            && self.active_squares@[m - 1].y == wy);
                                        assert(in_window(self.active_squares@[m - 1].x as int,
                                            self.active_squares@[m - 1].y as int, x, y));
                                    } else {
                                        assert(self.cell_at(x, y) == mid.cell_at(x, y));
                                        let j0 = choose|j0: int| old(self).active_squares@.len() <= j0
                                            < mid.active_squares@.len()
                                            && in_window((#[trigger] mid.active_squares@[j0]).x as int,
                                                mid.active_squares@[j0].y as int, x, y);
                                        assert(self.active_squares@[j0] == mid.active_squares@[j0]);
                                        assert(in_window(self.active_squares@[j0].x as int,
                                            self.active_squares@[j0].y as int, x, y));
                                    }
                                }
                                // effect origins stay pairwise distinct
                                assert forall|j1: int, j2: int| 0 <= j1 < j2 < m
                                    && old(self).active_squares@.len() <= j2
                                    implies !((#[trigger] self.active_squares@[j1]).x
                                            == (#[trigger] self.active_squares@[j2]).x
                                        && self.active_squares@[j1].y == self.active_squares@[j2].y) by {
                                    if j2 == m - 1 {
                                        if self.active_squares@[j1].x == self.active_squares@[j2].x
                                            && self.active_squares@[j1].y == self.active_squares@[j2].y {
                                            assert(self.active_squares@[j1] == mid.active_squares@[j1]);
                                            assert(mid.active_squares@[j1].x == wxi
                                                && mid.active_squares@[j1].y == wyi);
                                            assert(has_effect_at(mid.active_squares@, wxi, wyi));
                                        }
                                    } else {
                                        assert(self.active_squares@[j1] == mid.active_squares@[j1]);
                                        assert(self.active_squares@[j2] == mid.active_squares@[j2]);
                                    }
                                }
                                let ghost n = self.active_squares@.len();
                                assert forall|j: int| old(self).active_squares@.len() <= j < n
                                    implies new_effect_ok(*self, #[trigger] self.active_squares@[j]) by {
                                    let e = self.active_squares@[j];
                                    let ghost bk = if e.is_gold { TetrominoType::BonusGold } else {
                                        TetrominoType::BonusSilver };
                                    if j < n - 1 {
                                        assert(e == pre_push.active_squares@[j]);
                                        assert(new_effect_ok(pre_push, e));
                                    } else {
                                        assert(e == effect);
                                        assert(effect_wf(e));
                                    }
                                    assert forall|x: int, y: int| in_window(e.x as int, e.y as int, x, y)
                                        implies #[trigger] self.cell_at(x, y)
                                            == Some(Cell { kind: bk, piece_id: 0 }) by {
                                        assert(in_bounds(x, y));
                                        if j < n - 1 {
                                            assert(pre_push.cell_at(x, y) == Some(Cell { kind: bk, piece_id: 0 }));
                                            assert(self.cell_at(x, y) == pre_push.cell_at(x, y));
                                        } else {
                                            assert(self.cell_at(x, y) == pre_push.cell_at(x, y));
                                            assert(pre_push.cell_at(x, y) == Some(Cell { kind: bk, piece_id: 0 }));
                                        }
                                    }
                                }
                            }
                        }
                    }
                }
                wx = wx + 1;
            }
            wy = wy + 1;
        }
    }
}

/// One tick of an effect's blink clock: the timer counts down; when it
/// runs out the phase restarts, the flash toggles, and a cycle is spent
/// each time the flash turns off.
pub open spec fn effect_step(e: SquareEffect, dt: u32) -> SquareEffect {
    if e.timer > dt {
        SquareEffect { timer: (e.timer - dt) as u32, ..e }
    } else {
        let flash = !e.flash_on;
        SquareEffect {
            timer: crate::game::BLINK_PHASE_TIME,
            flash_on: flash,
            blinks_remaining: if !flash && e.blinks_remaining > 0 {
                (e.blinks_remaining - 1) as u32
            } else {
                e.blinks_remaining
            },
            ..e
        }
    }
}

/// The effect list after one tick: every effect stepped, those whose
/// blink budget ran out removed, order kept.
pub open spec fn surviving_effects(s: Seq<SquareEffect>, dt: u32) -> Seq<SquareEffect>
    decreases s.len(),
{
    if s.len() == 0 {
        Seq::empty()
    } else {
        let e2 = effect_step(s[0], dt);
        let rest = surviving_effects(s.drop_first(), dt);
        if e2.blinks_remaining > 0 { seq![e2] + rest } else { rest }
    }
}

pub proof fn lemma_surviving_push(s: Seq<SquareEffect>, e: SquareEffect, dt: u32)
    ensures
        surviving_effects(s.push(e), dt) == surviving_effects(s, dt)
            + (if effect_step(e, dt).blinks_remaining > 0 {
                seq![effect_step(e, dt)]
            } else {
                Seq::<SquareEffect>::empty()
            }),
    decreases s.len(),
{
    let stepped = effect_step(e, dt);
    let tail = if stepped.blinks_remaining > 0 { seq![stepped] } else { Seq::<SquareEffect>::empty() };
    let p = s.push(e);
    assert(p.len() == s.len() + 1);
    if s.len() == 0 {
        assert(p[0] == e);
        assert(p.drop_first() =~= Seq::<SquareEffect>::empty());
        assert(surviving_effects(p.drop_first(), dt) == Seq::<SquareEffect>::empty());
        assert(surviving_effects(p, dt) == (if effect_step(p[0], dt).blinks_remaining > 0 {
            seq![effect_step(p[0], dt)] + surviving_effects(p.drop_first(), dt)
        } else {
            surviving_effects(p.drop_first(), dt)
        }));
        assert(surviving_effects(s, dt) == Seq::<SquareEffect>::empty());
        assert(surviving_effects(p, dt) =~= surviving_effects(s, dt) + tail);
    } else {
        assert(p[0] == s[0]);
        assert(p.drop_first() =~= s.drop_first().push(e));
        lemma_surviving_push(s.drop_first(), e, dt);
        assert(surviving_effects(p, dt) == (if effect_step(p[0], dt).blinks_remaining > 0 {
            seq![effect_step(p[0], dt)] + surviving_effects(p.drop_first(), dt)
        } else {
            surviving_effects(p.drop_first(), dt)
        }));
        assert(surviving_effects(s, dt) == (if effect_step(s[0], dt).blinks_remaining > 0 {
            seq![effect_step(s[0], dt)] + surviving_effects(s.drop_first(), dt)
        } else {
            surviving_effects(s.drop_first(), dt)
        }));
        assert(surviving_effects(p, dt) =~= surviving_effects(s, dt) + tail);
    }
}

fn step_effect(e: SquareEffect, dt: u32) -> (r: SquareEffect)
    ensures
        r == effect_step(e, dt),
{
    if e.timer > dt {
        SquareEffect { timer: e.timer - dt, ..e }
    } else {
        let flash = !e.flash_on;
        let blinks = if !flash && e.blinks_remaining > 0 {
            e.blinks_remaining - 1
        } else {
            e.blinks_remaining
        };
        SquareEffect { timer: crate::game::BLINK_PHASE_TIME, flash_on: flash, blinks_remaining: blinks, ..e }
    }
}

impl GameState {
    /// Advance every bonus-square effect by `dt` and drop the ones
    /// whose blink budget is exhausted.
    pub fn update_square_effects(&mut self, dt: u32)
        requires
            old(self).wf(),
        ensures
            final(self).wf(),
            final(self).active_squares@ == surviving_effects(old(self).active_squares@, dt),
            *final(self) == (GameState { active_squares: final(self).active_squares, ..*old(self) }),
    {
        let mut pending: Vec<SquareEffect> = Vec::new();
        core::mem::swap(&mut pending, &mut self.active_squares);
        let ghost orig = pending@;
        proof {
            assert(pending@ =~= orig.subrange(orig.len() - pending@.len(), orig.len() as int));
            assert(orig.take(orig.len() - pending@.len()) =~= Seq::<SquareEffect>::empty());
            assert(self.active_squares@ =~= surviving_effects(orig.take(orig.len() - pending@.len()), dt));
        }
        while pending.len() > 0
            invariant
                orig == old(self).active_squares@,
                forall|j: int| 0 <= j < orig.len() ==> effect_wf(#[trigger] orig[j]),
                pending@.len() <= orig.len(),
                pending@ == orig.subrange(orig.len() - pending@.len(), orig.len() as int),
                self.active_squares@ == surviving_effects(
                    orig.take(orig.len() - pending@.len()),
                    dt,
                ),
                *self == (GameState { active_squares: self.active_squares, ..*old(self) }),
                self.wf(),
            decreases pending@.len(),
        {
            let ghost done = orig.take(orig.len() - pending@.len());
            let e = pending.remove(0);
            proof {
                assert(e == orig[done.len() as int]);
                assert(done.push(e) =~= orig.take(orig.len() - pending@.len()));
                lemma_surviving_push(done, e, dt);
            }
            let stepped = step_effect(e, dt);
            if stepped.blinks_remaining > 0 {
                self.active_squares.push(stepped);
                proof {
                    assert(self.active_squares@ =~= surviving_effects(done, dt) + seq![effect_step(e, dt)]);
                }
            }
        }
        proof {
            assert(orig.take(orig.len() as int) =~= orig);
        }
    }
}

/// What the detector records about a freshly registered effect, stated
/// against the board as it stood before the scan: its window qualified
/// then and had no effect anchored at it yet, its gold/silver
/// classification is exactly the window's kind-uniformity, and its
/// snapshot holds the window's sixteen replaced cells, row-major.
pub open spec fn registered_effect_ok(pre: GameState, e: SquareEffect) -> bool {
    &&& window_qualifies(pre, e.x as int, e.y as int)
    &&& !has_effect_at(pre.active_squares@, e.x as int, e.y as int)
    &&& e.is_gold == window_uniform(pre, e.x as int, e.y as int)
    &&& forall|dx: int, dy: int| 0 <= dx < 4 && 0 <= dy < 4
        ==> pre.cell_at(e.x + dx, e.y + dy) == Some(#[trigger] e.original@[4 * dy + dx])
}

/// What holds of every effect freshly registered by the detector: a
/// well-formed record, a full blink budget ahead, and a window that now
/// holds exactly its bonus filler.
pub open spec fn new_effect_ok(s: GameState, e: SquareEffect) -> bool {
    &&& effect_wf(e)
    &&& e.blinks_remaining == crate::game::BLINK_CYCLES
    &&& e.timer == crate::game::BLINK_PHASE_TIME
    &&& e.flash_on
    &&& forall|x: int, y: int| in_window(e.x as int, e.y as int, x, y)
        ==> #[trigger] s.cell_at(x, y) == Some(Cell {
            kind: if e.is_gold { TetrominoType::BonusGold } else { TetrominoType::BonusSilver },
            piece_id: 0,
        })
}

/// The whole effect of one detector scan, `check_for_4x4_squares`'s
/// contract as one relation: occupancy is preserved; cells change only
/// inside the windows of freshly registered effects, into their bonus
/// filler; each fresh effect records a window that qualified on the
/// pre-scan board, had no effect yet, and is classified gold exactly
/// when its sixteen recorded cells shared one kind; origins stay
/// distinct; and every window still qualifying afterwards has an
/// effect.
pub open spec fn detector_transition(pre: GameState, post: GameState) -> bool {
    &&& forall|x: int, y: int| in_bounds(x, y)
        ==> #[trigger] crate::game::grid_occupied(post.board@, x, y)
            == crate::game::grid_occupied(pre.board@, x, y)
    &&& forall|x: int, y: int| #![trigger grid_cell(post.board@, x, y)] in_bounds(x, y)
        ==> (post.cell_at(x, y) == pre.cell_at(x, y)
            || (post.cell_at(x, y) matches Some(c) && c.kind.is_bonus() && c.piece_id == 0))
    &&& post.active_squares@.len() >= pre.active_squares@.len()
    &&& forall|j: int| 0 <= j < pre.active_squares@.len()
        ==> post.active_squares@[j] == pre.active_squares@[j]
    &&& forall|j: int| pre.active_squares@.len() <= j < post.active_squares@.len()
        ==> new_effect_ok(post, #[trigger] post.active_squares@[j])
    &&& forall|j: int| pre.active_squares@.len() <= j < post.active_squares@.len()
        ==> registered_effect_ok(pre, #[trigger] post.active_squares@[j])
    &&& forall|x: int, y: int| #![trigger grid_cell(post.board@, x, y)] in_bounds(x, y)
        && post.cell_at(x, y) != pre.cell_at(x, y)
        ==> exists|j: int| pre.active_squares@.len() <= j < post.active_squares@.len()
            && in_window((#[trigger] post.active_squares@[j]).x as int,
                post.active_squares@[j].y as int, x, y)
    &&& forall|j1: int, j2: int| 0 <= j1 < j2 < post.active_squares@.len()
        && pre.active_squares@.len() <= j2
        ==> !((#[trigger] post.active_squares@[j1]).x == (#[trigger] post.active_squares@[j2]).x
            && post.active_squares@[j1].y == post.active_squares@[j2].y)
    &&& forall|a: int, b: int| window_origin_ok(a, b) && #[trigger] window_qualifies(post, a, b)
        ==> has_effect_at(post.active_squares@, a, b)
    &&& post == (GameState { board: post.board, active_squares: post.active_squares, ..pre })
}

} // verus!
