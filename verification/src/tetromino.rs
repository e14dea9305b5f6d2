use vstd::prelude::*;

verus! {

/// Kind of a piece.  The seven movable kinds are the classic tetromino
/// shapes.  The two bonus kinds mark locked filler cells of a converted
/// 4x4 bonus square; they never occur in an active, next or held piece.
#[derive(Clone, Copy, Debug, PartialEq, Eq, Structural)]
pub enum TetrominoType {
    I,
    O,
    T,
    S,
    Z,
    J,
    L,
    BonusGold,
    BonusSilver,
}

impl TetrominoType {
    /// True of the seven kinds a falling piece can have.
    pub open spec fn is_movable(self) -> bool {
        !(self is BonusGold || self is BonusSilver)
    }

    /// True of the two marker kinds of bonus filler cells.
    pub open spec fn is_bonus(self) -> bool {
        self is BonusGold || self is BonusSilver
    }
}

/// Position of a movable kind in the shape catalog and in the
/// per-kind spawn statistics.
pub open spec fn spec_kind_index(t: TetrominoType) -> int {
    match t {
        TetrominoType::I => 0,
        TetrominoType::O => 1,
        TetrominoType::T => 2,
        TetrominoType::S => 3,
        TetrominoType::Z => 4,
        TetrominoType::J => 5,
        TetrominoType::L => 6,
        TetrominoType::BonusGold => 7,
        TetrominoType::BonusSilver => 8,
    }
}

pub fn kind_index(t: TetrominoType) -> (r: usize)
    ensures
        r == spec_kind_index(t),
{
    match t {
        TetrominoType::I => 0,
        TetrominoType::O => 1,
        TetrominoType::T => 2,
        TetrominoType::S => 3,
        TetrominoType::Z => 4,
        TetrominoType::J => 5,
        TetrominoType::L => 6,
        TetrominoType::BonusGold => 7,
        TetrominoType::BonusSilver => 8,
    }
}

/// The movable kind at a given catalog position.
pub fn kind_from_index(i: usize) -> (t: TetrominoType)
    requires
        i < 7,
    ensures
        t.is_movable(),
        spec_kind_index(t) == i,
{
    match i {
        0 => TetrominoType::I,
        1 => TetrominoType::O,
        2 => TetrominoType::T,
        3 => TetrominoType::S,
        4 => TetrominoType::Z,
        5 => TetrominoType::J,
        _ => TetrominoType::L,
    }
}

/// Cell offsets of a movable kind's canonical (spawn) shape, relative to
/// the piece anchor.
pub open spec fn shape_offset(t: TetrominoType, i: int) -> (int, int) {
    match t {
        TetrominoType::I => if i == 0 { (0, 0) } else if i == 1 { (1, 0) } else if i == 2 { (2, 0) } else { (3, 0) },
        TetrominoType::O => if i == 0 { (0, 0) } else if i == 1 { (1, 0) } else if i == 2 { (0, 1) } else { (1, 1) },
        TetrominoType::T => if i == 0 { (1, 0) } else if i == 1 { (0, 1) } else if i == 2 { (1, 1) } else { (2, 1) },
        TetrominoType::S => if i == 0 { (1, 0) } else if i == 1 { (2, 0) } else if i == 2 { (0, 1) } else { (1, 1) },
        TetrominoType::Z => if i == 0 { (0, 0) } else if i == 1 { (1, 0) } else if i == 2 { (1, 1) } else { (2, 1) },
        TetrominoType::J => if i == 0 { (0, 0) } else if i == 1 { (0, 1) } else if i == 2 { (1, 1) } else { (2, 1) },
        TetrominoType::L => if i == 0 { (0, 0) } else if i == 1 { (1, 0) } else if i == 2 { (2, 0) } else { (0, 1) },
        _ => (0, 0),
    }
}

/// Canonical shape of a movable kind, as stored in a fresh piece.
pub fn shape_for(t: TetrominoType) -> (r: [[i32; 2]; 4])
    requires
        t.is_movable(),
    ensures
        forall|i: int| 0 <= i < 4 ==> (#[trigger] r[i])[0] == shape_offset(t, i).0
            && r[i][1] == shape_offset(t, i).1,
{
    match t {
        TetrominoType::I => [[0, 0], [1, 0], [2, 0], [3, 0]],
        TetrominoType::O => [[0, 0], [1, 0], [0, 1], [1, 1]],
        TetrominoType::T => [[1, 0], [0, 1], [1, 1], [2, 1]],
        TetrominoType::S => [[1, 0], [2, 0], [0, 1], [1, 1]],
        TetrominoType::Z => [[0, 0], [1, 0], [1, 1], [2, 1]],
        TetrominoType::J => [[0, 0], [0, 1], [1, 1], [2, 1]],
        _ => [[0, 0], [1, 0], [2, 0], [0, 1]],
    }
}

/// Rotation pivot of each movable kind.  O is rotation-invariant: a
/// quarter turn never consults its pivot.
pub open spec fn pivot_of(t: TetrominoType) -> (int, int) {
    match t {
        TetrominoType::I => (1, 0),
        TetrominoType::O => (0, 0),
        _ => (1, 1),
    }
}

/// A falling (or held, or queued) piece: four cell offsets, an anchor
/// position on the board, and a kind.  The colour a renderer shows is a
/// pure function of the kind and is not part of the core state.
#[derive(Clone, Copy, Debug)]
pub struct Tetromino {
    pub shape: [[i32; 2]; 4],
    pub pos: (i32, i32),
    pub t_type: TetrominoType,
}

/// A piece's shape is the canonical one for its kind.
pub open spec fn has_canonical_shape(p: Tetromino) -> bool {
    forall|i: int| 0 <= i < 4 ==> (#[trigger] p.shape[i])[0] == shape_offset(p.t_type, i).0
        && p.shape[i][1] == shape_offset(p.t_type, i).1
}

/// A freshly spawned piece of the given kind: canonical shape, anchored
/// at the canonical spawn position (centered, top row).
pub open spec fn is_spawned_piece(p: Tetromino, k: TetrominoType) -> bool {
    &&& p.t_type == k
    &&& p.pos.0 == 3
    &&& p.pos.1 == 0
    &&& has_canonical_shape(p)
}

impl Tetromino {
    pub fn new(t_type: TetrominoType) -> (r: Tetromino)
        requires
            t_type.is_movable(),
        ensures
            is_spawned_piece(r, t_type),
    {
        Tetromino { shape: shape_for(t_type), pos: (10 / 2 - 2, 0), t_type }
    }
}

/// Where a cell lands under a quarter turn about `pivot`: clockwise maps
/// a relative offset (x, y) to (y, -x), counter-clockwise to (-y, x).
pub open spec fn rotated_offset(pivot: (int, int), c: (int, int), clockwise: bool) -> (int, int) {
    if clockwise {
        (pivot.0 + (c.1 - pivot.1), pivot.1 - (c.0 - pivot.0))
    } else {
        (pivot.0 - (c.1 - pivot.1), pivot.1 + (c.0 - pivot.0))
    }
}

fn rotate_cell(px: i32, py: i32, x: i32, y: i32, clockwise: bool) -> (r: [i32; 2])
    requires
        -2 <= px <= 2,
        -2 <= py <= 2,
        -1000000 <= x <= 1000000,
        -1000000 <= y <= 1000000,
    ensures
        r[0] == rotated_offset((px as int, py as int), (x as int, y as int), clockwise).0,
        r[1] == rotated_offset((px as int, py as int), (x as int, y as int), clockwise).1,
{
    if clockwise {
        [px + (y - py), py - (x - px)]
    } else {
        [px - (y - py), py + (x - px)]
    }
}

/// The shape turned a quarter turn about its kind's pivot.  O is
/// rotation-invariant and comes back unchanged.  No wall-kick search is
/// performed; the caller rejects a rotation that would collide.
pub fn rotate_shape(shape: &[[i32; 2]; 4], t_type: TetrominoType, clockwise: bool) -> (r: [[i32; 2]; 4])
    requires
        forall|i: int| 0 <= i < 4 ==> -1000000 <= (#[trigger] shape[i])[0] <= 1000000
            && -1000000 <= shape[i][1] <= 1000000,
    ensures
        t_type is O ==> r == *shape,
        !(t_type is O) ==> forall|i: int| 0 <= i < 4 ==> (#[trigger] r[i])[0]
                == rotated_offset(pivot_of(t_type), (shape[i][0] as int, shape[i][1] as int), clockwise).0
            && r[i][1]
                == rotated_offset(pivot_of(t_type), (shape[i][0] as int, shape[i][1] as int), clockwise).1,
{
    let (px, py): (i32, i32) = match t_type {
        TetrominoType::I => (1, 0),
        TetrominoType::O => {
            return *shape;
        },
        _ => (1, 1),
    };
    let r0 = rotate_cell(px, py, shape[0][0], shape[0][1], clockwise);
    let r1 = rotate_cell(px, py, shape[1][0], shape[1][1], clockwise);
    let r2 = rotate_cell(px, py, shape[2][0], shape[2][1], clockwise);
    let r3 = rotate_cell(px, py, shape[3][0], shape[3][1], clockwise);
    [r0, r1, r2, r3]
}

} // verus!
