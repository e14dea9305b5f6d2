use vstd::prelude::*;

verus! {

/// Discrete occurrences of one tick, reported to the rendering and
/// audio collaborators.  The core never calls into them directly: it
/// fills this record and hands it back from `GameState::update`.
pub struct TickEvents {
    /// The active piece moved left, right or down one cell.
    pub piece_moved: bool,
    /// The active piece was rotated.
    pub piece_rotated: bool,
    /// The active piece was written into the board.
    pub piece_locked: bool,
    /// Full rows were found and the timed clear sequence began.
    pub lines_clearing_started: bool,
    /// The rows that began flashing, bottom of the board being row 19.
    pub clearing_rows: Vec<usize>,
    /// How many rows collapsed this tick.
    pub lines_cleared: u32,
    /// Bonus points awarded together with the collapse.
    pub clear_bonus_awarded: u32,
    /// 4x4 regions converted to gold bonus squares this tick.
    pub gold_squares_formed: u32,
    /// 4x4 regions converted to silver bonus squares this tick.
    pub silver_squares_formed: u32,
    /// The pause flag flipped.
    pub pause_toggled: bool,
    /// Panic mode was entered or left.
    pub panic_toggled: bool,
    /// A fresh piece could not spawn; the game ended this tick.
    pub game_over: bool,
}

impl TickEvents {
    /// No occurrence of any kind.
    pub open spec fn quiet(self) -> bool {
        &&& !self.piece_moved
        &&& !self.piece_rotated
        &&& !self.piece_locked
        &&& !self.lines_clearing_started
        &&& self.clearing_rows@.len() == 0
        &&& self.lines_cleared == 0
        &&& self.clear_bonus_awarded == 0
        &&& self.gold_squares_formed == 0
        &&& self.silver_squares_formed == 0
        &&& !self.pause_toggled
        &&& !self.panic_toggled
        &&& !self.game_over
    }

    /// No occurrence besides possibly a pause toggle.
    pub open spec fn quiet_but_pause(self) -> bool {
        &&& !self.piece_moved
        &&& !self.piece_rotated
        &&& !self.piece_locked
        &&& !self.lines_clearing_started
        &&& self.clearing_rows@.len() == 0
        &&& self.lines_cleared == 0
        &&& self.clear_bonus_awarded == 0
        &&& self.gold_squares_formed == 0
        &&& self.silver_squares_formed == 0
        &&& !self.panic_toggled
        &&& !self.game_over
    }

    pub fn new() -> (r: TickEvents)
        ensures
            r.quiet(),
    {
        TickEvents {
            piece_moved: false,
            piece_rotated: false,
            piece_locked: false,
            lines_clearing_started: false,
            clearing_rows: Vec::new(),
            lines_cleared: 0,
            clear_bonus_awarded: 0,
            gold_squares_formed: 0,
            silver_squares_formed: 0,
            pause_toggled: false,
            panic_toggled: false,
            game_over: false,
        }
    }
}

} // verus!
