use vstd::prelude::*;

verus! {

use crate::events::TickEvents;
use crate::game::{GameState, in_bounds, shape_cell, INITIAL_HORIZONTAL_DELAY,
    HORIZONTAL_REPEAT_DELAY};
use crate::tetromino::{Tetromino, pivot_of, rotate_shape, rotated_offset};

/// What the player is doing this tick, per logical key: an edge
/// ("pressed this tick") and a level ("held").  The caller samples its
/// input device and fills this in; the core never reads keys itself.
#[derive(Clone, Copy, Debug, PartialEq, Eq, Structural)]
pub struct InputSnapshot {
    pub left_pressed: bool,
    pub left_held: bool,
    pub right_pressed: bool,
    pub right_held: bool,
    /// Hard drop.
    pub up_pressed: bool,
    /// Soft drop.
    pub down_held: bool,
    pub rotate_cw_pressed: bool,
    pub rotate_ccw_pressed: bool,
    pub hold_pressed: bool,
    pub pause_pressed: bool,
}

impl InputSnapshot {
    /// No key pressed or held.
    pub fn released() -> (r: InputSnapshot)
        ensures
            r == (InputSnapshot {
                left_pressed: false,
                left_held: false,
                right_pressed: false,
                right_held: false,
                up_pressed: false,
                down_held: false,
                rotate_cw_pressed: false,
                rotate_ccw_pressed: false,
                hold_pressed: false,
                pause_pressed: false,
            }),
    {
        InputSnapshot {
            left_pressed: false,
            left_held: false,
            right_pressed: false,
            right_held: false,
            up_pressed: false,
            down_held: false,
            rotate_cw_pressed: false,
            rotate_ccw_pressed: false,
            hold_pressed: false,
            pause_pressed: false,
        }
    }
}

/// One tick of one direction's auto-repeat, `blocked` being the
/// collision gate: a fresh press fires at once and arms the initial
/// delay; a held key counts its timer down and fires when it runs out,
/// re-arming the shorter repeat delay; a released key clears the timer.
/// The pair is (whether the piece moves, the new timer).
pub open spec fn repeat_decision(timer: u32, dt: u32, pressed: bool, held: bool, blocked: bool) -> (bool, u32) {
    if pressed {
        if blocked {
            (false, timer)
        } else {
            (true, INITIAL_HORIZONTAL_DELAY)
        }
    } else if held {
        let t2 = if timer > dt { (timer - dt) as u32 } else { 0u32 };
        if t2 == 0 {
            if blocked {
                (false, t2)
            } else {
                (true, HORIZONTAL_REPEAT_DELAY)
            }
        } else {
            (false, t2)
        }
    } else {
        (false, 0u32)
    }
}

/// Folding `repeat_decision` over a run of held ticks (no new press,
/// never blocked): how many moves fire and what the timer ends at.
pub open spec fn repeat_run(timer: u32, dts: Seq<u32>) -> (int, u32)
    decreases dts.len(),
{
    if dts.len() == 0 {
        (0, timer)
    } else {
        let step = repeat_decision(timer, dts[0], false, true, false);
        let rest = repeat_run(step.1, dts.drop_first());
        ((if step.0 { 1int } else { 0int }) + rest.0, rest.1)
    }
}

pub open spec fn sum_of(dts: Seq<u32>) -> int
    decreases dts.len(),
{
    if dts.len() == 0 {
        0
    } else {
        dts[0] + sum_of(dts.drop_first())
    }
}

/// Holding a direction fires no move while less time than the armed
/// delay has elapsed, and the countdown keeps the exact remainder.
pub proof fn lemma_held_quiet_before_deadline(timer: u32, dts: Seq<u32>)
    requires
        sum_of(dts) < timer,
    ensures
        repeat_run(timer, dts).0 == 0,
        repeat_run(timer, dts).1 == timer - sum_of(dts),
    decreases dts.len(),
{
    if dts.len() > 0 {
        assert(sum_of(dts.drop_first()) >= 0) by {
            lemma_sum_nonneg(dts.drop_first());
        }
        let step = repeat_decision(timer, dts[0], false, true, false);
        assert(step.1 == timer - dts[0]);
        lemma_held_quiet_before_deadline(step.1, dts.drop_first());
    }
}

pub proof fn lemma_sum_nonneg(dts: Seq<u32>)
    ensures
        sum_of(dts) >= 0,
    decreases dts.len(),
{
    if dts.len() > 0 {
        lemma_sum_nonneg(dts.drop_first());
    }
}

/// The auto-repeat law: after a fresh press moves the piece and arms
/// the initial delay, continuing to hold produces no further move while
/// less than `INITIAL_HORIZONTAL_DELAY` has elapsed; the tick on which
/// the total reaches the delay moves the piece exactly once more and
/// re-arms the shorter `HORIZONTAL_REPEAT_DELAY`, from which the same
/// cadence repeats.
pub proof fn lemma_auto_repeat_law(dts: Seq<u32>, last: u32)
    requires
        sum_of(dts) < INITIAL_HORIZONTAL_DELAY,
        sum_of(dts) + last >= INITIAL_HORIZONTAL_DELAY,
    ensures
        repeat_decision(0, 0, true, false, false)
            == (true, INITIAL_HORIZONTAL_DELAY),
        repeat_run(INITIAL_HORIZONTAL_DELAY, dts).0 == 0,
        repeat_run(INITIAL_HORIZONTAL_DELAY, dts.push(last))
            == (1int, HORIZONTAL_REPEAT_DELAY),
{
    lemma_held_quiet_before_deadline(INITIAL_HORIZONTAL_DELAY, dts);
    lemma_run_push(INITIAL_HORIZONTAL_DELAY, dts, last);
    let t_end = repeat_run(INITIAL_HORIZONTAL_DELAY, dts).1;
    assert(t_end == INITIAL_HORIZONTAL_DELAY - sum_of(dts));
    assert(repeat_decision(t_end, last, false, true, false)
        == (true, HORIZONTAL_REPEAT_DELAY));
}

pub proof fn lemma_run_push(timer: u32, dts: Seq<u32>, last: u32)
    ensures
        repeat_run(timer, dts.push(last)).0 == repeat_run(timer, dts).0
            + (if repeat_decision(repeat_run(timer, dts).1, last, false, true, false).0 { 1int } else { 0int }),
        repeat_run(timer, dts.push(last)).1
            == repeat_decision(repeat_run(timer, dts).1, last, false, true, false).1,
    decreases dts.len(),
{
    let p = dts.push(last);
    assert(p.len() == dts.len() + 1);
    if dts.len() == 0 {
        assert(p[0] == last);
        assert(p.drop_first() =~= Seq::<u32>::empty());
        let step = repeat_decision(timer, last, false, true, false);
        assert(repeat_run(step.1, p.drop_first()) == (0int, step.1));
        assert(repeat_run(timer, p).0 == (if step.0 { 1int } else { 0int }));
        assert(repeat_run(timer, p).1 == step.1);
        assert(repeat_run(timer, dts) == (0int, timer));
    } else {
        assert(p[0] == dts[0]);
        assert(p.drop_first() =~= dts.drop_first().push(last));
        let step = repeat_decision(timer, dts[0], false, true, false);
        lemma_run_push(step.1, dts.drop_first(), last);
        assert(repeat_run(timer, p).0
            == (if step.0 { 1int } else { 0int }) + repeat_run(step.1, p.drop_first()).0);
        assert(repeat_run(timer, p).1 == repeat_run(step.1, p.drop_first()).1);
        assert(repeat_run(timer, dts).0
            == (if step.0 { 1int } else { 0int }) + repeat_run(step.1, dts.drop_first()).0);
        assert(repeat_run(timer, dts).1 == repeat_run(step.1, dts.drop_first()).1);
    }
}

fn repeat_step(timer: u32, dt: u32, pressed: bool, held: bool, blocked: bool) -> (r: (bool, u32))
    ensures
        r == repeat_decision(timer, dt, pressed, held, blocked),
{
    if pressed {
        if blocked {
            (false, timer)
        } else {
            (true, INITIAL_HORIZONTAL_DELAY)
        }
    } else if held {
        let t2 = if timer > dt { timer - dt } else { 0 };
        if t2 == 0 {
            if blocked {
                (false, t2)
            } else {
                (true, HORIZONTAL_REPEAT_DELAY)
            }
        } else {
            (false, t2)
        }
    } else {
        (false, 0)
    }
}

/// The piece shifted one cell left or right.
pub open spec fn shifted_piece(t: Tetromino, dir_left: bool) -> Tetromino {
    Tetromino {
        pos: (if dir_left { (t.pos.0 - 1) as i32 } else { (t.pos.0 + 1) as i32 }, t.pos.1),
        ..t
    }
}

/// The state after one tick of one direction's auto-repeat: the timer
/// follows `repeat_decision` and the piece shifts when the decision
/// fires.  Without an active piece nothing changes.
#[verifier::opaque]
pub open spec fn horizontal_result(s: GameState, dir_left: bool, delta: u32, pressed: bool, held: bool) -> GameState {
    match s.tetromino {
        None => s,
        Some(t) => {
            let sp = shifted_piece(t, dir_left);
            let blocked = crate::game::grid_hits(s.board@, sp.shape, sp.pos);
            let d = repeat_decision(
                if dir_left { s.left_timer } else { s.right_timer },
                delta,
                pressed,
                held,
                blocked,
            );
            GameState {
                tetromino: if d.0 { Some(sp) } else { s.tetromino },
                left_timer: if dir_left { d.1 } else { s.left_timer },
                right_timer: if dir_left { s.right_timer } else { d.1 },
                ..s
            }
        },
    }
}

/// Whether that tick moves the piece.
#[verifier::opaque]
pub open spec fn horizontal_fires(s: GameState, dir_left: bool, delta: u32, pressed: bool, held: bool) -> bool {
    match s.tetromino {
        None => false,
        Some(t) => {
            let sp = shifted_piece(t, dir_left);
            repeat_decision(
                if dir_left { s.left_timer } else { s.right_timer },
                delta,
                pressed,
                held,
                crate::game::grid_hits(s.board@, sp.shape, sp.pos),
            ).0
        },
    }
}

/// The turned shape itself; `is_rotated_shape` has exactly one
/// witness, so this is a proper function of the piece.
pub open spec fn rotated_shape_fn(t: Tetromino, clockwise: bool) -> [[i32; 2]; 4] {
    choose|ns: [[i32; 2]; 4]| is_rotated_shape(ns, t, clockwise)
}

/// A rotation attempt would go through: the turned shape does not
/// collide at the piece's position.
#[verifier::opaque]
pub open spec fn rotation_succeeds(s: GameState, clockwise: bool) -> bool {
    s.tetromino matches Some(t)
        && !crate::game::grid_hits(s.board@, rotated_shape_fn(t, clockwise), t.pos)
}

/// The state after one (possibly skipped) rotation attempt: with the
/// key pressed the turned shape is installed when it fits, else
/// nothing changes.
#[verifier::opaque]
pub open spec fn rotate_result(s: GameState, pressed: bool, clockwise: bool) -> GameState {
    if !pressed {
        s
    } else {
        match s.tetromino {
            None => s,
            Some(t) => {
                let ns = rotated_shape_fn(t, clockwise);
                GameState {
                    tetromino: if !crate::game::grid_hits(s.board@, ns, t.pos) {
                        Some(Tetromino { shape: ns, ..t })
                    } else {
                        s.tetromino
                    },
                    ..s
                }
            },
        }
    }
}

/// There is exactly one turned shape.
pub proof fn lemma_rotated_shape_unique(a: [[i32; 2]; 4], b: [[i32; 2]; 4], t: Tetromino, clockwise: bool)
    requires
        is_rotated_shape(a, t, clockwise),
        is_rotated_shape(b, t, clockwise),
    ensures
        a == b,
{
    if !(t.t_type is O) {
        assert forall|i: int| 0 <= i < 4 implies #[trigger] a[i] == b[i] by {
            assert(a[i] =~= b[i]);
        }
        assert(a =~= b);
    }
}

/// The stage functions leave the game-over flag alone.
proof fn lemma_horizontal_frames(s: GameState, dir_left: bool, delta: u32, pressed: bool, held: bool)
    ensures
        horizontal_result(s, dir_left, delta, pressed, held).game_over == s.game_over,
{
    reveal(horizontal_result);
}

proof fn lemma_rotate_frames(s: GameState, pressed: bool, clockwise: bool)
    ensures
        rotate_result(s, pressed, clockwise).game_over == s.game_over,
        rotate_result(s, pressed, clockwise).tetromino is Some == s.tetromino is Some,
{
    reveal(rotate_result);
}

proof fn lemma_soft_frames(s: GameState)
    ensures
        soft_step_result(s).game_over == s.game_over,
{
    reveal(soft_step_result);
}

/// A skipped rotation attempt leaves the state alone.
pub proof fn lemma_rotate_result_skip(s: GameState, clockwise: bool)
    ensures
        rotate_result(s, false, clockwise) == s,
{
    reveal(rotate_result);
}

/// A witness of `is_rotated_shape` pins down `rotated_shape_fn`.
pub proof fn lemma_rotated_shape_fn(t: Tetromino, clockwise: bool, ns: [[i32; 2]; 4])
    requires
        is_rotated_shape(ns, t, clockwise),
    ensures
        rotated_shape_fn(t, clockwise) == ns,
{
    let picked = choose|p: [[i32; 2]; 4]| is_rotated_shape(p, t, clockwise);
    assert(is_rotated_shape(picked, t, clockwise));
    lemma_rotated_shape_unique(picked, ns, t, clockwise);
}

/// The state after one soft-drop step: gravity rearmed, the piece one
/// cell lower when nothing blocks it.
#[verifier::opaque]
pub open spec fn soft_step_result(s: GameState) -> GameState {
    match s.tetromino {
        None => GameState { fall_timer: 0, ..s },
        Some(t) => {
            let bp = (t.pos.0, (t.pos.1 + 1) as i32);
            GameState {
                tetromino: if !crate::game::grid_hits(s.board@, t.shape, bp) {
                    Some(Tetromino { pos: bp, ..t })
                } else {
                    s.tetromino
                },
                fall_timer: 0,
                ..s
            }
        },
    }
}

/// Whether that soft-drop step moves the piece.
#[verifier::opaque]
pub open spec fn soft_drop_moves(s: GameState) -> bool {
    s.tetromino matches Some(t)
        && !crate::game::grid_hits(s.board@, t.shape, (t.pos.0, (t.pos.1 + 1) as i32))
}

/// `process_input`'s contract as one relation.  A hard drop lets the
/// piece fall and locks it; otherwise the two auto-repeat steps, the
/// two rotation attempts, the soft drop and the hold swap run in
/// order, each over the state the previous one left.  `ev0`/`ev1` are
/// the event record before and after: moves, rotations, the lock, the
/// started clear and a game over are reported exactly when they
/// happened.
#[verifier::opaque]
pub open spec fn input_transition(
    pre: GameState,
    post: GameState,
    delta: u32,
    input: InputSnapshot,
    ev0: TickEvents,
    ev1: TickEvents,
) -> bool {
    if input.up_pressed {
        &&& (exists|mid: GameState| #[trigger] crate::game::lock_transition(mid, post)
            && (pre.tetromino is None ==> mid == pre)
            && (pre.tetromino matches Some(t) ==> exists|d: int|
                #[trigger] crate::game::dropped_outcome(pre, mid, t, d)))
        &&& ev1 == (TickEvents {
            piece_locked: ev0.piece_locked || pre.tetromino is Some,
            lines_clearing_started: ev0.lines_clearing_started || post.clearing_lines@.len() > 0,
            clearing_rows: ev1.clearing_rows,
            game_over: ev0.game_over || (post.game_over && !pre.game_over),
            ..ev0
        })
        &&& (post.clearing_lines@.len() > 0 ==> ev1.clearing_rows@ == post.clearing_lines@)
        &&& (post.clearing_lines@.len() == 0 ==> ev1.clearing_rows == ev0.clearing_rows)
    } else {
        match pre.tetromino {
            None => post == pre && ev1 == ev0,
            Some(cur) => {
                let s1 = horizontal_result(pre, true, delta, input.left_pressed, input.left_held);
                let s2 = horizontal_result(s1, false, delta, input.right_pressed, input.right_held);
                let s3 = rotate_result(s2, input.rotate_ccw_pressed, false);
                let s4 = rotate_result(s3, input.rotate_cw_pressed, true);
                let s5 = if input.down_held { soft_step_result(s4) } else { s4 };
                &&& (input.hold_pressed ==> crate::game::hold_transition(s5, post))
                &&& (!input.hold_pressed ==> post == s5)
                &&& ev1 == (TickEvents {
                    piece_moved: ev0.piece_moved
                        || horizontal_fires(pre, true, delta, input.left_pressed, input.left_held)
                        || horizontal_fires(s1, false, delta, input.right_pressed, input.right_held)
                        || (input.down_held && soft_drop_moves(s4)),
                    piece_rotated: ev0.piece_rotated
                        || (input.rotate_ccw_pressed && rotation_succeeds(s2, false))
                        || (input.rotate_cw_pressed && rotation_succeeds(s3, true)),
                    game_over: ev0.game_over || (post.game_over && !pre.game_over),
                    ..ev0
                })
            },
        }
    }
}

/// Introduction form of `input_transition` for the hard-drop branch.
proof fn lemma_input_transition_drop(
    pre: GameState,
    mid: GameState,
    post: GameState,
    delta: u32,
    input: InputSnapshot,
    ev0: TickEvents,
    ev1: TickEvents,
)
    requires
        input.up_pressed,
        crate::game::lock_transition(mid, post),
        pre.tetromino is None ==> mid == pre,
        pre.tetromino matches Some(t) ==> exists|d: int|
            #[trigger] crate::game::dropped_outcome(pre, mid, t, d),
        ev1 == (TickEvents {
            piece_locked: ev0.piece_locked || pre.tetromino is Some,
            lines_clearing_started: ev0.lines_clearing_started || post.clearing_lines@.len() > 0,
            clearing_rows: ev1.clearing_rows,
            game_over: ev0.game_over || (post.game_over && !pre.game_over),
            ..ev0
        }),
        post.clearing_lines@.len() > 0 ==> ev1.clearing_rows@ == post.clearing_lines@,
        post.clearing_lines@.len() == 0 ==> ev1.clearing_rows == ev0.clearing_rows,
    ensures
        input_transition(pre, post, delta, input, ev0, ev1),
{
    reveal(input_transition);
}

/// Introduction form of `input_transition` for a tick with no active
/// piece and no hard drop: a safe no-op.
proof fn lemma_input_transition_noop(pre: GameState, delta: u32, input: InputSnapshot, ev0: TickEvents)
    requires
        !input.up_pressed,
        pre.tetromino is None,
    ensures
        input_transition(pre, pre, delta, input, ev0, ev0),
{
    reveal(input_transition);
}

/// Introduction form of `input_transition` for the ordinary branch,
/// from the chain of intermediate states.
#[verifier::rlimit(100)]
proof fn lemma_input_transition_steps(
    pre: GameState,
    post: GameState,
    delta: u32,
    input: InputSnapshot,
    ev0: TickEvents,
    ev1: TickEvents,
    g4: GameState,
    g5: GameState,
)
    requires
        !input.up_pressed,
        pre.tetromino is Some,
        g4 == rotate_result(
            rotate_result(
                horizontal_result(
                    horizontal_result(pre, true, delta, input.left_pressed, input.left_held),
                    false, delta, input.right_pressed, input.right_held),
                input.rotate_ccw_pressed, false),
            input.rotate_cw_pressed, true),
        g5 == (if input.down_held { soft_step_result(g4) } else { g4 }),
        input.hold_pressed ==> crate::game::hold_transition(g5, post),
        !input.hold_pressed ==> post == g5,
        ev1 == (TickEvents {
            piece_moved: ev0.piece_moved
                || horizontal_fires(pre, true, delta, input.left_pressed, input.left_held)
                || horizontal_fires(
                    horizontal_result(pre, true, delta, input.left_pressed, input.left_held),
                    false, delta, input.right_pressed, input.right_held)
                || (input.down_held && soft_drop_moves(g4)),
            piece_rotated: ev0.piece_rotated
                || (input.rotate_ccw_pressed && rotation_succeeds(
                    horizontal_result(
                        horizontal_result(pre, true, delta, input.left_pressed, input.left_held),
                        false, delta, input.right_pressed, input.right_held), false))
                || (input.rotate_cw_pressed && rotation_succeeds(
                    rotate_result(
                        horizontal_result(
                            horizontal_result(pre, true, delta, input.left_pressed, input.left_held),
                            false, delta, input.right_pressed, input.right_held),
                        input.rotate_ccw_pressed, false), true)),
            game_over: ev0.game_over || (post.game_over && !pre.game_over),
            ..ev0
        }),
    ensures
        input_transition(pre, post, delta, input, ev0, ev1),
        post.board == pre.board,
        post.score == pre.score,
        post.lines_cleared == pre.lines_cleared,
        post.next_piece_id == pre.next_piece_id,
        post.active_squares == pre.active_squares,
        post.clearing_lines == pre.clearing_lines,
        post.line_clear_timer == pre.line_clear_timer,
        post.merge_bonus_pending == pre.merge_bonus_pending,
        post.paused == pre.paused,
        post.in_panic == pre.in_panic,
{
    reveal(input_transition);
    reveal(crate::game::hold_transition);
    reveal(horizontal_result);
    reveal(rotate_result);
    reveal(soft_step_result);
}

impl GameState {
    /// One tick of the left or right auto-repeat: decide per
    /// `repeat_decision` against the piece's current position and move
    /// the piece when the decision fires.
    pub fn horizontal_step(&mut self, dir_left: bool, delta: u32, pressed: bool, held: bool) -> (moved: bool)
        requires
            old(self).wf(),
            old(self).tetromino is Some,
        ensures
            final(self).wf(),
            final(self).tetromino is Some,
            *final(self) == horizontal_result(*old(self), dir_left, delta, pressed, held),
            moved == horizontal_fires(*old(self), dir_left, delta, pressed, held),
    {
        proof {
            reveal(horizontal_result);
            reveal(horizontal_fires);
        }
        let t = match self.tetromino {
            Some(t) => t,
            None => {
                proof {
                    assert(false);
                }
                return false;
            },
        };
        proof {
            assert(in_bounds(shape_cell(t.shape, t.pos, 0).0, shape_cell(t.shape, t.pos, 0).1));
        }
        let dx: i32 = if dir_left { -1 } else { 1 };
        let blocked = self.check_collision(&t.shape, (t.pos.0 + dx, t.pos.1));
        let timer = if dir_left { self.left_timer } else { self.right_timer };
        let step = repeat_step(timer, delta, pressed, held, blocked);
        if dir_left {
            self.left_timer = step.1;
        } else {
            self.right_timer = step.1;
        }
        if step.0 {
            proof {
                let sp = shifted_piece(t, dir_left);
                assert(!self.hits(sp.shape, sp.pos));
                assert forall|i: int| 0 <= i < 4 implies in_bounds(
                    #[trigger] shape_cell(t.shape, t.pos, i).0 + dx,
                    shape_cell(t.shape, t.pos, i).1 + 0,
                ) by {
                    assert(!self.hit_at(sp.shape, sp.pos, i));
                }
            }
            self.move_tetromino((dx, 0));
        }
        step.0
    }

    /// Try to rotate the active piece a quarter turn; the rotation is
    /// rejected (shape unchanged) when the turned shape would collide.
    /// No-op without an active piece.
    pub fn try_rotate(&mut self, clockwise: bool) -> (rotated: bool)
        requires
            old(self).wf(),
        ensures
            final(self).wf(),
            old(self).tetromino is None ==> !rotated && *final(self) == *old(self),
            *final(self) == rotate_result(*old(self), true, clockwise),
            rotated == rotation_succeeds(*old(self), clockwise),
    {
        proof {
            reveal(rotate_result);
            reveal(rotation_succeeds);
        }
        let t = match self.tetromino {
            Some(t) => t,
            None => {
                return false;
            },
        };
        proof {
            assert(in_bounds(shape_cell(t.shape, t.pos, 0).0, shape_cell(t.shape, t.pos, 0).1));
            assert(-3 <= t.shape[0][0] - pivot_of(t.t_type).0 <= 3);
        }
        let ns = rotate_shape(&t.shape, t.t_type, clockwise);
        proof {
            assert forall|i: int| 0 <= i < 4 implies {
                let piv = pivot_of(t.t_type);
                -3 <= (#[trigger] ns[i])[0] - piv.0 <= 3 && -3 <= ns[i][1] - piv.1 <= 3
            } by {
                assert(-3 <= t.shape[i][0] - pivot_of(t.t_type).0 <= 3);
                assert(-3 <= t.shape[i][1] - pivot_of(t.t_type).1 <= 3);
            }
            assert(is_rotated_shape(ns, t, clockwise));
            lemma_rotated_shape_fn(t, clockwise, ns);
        }
        if !self.check_collision(&ns, t.pos) {
            proof {
                assert forall|i: int| 0 <= i < 4 implies in_bounds(
                    #[trigger] shape_cell(ns, t.pos, i).0,
                    shape_cell(ns, t.pos, i).1,
                ) by {
                    assert(!self.hit_at(ns, t.pos, i));
                }
            }
            self.set_tetromino_shape(ns);
            true
        } else {
            false
        }
    }

    /// One soft-drop step: reset the gravity accumulator and move the
    /// piece one cell down when nothing blocks it.  No-op without an
    /// active piece (the accumulator is still reset).
    pub fn soft_drop_step(&mut self) -> (moved: bool)
        requires
            old(self).wf(),
        ensures
            final(self).wf(),
            *final(self) == soft_step_result(*old(self)),
            moved == soft_drop_moves(*old(self)),
    {
        proof {
            reveal(soft_step_result);
            reveal(soft_drop_moves);
        }
        self.fall_timer = 0;
        let t = match self.tetromino {
            Some(t) => t,
            None => {
                return false;
            },
        };
        proof {
            assert(in_bounds(shape_cell(t.shape, t.pos, 0).0, shape_cell(t.shape, t.pos, 0).1));
        }
        if !self.check_collision(&t.shape, (t.pos.0, t.pos.1 + 1)) {
            proof {
                assert forall|i: int| 0 <= i < 4 implies in_bounds(
                    #[trigger] shape_cell(t.shape, t.pos, i).0 + 0,
                    shape_cell(t.shape, t.pos, i).1 + 1,
                ) by {
                    assert(!self.hit_at(t.shape, (t.pos.0, (t.pos.1 + 1) as i32), i));
                    assert(shape_cell(t.shape, (t.pos.0, (t.pos.1 + 1) as i32), i)
                        == (shape_cell(t.shape, t.pos, i).0, shape_cell(t.shape, t.pos, i).1 + 1));
                }
            }
            self.move_tetromino((0, 1));
            true
        } else {
            false
        }
    }
}

impl GameState {
    /// The hard-drop branch of input handling: let the piece fall to
    /// the floor, lock it, and record the occurrences.
    fn hard_drop_step(&mut self, events: &mut TickEvents)
        requires
            old(self).wf(),
        ensures
            final(self).wf(),
            final(self).active_squares@.len() >= old(self).active_squares@.len(),
            forall|j: int| 0 <= j < old(self).active_squares@.len()
                ==> final(self).active_squares@[j] == old(self).active_squares@[j],
            final(self).in_panic == old(self).in_panic,
            final(self).paused == old(self).paused,
            final(self).score == old(self).score,
            final(self).lines_cleared == old(self).lines_cleared,
            final(events).lines_cleared == old(events).lines_cleared,
            final(events).clear_bonus_awarded == old(events).clear_bonus_awarded,
            final(events).pause_toggled == old(events).pause_toggled,
            final(events).panic_toggled == old(events).panic_toggled,
            exists|mid: GameState| #[trigger] crate::game::lock_transition(mid, *final(self))
                && (old(self).tetromino is None ==> mid == *old(self))
                && (old(self).tetromino matches Some(t) ==> exists|d: int|
                    #[trigger] crate::game::dropped_outcome(*old(self), mid, t, d)),
            *final(events) == (TickEvents {
                piece_locked: old(events).piece_locked || old(self).tetromino is Some,
                lines_clearing_started: old(events).lines_clearing_started
                    || final(self).clearing_lines@.len() > 0,
                clearing_rows: final(events).clearing_rows,
                game_over: old(events).game_over
                    || (final(self).game_over && !old(self).game_over),
                ..*old(events)
            }),
            final(self).clearing_lines@.len() > 0
                ==> final(events).clearing_rows@ == final(self).clearing_lines@,
            final(self).clearing_lines@.len() == 0
                ==> final(events).clearing_rows == old(events).clearing_rows,
    {
        let had = self.tetromino.is_some();
        let was_over = self.game_over;
        self.drop_to_floor();
        let ghost mid = *self;
        self.lock_tetromino();
        if had {
            events.piece_locked = true;
        }
        if self.clearing_lines.len() > 0 {
            events.lines_clearing_started = true;
            events.clearing_rows = crate::game::copy_lines(&self.clearing_lines);
        }
        if self.game_over && !was_over {
            events.game_over = true;
        }
        proof {
            assert(crate::game::lock_transition(mid, *self));
        }
    }

    /// The hold stage of input handling.
    fn hold_stage(&mut self, pressed: bool, events: &mut TickEvents)
        requires
            old(self).wf(),
        ensures
            final(self).wf(),
            pressed ==> crate::game::hold_transition(*old(self), *final(self)),
            !pressed ==> *final(self) == *old(self),
            final(self).board == old(self).board,
            final(self).score == old(self).score,
            final(self).lines_cleared == old(self).lines_cleared,
            final(self).next_piece_id == old(self).next_piece_id,
            final(self).active_squares == old(self).active_squares,
            final(self).clearing_lines == old(self).clearing_lines,
            final(self).line_clear_timer == old(self).line_clear_timer,
            final(self).merge_bonus_pending == old(self).merge_bonus_pending,
            final(self).paused == old(self).paused,
            final(self).in_panic == old(self).in_panic,
            *final(events) == (TickEvents { game_over: final(events).game_over, ..*old(events) }),
            final(events).game_over == (old(events).game_over
                || (final(self).game_over && !old(self).game_over)),
    {
        if pressed {
            let was_over = self.game_over;
            self.hold_swap();
            if self.game_over && !was_over {
                events.game_over = true;
            }
        }
    }

    /// The steering half of input handling: the two auto-repeat steps
    /// and the two rotation attempts, in order.
    #[verifier::rlimit(100)]
    fn steer_step(&mut self, delta: u32, input: &InputSnapshot, events: &mut TickEvents)
        requires
            old(self).wf(),
            old(self).tetromino is Some,
        ensures
            final(self).wf(),
            final(self).tetromino is Some,
            final(self).game_over == old(self).game_over,
            *final(self) == rotate_result(
                rotate_result(
                    horizontal_result(
                        horizontal_result(*old(self), true, delta, input.left_pressed, input.left_held),
                        false, delta, input.right_pressed, input.right_held),
                    input.rotate_ccw_pressed, false),
                input.rotate_cw_pressed, true),
            *final(events) == (TickEvents {
                piece_moved: old(events).piece_moved
                    || horizontal_fires(*old(self), true, delta, input.left_pressed, input.left_held)
                    || horizontal_fires(
                        horizontal_result(*old(self), true, delta, input.left_pressed, input.left_held),
                        false, delta, input.right_pressed, input.right_held),
                piece_rotated: old(events).piece_rotated
                    || (input.rotate_ccw_pressed && rotation_succeeds(
                        horizontal_result(
                            horizontal_result(*old(self), true, delta, input.left_pressed, input.left_held),
                            false, delta, input.right_pressed, input.right_held), false))
                    || (input.rotate_cw_pressed && rotation_succeeds(
                        rotate_result(
                            horizontal_result(
                                horizontal_result(*old(self), true, delta, input.left_pressed, input.left_held),
                                false, delta, input.right_pressed, input.right_held),
                            input.rotate_ccw_pressed, false), true)),
                ..*old(events)
            }),
    {
        let lm = self.horizontal_step(true, delta, input.left_pressed, input.left_held);
        if lm {
            events.piece_moved = true;
        }
        let ghost g1 = *self;
        let rm = self.horizontal_step(false, delta, input.right_pressed, input.right_held);
        if rm {
            events.piece_moved = true;
        }
        let ghost g2 = *self;
        let mut rot1 = false;
        if input.rotate_ccw_pressed {
            rot1 = self.try_rotate(false);
            if rot1 {
                events.piece_rotated = true;
            }
        }
        let ghost g3 = *self;
        let mut rot2 = false;
        if input.rotate_cw_pressed {
            rot2 = self.try_rotate(true);
            if rot2 {
                events.piece_rotated = true;
            }
        }
        proof {
            if !input.rotate_ccw_pressed {
                lemma_rotate_result_skip(g2, false);
            }
            if !input.rotate_cw_pressed {
                lemma_rotate_result_skip(g3, true);
            }
            assert(g3 == rotate_result(g2, input.rotate_ccw_pressed, false));
            assert(*self == rotate_result(g3, input.rotate_cw_pressed, true));
            assert(rot1 == (input.rotate_ccw_pressed && rotation_succeeds(g2, false)));
            assert(rot2 == (input.rotate_cw_pressed && rotation_succeeds(g3, true)));
            assert(lm == horizontal_fires(*old(self), true, delta, input.left_pressed, input.left_held));
            assert(rm == horizontal_fires(g1, false, delta, input.right_pressed, input.right_held));
            lemma_horizontal_frames(*old(self), true, delta, input.left_pressed, input.left_held);
            lemma_horizontal_frames(g1, false, delta, input.right_pressed, input.right_held);
            lemma_rotate_frames(g2, input.rotate_ccw_pressed, false);
            lemma_rotate_frames(g3, input.rotate_cw_pressed, true);
            assert(self.game_over == old(self).game_over);
        }
    }

    /// The ordinary (non-drop) branch of input handling: the two
    /// auto-repeat steps, the rotation attempts, the soft drop and the
    /// hold swap, in order.
    #[verifier::rlimit(100)]
    fn movement_step(&mut self, delta: u32, input: &InputSnapshot, events: &mut TickEvents)
        requires
            old(self).wf(),
            !input.up_pressed,
        ensures
            final(self).wf(),
            final(events).lines_cleared == old(events).lines_cleared,
            final(events).clear_bonus_awarded == old(events).clear_bonus_awarded,
            final(events).pause_toggled == old(events).pause_toggled,
            final(events).panic_toggled == old(events).panic_toggled,
            old(self).tetromino is None ==> *final(self) == *old(self) && *final(events) == *old(events),
            final(self).board == old(self).board,
            final(self).score == old(self).score,
            final(self).lines_cleared == old(self).lines_cleared,
            final(self).next_piece_id == old(self).next_piece_id,
            final(self).active_squares == old(self).active_squares,
            final(self).clearing_lines == old(self).clearing_lines,
            final(self).line_clear_timer == old(self).line_clear_timer,
            final(self).merge_bonus_pending == old(self).merge_bonus_pending,
            final(self).paused == old(self).paused,
            final(self).in_panic == old(self).in_panic,
            input_transition(*old(self), *final(self), delta, *input, *old(events), *final(events)),
    {
        if self.tetromino.is_none() {
            proof {
                lemma_input_transition_noop(*old(self), delta, *input, *old(events));
            }
            return;
        }
        self.steer_step(delta, input, events);
        let ghost g4 = *self;
        let mut sm = false;
        if input.down_held {
            sm = self.soft_drop_step();
            if sm {
                events.piece_moved = true;
            }
        }
        let ghost g5 = *self;
        self.hold_stage(input.hold_pressed, events);
        proof {
            assert(g5 == (if input.down_held { soft_step_result(g4) } else { g4 }));
            assert(input.down_held ==> sm == soft_drop_moves(g4));
            assert(g5.game_over == old(self).game_over) by {
                if input.down_held {
                    lemma_soft_frames(g4);
                }
            }
            lemma_input_transition_steps(
                *old(self), *self, delta, *input, *old(events), *events, g4, g5);
        }
    }

    /// Handle one tick of player input: hard drop (which locks at
    /// once), the horizontal auto-repeat, rotations, the soft drop and
    /// the hold swap, in that order.  Occurrences are recorded in
    /// `events`; this function never reports pause, panic or
    /// line-collapse events.
    pub fn process_input(&mut self, delta: u32, input: &InputSnapshot, events: &mut TickEvents)
        requires
            old(self).wf(),
        ensures
            final(self).wf(),
            final(events).lines_cleared == old(events).lines_cleared,
            final(events).clear_bonus_awarded == old(events).clear_bonus_awarded,
            final(events).pause_toggled == old(events).pause_toggled,
            final(events).panic_toggled == old(events).panic_toggled,
            (old(self).tetromino is None && !input.up_pressed)
                ==> *final(self) == *old(self) && *final(events) == *old(events),
            input.up_pressed ==> ({
                &&& final(self).active_squares@.len() >= old(self).active_squares@.len()
                &&& (forall|j: int| 0 <= j < old(self).active_squares@.len()
                    ==> final(self).active_squares@[j] == old(self).active_squares@[j])
                &&& final(self).in_panic == old(self).in_panic
                &&& final(self).paused == old(self).paused
                &&& final(self).score == old(self).score
                &&& final(self).lines_cleared == old(self).lines_cleared
            }),
            !input.up_pressed ==> ({
                &&& final(self).board == old(self).board
                &&& final(self).score == old(self).score
                &&& final(self).lines_cleared == old(self).lines_cleared
                &&& final(self).next_piece_id == old(self).next_piece_id
                &&& final(self).active_squares == old(self).active_squares
                &&& final(self).clearing_lines == old(self).clearing_lines
                &&& final(self).line_clear_timer == old(self).line_clear_timer
                &&& final(self).merge_bonus_pending == old(self).merge_bonus_pending
                &&& final(self).paused == old(self).paused
                &&& final(self).in_panic == old(self).in_panic
            }),
            input_transition(*old(self), *final(self), delta, *input, *old(events), *final(events)),
    {
        if input.up_pressed {
            self.hard_drop_step(events);
            proof {
                let mid = choose|mid: GameState|
                    #[trigger] crate::game::lock_transition(mid, *self)
                    && (old(self).tetromino is None ==> mid == *old(self))
                    && (old(self).tetromino matches Some(t) ==> exists|d: int|
                        #[trigger] crate::game::dropped_outcome(*old(self), mid, t, d));
                lemma_input_transition_drop(
                    *old(self), mid, *self, delta, *input, *old(events), *events);
            }
        } else {
            self.movement_step(delta, input, events);
        }
    }
}

/// `ns` is the shape of `t` turned a quarter turn: the shape itself for
/// the rotation-invariant O, otherwise each cell turned about the
/// kind's pivot.  Exactly one such shape exists.
pub open spec fn is_rotated_shape(ns: [[i32; 2]; 4], t: Tetromino, clockwise: bool) -> bool {
    if t.t_type is O {
        ns == t.shape
    } else {
        forall|i: int| 0 <= i < 4 ==> (#[trigger] ns[i])[0]
            == rotated_offset(pivot_of(t.t_type), (t.shape[i][0] as int, t.shape[i][1] as int), clockwise).0
            && ns[i][1]
            == rotated_offset(pivot_of(t.t_type), (t.shape[i][0] as int, t.shape[i][1] as int), clockwise).1
    }
}

} // verus!