use tetris_core::events::TickEvents;
use tetris_core::game::{Cell, GameState};
use tetris_core::input::InputSnapshot;
use tetris_core::menu::{Difficulty, GameMode};
use tetris_core::tetromino::{rotate_shape, shape_for, Tetromino, TetrominoType};

fn started(curr: TetrominoType, next: TetrominoType) -> GameState {
    let mut s = GameState::new();
    s.start_game_with(curr, next);
    s
}

fn keys() -> InputSnapshot {
    InputSnapshot::released()
}

#[test]
fn new_game_state_is_blank() {
    let s = GameState::new();
    assert!(s.tetromino.is_none());
    assert!(s.next_tetromino.is_none());
    assert!(s.hold_tetromino.is_none());
    assert!(!s.started && !s.paused && !s.game_over && !s.in_panic);
    assert_eq!((s.score, s.lines_cleared), (0, 0));
    assert_eq!(s.next_piece_id, 1);
    assert_eq!(s.piece_statistics, vec![0; 7]);
    for y in 0..20 {
        for x in 0..10 {
            assert!(s.board[y][x].is_none());
        }
    }
}

#[test]
fn start_game_spawns_and_counts_first_piece() {
    let s = started(TetrominoType::I, TetrominoType::O);
    assert!(s.started && !s.game_over);
    let t = s.tetromino.unwrap();
    assert_eq!(t.t_type, TetrominoType::I);
    assert_eq!(t.pos, (3, 0));
    assert_eq!(t.shape, shape_for(TetrominoType::I));
    assert_eq!(s.next_tetromino.unwrap().t_type, TetrominoType::O);
    assert_eq!(s.piece_count(TetrominoType::I), 1);
    assert_eq!(s.piece_count(TetrominoType::O), 0);
}

#[test]
fn hold_exchange_banks_and_spawns() {
    let mut s = started(TetrominoType::I, TetrominoType::O);
    s.hold_swap();
    // the prior active piece sits in the hold slot, reset to spawn form
    let held = s.hold_tetromino.unwrap();
    assert_eq!(held.t_type, TetrominoType::I);
    assert_eq!(held.pos, (3, 0));
    assert_eq!(held.shape, shape_for(TetrominoType::I));
    // the queued piece spawned as a fresh active piece
    assert_eq!(s.tetromino.unwrap().t_type, TetrominoType::O);
    // the spawn re-armed the hold for the new piece
    assert!(!s.hold_used);
    assert_eq!(s.piece_count(TetrominoType::O), 1);
}

#[test]
fn hold_exchange_swaps_with_occupied_slot() {
    let mut s = started(TetrominoType::I, TetrominoType::O);
    s.hold_swap();
    s.hold_swap();
    assert_eq!(s.hold_tetromino.unwrap().t_type, TetrominoType::O);
    assert_eq!(s.tetromino.unwrap().t_type, TetrominoType::I);
    assert!(s.hold_used);
    // a second swap for the same piece is refused
    let before_kind = s.tetromino.unwrap().t_type;
    s.hold_swap();
    assert_eq!(s.tetromino.unwrap().t_type, before_kind);
    assert_eq!(s.hold_tetromino.unwrap().t_type, TetrominoType::O);
}

#[test]
fn hold_swap_rejected_when_spawn_blocked() {
    let mut s = started(TetrominoType::I, TetrominoType::O);
    s.hold_swap();
    // block the spawn area so the held piece cannot re-enter
    s.board[0][3] = Some(Cell { kind: TetrominoType::T, piece_id: 9 });
    s.board[1][3] = Some(Cell { kind: TetrominoType::T, piece_id: 9 });
    let hold_before = s.hold_tetromino.unwrap().t_type;
    let active_before = s.tetromino.unwrap().t_type;
    let used_before = s.hold_used;
    s.hold_swap();
    assert_eq!(s.hold_tetromino.unwrap().t_type, hold_before);
    assert_eq!(s.tetromino.unwrap().t_type, active_before);
    assert_eq!(s.hold_used, used_before);
}

#[test]
fn auto_repeat_timing_for_held_left() {
    let mut s = started(TetrominoType::T, TetrominoType::O);
    assert_eq!(s.tetromino.unwrap().pos.0, 3);
    let mut press = keys();
    press.left_pressed = true;
    press.left_held = true;
    let mut hold = keys();
    hold.left_held = true;

    // the press moves at once and arms the 0.2 s delay
    s.update(0, &press);
    assert_eq!(s.tetromino.unwrap().pos.0, 2);
    assert_eq!(s.left_timer, 60);
    // 0.1 s elapsed: no move yet
    s.update(30, &hold);
    assert_eq!(s.tetromino.unwrap().pos.0, 2);
    // 0.2 s elapsed: the repeat fires and arms the 0.1 s delay
    s.update(30, &hold);
    assert_eq!(s.tetromino.unwrap().pos.0, 1);
    assert_eq!(s.left_timer, 30);
    // 0.05 s more: nothing
    s.update(15, &hold);
    assert_eq!(s.tetromino.unwrap().pos.0, 1);
    // another 0.05 s completes the 0.1 s repeat interval
    s.update(15, &hold);
    assert_eq!(s.tetromino.unwrap().pos.0, 0);
    // at the wall, the repeat keeps firing but collision blocks it
    s.update(30, &hold);
    assert_eq!(s.tetromino.unwrap().pos.0, 0);
}

#[test]
fn hard_drop_end_to_end() {
    let mut s = started(TetrominoType::I, TetrominoType::O);
    let mut drop = keys();
    drop.up_pressed = true;
    let ev = s.update(0, &drop);
    assert!(ev.piece_locked);
    assert!(!ev.lines_clearing_started);
    // the I piece locked flat on the bottom row, columns 3..=6
    for x in 0..10 {
        let c = s.board[19][x];
        if (3..=6).contains(&x) {
            let c = c.unwrap();
            assert_eq!(c.kind, TetrominoType::I);
            assert_eq!(c.piece_id, 1);
        } else {
            assert!(c.is_none());
        }
    }
    // no clear started, nothing scored
    assert_eq!(s.clearing_lines.len(), 0);
    assert_eq!(s.lines_cleared, 0);
    assert_eq!(s.score, 0);
    // statistics counted one I (from the start) and one O (just spawned)
    assert_eq!(s.piece_count(TetrominoType::I), 1);
    assert_eq!(s.piece_count(TetrominoType::O), 1);
    // the queued piece became active and a new piece was queued
    assert_eq!(s.tetromino.unwrap().t_type, TetrominoType::O);
    assert_eq!(s.tetromino.unwrap().pos, (3, 0));
    assert!(s.next_tetromino.is_some());
    assert!(!s.game_over);
}

#[test]
fn gravity_steps_piece_down() {
    let mut s = started(TetrominoType::I, TetrominoType::O);
    s.update(100, &keys());
    assert_eq!(s.tetromino.unwrap().pos.1, 1);
    s.update(50, &keys());
    assert_eq!(s.tetromino.unwrap().pos.1, 1);
    s.update(50, &keys());
    assert_eq!(s.tetromino.unwrap().pos.1, 2);
}

#[test]
fn soft_drop_uses_short_interval() {
    let mut s = started(TetrominoType::I, TetrominoType::O);
    let mut down = keys();
    down.down_held = true;
    // holding down also nudges the piece one cell immediately
    s.update(0, &down);
    assert_eq!(s.tetromino.unwrap().pos.1, 1);
}

#[test]
fn pause_freezes_the_game() {
    let mut s = started(TetrominoType::I, TetrominoType::O);
    let mut pause = keys();
    pause.pause_pressed = true;
    let ev = s.update(0, &pause);
    assert!(ev.pause_toggled);
    assert!(s.paused);
    let pos = s.tetromino.unwrap().pos;
    let mut left = keys();
    left.left_pressed = true;
    s.update(100, &left);
    assert_eq!(s.tetromino.unwrap().pos, pos);
    let ev2 = s.update(0, &pause);
    assert!(ev2.pause_toggled);
    assert!(!s.paused);
}

#[test]
fn blocked_spawn_ends_the_game() {
    let mut s = started(TetrominoType::I, TetrominoType::O);
    s.board[0][3] = Some(Cell { kind: TetrominoType::T, piece_id: 9 });
    s.spawn_new_tetromino();
    assert!(s.game_over);
    assert!(!s.started);
}

#[test]
fn rotation_turns_about_the_pivot() {
    let t = shape_for(TetrominoType::T);
    let cw = rotate_shape(&t, TetrominoType::T, true);
    assert_eq!(cw, [[0, 1], [1, 2], [1, 1], [1, 0]]);
    let ccw = rotate_shape(&t, TetrominoType::T, false);
    assert_eq!(ccw, [[2, 1], [1, 0], [1, 1], [1, 2]]);
    // O is rotation-invariant: its shape comes back unchanged
    let o = shape_for(TetrominoType::O);
    assert_eq!(rotate_shape(&o, TetrominoType::O, true), o);
    assert_eq!(rotate_shape(&o, TetrominoType::O, false), o);
}

#[test]
fn rotating_o_in_play_changes_nothing() {
    let mut s = started(TetrominoType::O, TetrominoType::T);
    let before = s.tetromino.unwrap();
    let rotated = s.try_rotate(true);
    // the attempt goes through (nothing can collide) but O is invariant
    assert!(rotated);
    let after = s.tetromino.unwrap();
    assert_eq!(after.shape, before.shape);
    assert_eq!(after.pos, before.pos);
}

#[test]
fn rotation_rejected_against_wall() {
    let mut s = started(TetrominoType::I, TetrominoType::O);
    // a flat I on the floor has no room to turn upright
    s.drop_to_floor();
    let before = s.tetromino.unwrap().shape;
    // rotating the floor-level I would need cells above and below; the
    // floor blocks them, so the shape must stay unchanged
    let rotated = s.try_rotate(true);
    assert!(!rotated);
    assert_eq!(s.tetromino.unwrap().shape, before);
}

#[test]
fn update_reports_line_clear_events() {
    let mut s = started(TetrominoType::I, TetrominoType::O);
    // row 19 is already full; row 18 misses exactly the four cells the
    // dropped I piece will fill
    for x in 0..10 {
        s.board[19][x] = Some(Cell { kind: TetrominoType::T, piece_id: 8 });
        if !(3..=6).contains(&x) {
            s.board[18][x] = Some(Cell { kind: TetrominoType::T, piece_id: 8 });
        }
    }
    s.tetromino = Some(Tetromino::new(TetrominoType::I));
    let mut drop = keys();
    drop.up_pressed = true;
    let ev = s.update(0, &drop);
    assert!(ev.piece_locked);
    assert!(ev.lines_clearing_started);
    assert_eq!(ev.clearing_rows, vec![18, 19]);
    assert_eq!(s.line_clear_timer, 81);
    // ticks while the clear is pending only count the timer down
    let ev2 = s.update(50, &keys());
    assert_eq!(s.line_clear_timer, 31);
    assert_eq!(ev2.lines_cleared, 0);
    // expiry collapses and reports the count
    let ev3 = s.update(31, &keys());
    assert_eq!(ev3.lines_cleared, 2);
    assert_eq!(s.lines_cleared, 2);
    assert_eq!(s.line_clear_timer, 0);
}

#[test]
fn panic_mode_tracks_stack_height() {
    let mut s = started(TetrominoType::I, TetrominoType::O);
    for y in 8..20 {
        s.board[y][0] = Some(Cell { kind: TetrominoType::T, piece_id: 5 });
    }
    let ev = s.update(0, &keys());
    assert!(ev.panic_toggled);
    assert!(s.in_panic);
    s.board[8][0] = None;
    let ev2 = s.update(0, &keys());
    assert!(ev2.panic_toggled);
    assert!(!s.in_panic);
}

#[test]
fn tick_events_start_quiet() {
    let ev = TickEvents::new();
    assert!(!ev.piece_moved && !ev.piece_rotated && !ev.piece_locked);
    assert!(!ev.lines_clearing_started && ev.clearing_rows.is_empty());
    assert_eq!((ev.lines_cleared, ev.clear_bonus_awarded), (0, 0));
    assert_eq!((ev.gold_squares_formed, ev.silver_squares_formed), (0, 0));
    assert!(!ev.pause_toggled && !ev.panic_toggled && !ev.game_over);
}

#[test]
fn random_start_draws_movable_kinds() {
    let mut s = GameState::new();
    s.start_game();
    assert!(s.started && !s.game_over);
    let t = s.tetromino.unwrap();
    let n = s.next_tetromino.unwrap();
    for kind in [t.t_type, n.t_type] {
        assert!(!matches!(
            kind,
            TetrominoType::BonusGold | TetrominoType::BonusSilver
        ));
    }
    assert_eq!(t.pos, (3, 0));
    // exactly the first piece is counted so far
    let kinds = [
        TetrominoType::I,
        TetrominoType::O,
        TetrominoType::T,
        TetrominoType::S,
        TetrominoType::Z,
        TetrominoType::J,
        TetrominoType::L,
    ];
    let total: u32 = kinds.iter().map(|&k| s.piece_count(k)).sum();
    assert_eq!(total, 1);
    assert_eq!(s.piece_count(t.t_type), 1);
}

#[test]
fn menu_choices_cycle() {
    assert_eq!(Difficulty::Easy.next(), Difficulty::Normal);
    assert_eq!(Difficulty::Hard.next(), Difficulty::Easy);
    assert_eq!(Difficulty::Easy.prev(), Difficulty::Hard);
    assert_eq!(Difficulty::Easy.as_str(), "Easy");
    assert_eq!(GameMode::Classic.next(), GameMode::Timed);
    assert_eq!(GameMode::Endless.next(), GameMode::Classic);
    assert_eq!(GameMode::Timed.prev(), GameMode::Classic);
    assert_eq!(GameMode::Endless.as_str(), "Endless");
}
