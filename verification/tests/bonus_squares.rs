use tetris_core::game::{Cell, GameState};
use tetris_core::squares::SquareEffect;
use tetris_core::tetromino::TetrominoType;

fn cell(kind: TetrominoType, id: u32) -> Option<Cell> {
    Some(Cell { kind, piece_id: id })
}

/// Four 2x2 blocks filling the window at (0, 16), one piece id each.
fn fill_window_two_by_two(s: &mut GameState, kinds: [TetrominoType; 4]) {
    let corners = [(0usize, 16usize), (2, 16), (0, 18), (2, 18)];
    for (i, &(cx, cy)) in corners.iter().enumerate() {
        let id = (i + 1) as u32;
        s.board[cy][cx] = cell(kinds[i], id);
        s.board[cy][cx + 1] = cell(kinds[i], id);
        s.board[cy + 1][cx] = cell(kinds[i], id);
        s.board[cy + 1][cx + 1] = cell(kinds[i], id);
    }
}

#[test]
fn four_same_kind_pieces_make_gold() {
    let mut s = GameState::new();
    fill_window_two_by_two(&mut s, [TetrominoType::O; 4]);
    s.check_for_4x4_squares();
    assert_eq!(s.active_squares.len(), 1);
    let eff = &s.active_squares[0];
    assert_eq!((eff.x, eff.y), (0, 16));
    assert!(eff.is_gold);
    assert_eq!(eff.blinks_remaining, 6);
    assert_eq!(eff.timer, 90);
    assert!(eff.flash_on);
    assert_eq!(eff.original.len(), 16);
    assert_eq!(eff.original[0], Cell { kind: TetrominoType::O, piece_id: 1 });
    for y in 16..20 {
        for x in 0..4 {
            assert_eq!(
                s.board[y][x],
                Some(Cell { kind: TetrominoType::BonusGold, piece_id: 0 })
            );
        }
    }
}

#[test]
fn mixed_kinds_make_silver() {
    let mut s = GameState::new();
    fill_window_two_by_two(
        &mut s,
        [TetrominoType::O, TetrominoType::S, TetrominoType::O, TetrominoType::O],
    );
    s.check_for_4x4_squares();
    assert_eq!(s.active_squares.len(), 1);
    assert!(!s.active_squares[0].is_gold);
    for y in 16..20 {
        for x in 0..4 {
            assert_eq!(
                s.board[y][x],
                Some(Cell { kind: TetrominoType::BonusSilver, piece_id: 0 })
            );
        }
    }
}

#[test]
fn straddling_piece_disqualifies_window() {
    let mut s = GameState::new();
    fill_window_two_by_two(&mut s, [TetrominoType::O; 4]);
    // give piece 2 a cell outside the window instead of one inside:
    // it now straddles the boundary, which disqualifies the window
    s.board[16][3] = None;
    s.board[16][4] = cell(TetrominoType::O, 2);
    s.board[16][3] = cell(TetrominoType::O, 5);
    s.check_for_4x4_squares();
    assert_eq!(s.active_squares.len(), 0);
    assert_eq!(s.board[16][0], cell(TetrominoType::O, 1));
}

#[test]
fn incomplete_window_does_not_qualify() {
    let mut s = GameState::new();
    fill_window_two_by_two(&mut s, [TetrominoType::O; 4]);
    s.board[17][1] = None;
    s.check_for_4x4_squares();
    assert_eq!(s.active_squares.len(), 0);
}

#[test]
fn existing_effect_is_not_duplicated() {
    let mut s = GameState::new();
    fill_window_two_by_two(&mut s, [TetrominoType::O; 4]);
    s.check_for_4x4_squares();
    assert_eq!(s.active_squares.len(), 1);
    s.check_for_4x4_squares();
    assert_eq!(s.active_squares.len(), 1);
}

#[test]
fn dropped_piece_completes_gold_square_through_update() {
    let mut s = GameState::new();
    s.start_game_with(TetrominoType::O, TetrominoType::T);
    // three of the four 2x2 blocks of the window at (0, 16) are locked,
    // leaving the top-right quarter open; the falling O piece, shifted
    // to column 2, drops onto the lower block and completes the window
    for &(cx, cy, id) in &[(0usize, 16usize, 51u32), (0, 18, 53), (2, 18, 52)] {
        s.board[cy][cx] = cell(TetrominoType::O, id);
        s.board[cy][cx + 1] = cell(TetrominoType::O, id);
        s.board[cy + 1][cx] = cell(TetrominoType::O, id);
        s.board[cy + 1][cx + 1] = cell(TetrominoType::O, id);
    }
    let mut piece = s.tetromino.unwrap();
    piece.pos = (2, 0);
    s.tetromino = Some(piece);
    let mut input = tetris_core::input::InputSnapshot::released();
    input.up_pressed = true;
    let ev = s.update(0, &input);
    assert!(ev.piece_locked);
    assert_eq!(ev.gold_squares_formed, 1);
    assert_eq!(ev.silver_squares_formed, 0);
    assert_eq!(s.active_squares.len(), 1);
    assert!(s.active_squares[0].is_gold);
    for y in 16..20 {
        for x in 0..4 {
            assert_eq!(
                s.board[y][x],
                Some(Cell { kind: TetrominoType::BonusGold, piece_id: 0 })
            );
        }
    }
}

#[test]
fn trimmed_piece_wholly_inside_still_qualifies() {
    // a piece that lost cells to earlier clears still counts as
    // contained as long as its remaining cells all sit in the window
    let mut s = GameState::new();
    fill_window_two_by_two(&mut s, [TetrominoType::O; 4]);
    // piece 4 keeps only two of its cells; piece 9 fills the gap
    s.board[18][2] = cell(TetrominoType::O, 9);
    s.board[18][3] = cell(TetrominoType::O, 9);
    s.check_for_4x4_squares();
    assert_eq!(s.active_squares.len(), 1);
    assert!(s.active_squares[0].is_gold);
    assert_eq!(
        s.board[19][2],
        Some(Cell { kind: TetrominoType::BonusGold, piece_id: 0 })
    );
}

#[test]
fn two_disjoint_windows_convert_in_one_scan() {
    let mut s = GameState::new();
    fill_window_two_by_two(&mut s, [TetrominoType::O; 4]);
    // a second window right of the first, from four more 2x2 pieces
    for (i, &(cx, cy)) in [(4usize, 16usize), (6, 16), (4, 18), (6, 18)].iter().enumerate() {
        let id = (i + 11) as u32;
        s.board[cy][cx] = cell(TetrominoType::S, id);
        s.board[cy][cx + 1] = cell(TetrominoType::S, id);
        s.board[cy + 1][cx] = cell(TetrominoType::S, id);
        s.board[cy + 1][cx + 1] = cell(TetrominoType::S, id);
    }
    s.check_for_4x4_squares();
    assert_eq!(s.active_squares.len(), 2);
    assert_eq!((s.active_squares[0].x, s.active_squares[0].y), (0, 16));
    assert_eq!((s.active_squares[1].x, s.active_squares[1].y), (4, 16));
    assert!(s.active_squares[0].is_gold);
    assert!(s.active_squares[1].is_gold);
}

#[test]
fn effect_blinks_and_expires() {
    let mut s = GameState::new();
    s.active_squares.push(SquareEffect {
        x: 0,
        y: 16,
        is_gold: true,
        timer: 90,
        flash_on: true,
        blinks_remaining: 2,
        original: vec![Cell { kind: TetrominoType::O, piece_id: 1 }; 16],
    });
    s.update_square_effects(30);
    assert_eq!(s.active_squares[0].timer, 60);
    assert!(s.active_squares[0].flash_on);
    assert_eq!(s.active_squares[0].blinks_remaining, 2);
    s.update_square_effects(60);
    assert_eq!(s.active_squares[0].timer, 90);
    assert!(!s.active_squares[0].flash_on);
    assert_eq!(s.active_squares[0].blinks_remaining, 1);
    s.update_square_effects(90);
    assert!(s.active_squares[0].flash_on);
    assert_eq!(s.active_squares[0].blinks_remaining, 1);
    s.update_square_effects(90);
    assert_eq!(s.active_squares.len(), 0);
}
