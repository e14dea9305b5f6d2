use tetris_core::game::{Cell, GameState};
use tetris_core::tetromino::{shape_for, Tetromino, TetrominoType};

fn cell(kind: TetrominoType, id: u32) -> Option<Cell> {
    Some(Cell { kind, piece_id: id })
}

#[test]
fn collision_false_on_empty_board() {
    let s = GameState::new();
    let shape = shape_for(TetrominoType::I);
    assert!(!s.check_collision(&shape, (3, 0)));
    assert!(!s.check_collision(&shape, (0, 19)));
    assert!(!s.check_collision(&shape, (6, 10)));
}

#[test]
fn collision_true_out_of_bounds() {
    let s = GameState::new();
    let shape = shape_for(TetrominoType::I);
    assert!(s.check_collision(&shape, (-1, 0)));
    assert!(s.check_collision(&shape, (7, 0)));
    assert!(s.check_collision(&shape, (0, 20)));
    assert!(s.check_collision(&shape, (0, -1)));
}

#[test]
fn collision_true_on_occupied_cell() {
    let mut s = GameState::new();
    s.board[5][5] = cell(TetrominoType::T, 1);
    let shape = shape_for(TetrominoType::I);
    assert!(s.check_collision(&shape, (2, 5)));
    assert!(!s.check_collision(&shape, (6, 5)));
    assert!(!s.check_collision(&shape, (2, 6)));
}

#[test]
fn lock_conservation() {
    let mut s = GameState::new();
    s.tetromino = Some(Tetromino::new(TetrominoType::O));
    s.next_piece_id = 5;
    s.merge_active_piece();
    let expected = [(3usize, 0usize), (4, 0), (3, 1), (4, 1)];
    for y in 0..20 {
        for x in 0..10 {
            if expected.contains(&(x, y)) {
                assert_eq!(
                    s.board[y][x],
                    Some(Cell { kind: TetrominoType::O, piece_id: 5 })
                );
            } else {
                assert_eq!(s.board[y][x], None);
            }
        }
    }
    assert_eq!(s.next_piece_id, 6);
}

#[test]
fn row_clear_rows_3_and_7() {
    let mut s = GameState::new();
    for x in 0..10 {
        s.board[3][x] = cell(TetrominoType::T, 1);
        s.board[7][x] = cell(TetrominoType::S, 2);
    }
    // markers above, between and below the cleared rows
    s.board[0][0] = cell(TetrominoType::I, 9);
    s.board[5][5] = cell(TetrominoType::J, 8);
    s.board[19][2] = cell(TetrominoType::L, 7);
    s.clearing_lines = vec![3, 7];
    s.merge_bonus_pending = 0;
    s.collapse_cleared_rows();

    assert_eq!(s.lines_cleared, 2);
    assert_eq!(s.clearing_lines.len(), 0);
    // two fresh empty rows on top
    for y in 0..2 {
        for x in 0..10 {
            assert_eq!(s.board[y][x], None);
        }
    }
    // rows above the higher cleared row shifted down by two
    assert_eq!(s.board[2][0], cell(TetrominoType::I, 9));
    // rows between the two cleared rows shifted down by one
    assert_eq!(s.board[6][5], cell(TetrominoType::J, 8));
    // rows below both cleared rows stayed
    assert_eq!(s.board[19][2], cell(TetrominoType::L, 7));
    // nothing of the cleared rows is left
    for y in 0..20 {
        for x in 0..10 {
            if let Some(c) = s.board[y][x] {
                assert!(c.piece_id != 1 && c.piece_id != 2);
            }
        }
    }
}

#[test]
fn bonus_row_scores_gold_on_clear() {
    let mut s = GameState::new();
    s.started = true;
    s.next_tetromino = Some(Tetromino::new(TetrominoType::I));
    for x in 0..9 {
        s.board[19][x] = cell(TetrominoType::T, (x + 1) as u32);
    }
    s.board[19][9] = cell(TetrominoType::BonusGold, 0);
    s.lock_tetromino();
    assert_eq!(s.clearing_lines, vec![19]);
    assert_eq!(s.merge_bonus_pending, 500);
    assert_eq!(s.line_clear_timer, 81);
    s.clear_lines_delayed();
    assert_eq!(s.score, 500);
    assert_eq!(s.lines_cleared, 1);
    assert_eq!(s.merge_bonus_pending, 0);
}

#[test]
fn bonus_row_scores_silver_on_clear() {
    let mut s = GameState::new();
    s.started = true;
    s.next_tetromino = Some(Tetromino::new(TetrominoType::I));
    for x in 0..9 {
        s.board[10][x] = cell(TetrominoType::Z, (x + 1) as u32);
    }
    s.board[10][9] = cell(TetrominoType::BonusSilver, 0);
    s.lock_tetromino();
    assert_eq!(s.merge_bonus_pending, 200);
    s.clear_lines_delayed();
    assert_eq!(s.score, 200);
    assert_eq!(s.lines_cleared, 1);
}

#[test]
fn plain_full_row_scores_nothing() {
    let mut s = GameState::new();
    s.started = true;
    s.next_tetromino = Some(Tetromino::new(TetrominoType::I));
    for x in 0..10 {
        s.board[19][x] = cell(TetrominoType::T, (x + 1) as u32);
    }
    s.lock_tetromino();
    assert_eq!(s.merge_bonus_pending, 0);
    s.clear_lines_delayed();
    assert_eq!(s.score, 0);
    assert_eq!(s.lines_cleared, 1);
}

#[test]
fn fullness_measures_stack_height() {
    let mut s = GameState::new();
    assert_eq!(s.check_for_fullness(), 0);
    s.board[19][0] = cell(TetrominoType::T, 1);
    assert_eq!(s.check_for_fullness(), 1);
    s.board[8][4] = cell(TetrominoType::T, 2);
    assert_eq!(s.check_for_fullness(), 12);
    s.board[0][9] = cell(TetrominoType::T, 3);
    assert_eq!(s.check_for_fullness(), 20);
}

#[test]
fn row_scan_finds_exactly_full_rows() {
    let mut s = GameState::new();
    for x in 0..10 {
        s.board[4][x] = cell(TetrominoType::T, 1);
        s.board[18][x] = cell(TetrominoType::S, 2);
    }
    s.board[11][3] = cell(TetrominoType::J, 3);
    assert!(s.is_row_full(4));
    assert!(s.is_row_full(18));
    assert!(!s.is_row_full(11));
    let (rows, bonus) = s.scan_full_rows();
    assert_eq!(rows, vec![4, 18]);
    assert_eq!(bonus, 0);
}
