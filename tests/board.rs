use rusty_tetris::active::ActiveTetromino;
use rusty_tetris::board::{Board, GameState, BASE_GRAVITY_FACTOR};
use rusty_tetris::grid::{Grid, BOARD_HEIGHT, BOARD_WIDTH};
use rusty_tetris::keys::Control;
use rusty_tetris::tetromino::{Color, Tetromino};

/// A vertical line piece whose cells are column 9, rows 16 to 19.
fn vertical_line_in_last_column(grid: &Grid) -> ActiveTetromino {
    let mut p = ActiveTetromino::new(Tetromino::shape(0));
    assert!(p.try_rotate_right(grid));
    for _ in 0..4 {
        assert!(p.try_move_right(grid));
    }
    p.drop_fully(grid);
    p
}

fn count_filled(g: &Grid) -> usize {
    g.filled_cells().len()
}

#[test]
fn locking_the_last_gap_clears_one_row() {
    let mut grid = Grid::empty();
    for x in 0..9 {
        grid.set(x, BOARD_HEIGHT - 1, Some(Color::Grey));
    }
    let piece = vertical_line_in_last_column(&grid);
    assert_eq!(piece.as_points(), [(9, 16), (9, 17), (9, 18), (9, 19)]);
    let mut board = Board::from_position(grid, piece, 0);
    board.gravity(1_000_000);
    assert_eq!(board.state(), GameState::Playing);
    assert_eq!(board.line_count(), 1);
    assert_eq!(board.lock_count(), 1);
    let g = board.grid();
    assert_eq!(count_filled(g), 3);
    for y in 0..BOARD_HEIGHT - 3 {
        for x in 0..BOARD_WIDTH {
            assert_eq!(g.get(x, y), None);
        }
    }
    for y in BOARD_HEIGHT - 3..BOARD_HEIGHT {
        assert_eq!(g.get(9, y), Some(Color::Cyan));
    }
}

#[test]
fn clear_keeps_height_and_order() {
    let mut grid = Grid::empty();
    for x in 0..BOARD_WIDTH {
        grid.set(x, 19, Some(Color::Red));
        grid.set(x, 17, Some(Color::Blue));
    }
    grid.set(0, 18, Some(Color::Lime));
    grid.set(4, 16, Some(Color::Purple));
    let (after, n) = grid.clear_full_rows();
    assert_eq!(n, 2);
    assert_eq!(after.get(0, 19), Some(Color::Lime));
    assert_eq!(after.get(4, 18), Some(Color::Purple));
    assert_eq!(count_filled(&after), 2);
    assert_eq!(after.filled_cells().len(), 2);
    for x in 0..BOARD_WIDTH {
        assert_eq!(after.get(x, 0), None);
        assert_eq!(after.get(x, 1), None);
    }
}

#[test]
fn clear_with_no_full_row_changes_nothing() {
    let mut grid = Grid::empty();
    grid.set(3, 10, Some(Color::Orange));
    let (after, n) = grid.clear_full_rows();
    assert_eq!(n, 0);
    assert_eq!(after.get(3, 10), Some(Color::Orange));
    assert_eq!(count_filled(&after), 1);
}

#[test]
fn clear_of_a_full_grid_empties_it() {
    let mut grid = Grid::empty();
    for y in 0..BOARD_HEIGHT {
        for x in 0..BOARD_WIDTH {
            grid.set(x, y, Some(Color::Grey));
        }
    }
    let (after, n) = grid.clear_full_rows();
    assert_eq!(n, BOARD_HEIGHT);
    assert_eq!(count_filled(&after), 0);
}

#[test]
fn piece_on_the_floor_cannot_move_down() {
    let grid = Grid::empty();
    let mut p = vertical_line_in_last_column(&grid);
    let before = p.as_points();
    assert!(!p.try_move_down(&grid));
    assert_eq!(p.as_points(), before);
}

#[test]
fn piece_on_a_filled_cell_cannot_move_down() {
    let mut grid = Grid::empty();
    grid.set(9, 12, Some(Color::Grey));
    let mut p = vertical_line_in_last_column(&grid);
    assert_eq!(p.as_points(), [(9, 8), (9, 9), (9, 10), (9, 11)]);
    assert!(!p.try_move_down(&grid));
    assert_eq!(p.as_points(), [(9, 8), (9, 9), (9, 10), (9, 11)]);
}

#[test]
fn rotation_against_the_wall_is_refused() {
    let grid = Grid::empty();
    let mut p = vertical_line_in_last_column(&grid);
    let before = p.as_points();
    assert!(!p.try_rotate_left(&grid));
    assert_eq!(p.as_points(), before);
    assert!(!p.try_rotate_right(&grid));
    assert_eq!(p.as_points(), before);
}

#[test]
fn rotation_into_a_filled_cell_is_refused() {
    let mut grid = Grid::empty();
    grid.set(5, 2, Some(Color::Grey));
    let mut p = ActiveTetromino::new(Tetromino::shape(0));
    assert!(p.try_move_down(&grid));
    let before = p.as_points();
    assert_eq!(before, [(3, 1), (4, 1), (5, 1), (6, 1)]);
    assert!(!p.try_rotate_right(&grid));
    assert_eq!(p.as_points(), before);
    assert!(!p.try_rotate_left(&grid));
    assert_eq!(p.as_points(), before);
}

#[test]
fn piece_cannot_leave_the_columns() {
    let grid = Grid::empty();
    let mut p = ActiveTetromino::new(Tetromino::shape(3));
    let mut moves = 0;
    while p.try_move_left(&grid) {
        moves += 1;
    }
    assert_eq!(moves, 4);
    assert_eq!(p.as_points()[0].0, 0);
    assert!(!p.try_move_left(&grid));
}

#[test]
fn gravity_speeds_up_every_tenth_lock() {
    let mut board = Board::new(0);
    assert_eq!(board.gravity_factor(), BASE_GRAVITY_FACTOR);
    for i in 0..10 {
        let side = match i % 3 {
            0 => Some(Control::MoveLeft),
            1 => Some(Control::MoveRight),
            _ => None,
        };
        if let Some(c) = side {
            board.press(c);
            for _ in 0..3 {
                board.process_controls();
            }
            board.release(c);
        }
        board.hard_drop();
        board.gravity(1_000_000);
        assert_eq!(board.state(), GameState::Playing);
        if i < 9 {
            assert_eq!(board.gravity_factor(), 500_000);
            assert_eq!(board.lock_count(), i + 1);
        }
    }
    assert_eq!(board.gravity_factor(), 550_000);
    assert_eq!(board.lock_count(), 0);
}

#[test]
fn gravity_waits_for_the_threshold() {
    let mut board = Board::new(0);
    let start = board.active().as_points();
    board.gravity(699_999);
    assert_eq!(board.active().as_points(), start);
    board.gravity(1);
    let moved = board.active().as_points();
    for k in 0..4 {
        assert_eq!(moved[k].1, start[k].1 + 1);
    }
}

#[test]
fn blocked_spawn_defeats_the_board() {
    let mut grid = Grid::empty();
    for x in 0..BOARD_WIDTH - 1 {
        grid.set(x, 1, Some(Color::Grey));
    }
    let piece = ActiveTetromino::new(Tetromino::shape(1));
    let mut board = Board::from_position(grid, piece, 0);
    board.gravity(1_000_000);
    assert_eq!(board.state(), GameState::Defeated);
    assert_eq!(board.line_count(), 0);
}

#[test]
fn result_shows_line_count_digits() {
    let mut board = Board::new(0);
    let piece = board.active().as_points();
    board.advance(0, true);
    assert_eq!(board.state(), GameState::Defeated);
    assert_eq!(board.active().as_points(), piece);
    board.show_result();
    assert_eq!(board.state(), GameState::Defeated);
    let g = board.grid();
    assert_eq!(count_filled(g), 24);
    assert_eq!(g.get(5, 1), Some(Color::Grey));
    assert_eq!(g.get(6, 2), None);
    assert_eq!(g.get(1, 5), Some(Color::Grey));
    assert_eq!(g.get(0, 1), None);
}

#[test]
fn digit_glyphs_are_drawn_at_their_offset() {
    let mut g = Grid::empty();
    g.print_digit(1, 4);
    assert_eq!(count_filled(&g), 6);
    assert_eq!(g.get(6, 1), Some(Color::Grey));
    assert_eq!(g.get(5, 2), Some(Color::Grey));
    assert_eq!(g.get(4, 2), None);
    let mut h = Grid::empty();
    h.print_digit(12, 4);
    assert_eq!(count_filled(&h), 0);
    let mut e = Grid::empty();
    e.print_digit(8, 0);
    assert_eq!(count_filled(&e), 7);
}

#[test]
fn restart_starts_a_fresh_session() {
    let mut grid = Grid::empty();
    for x in 0..BOARD_WIDTH - 1 {
        grid.set(x, 1, Some(Color::Grey));
    }
    let piece = ActiveTetromino::new(Tetromino::shape(1));
    let mut board = Board::from_position(grid, piece, 4);
    board.gravity(1_000_000);
    assert_eq!(board.state(), GameState::Defeated);
    board.play_again();
    assert_eq!(board.state(), GameState::Playing);
    assert_eq!(board.line_count(), 0);
    assert_eq!(board.gravity_factor(), BASE_GRAVITY_FACTOR);
    assert_eq!(board.lock_count(), 0);
    for (x, y, c) in board.grid().filled_cells() {
        assert!(x < BOARD_WIDTH);
        assert!(y >= BOARD_HEIGHT - 4);
        assert_eq!(c, Color::Grey);
    }
}

#[test]
fn random_stack_fills_only_its_rows() {
    let mut total = 0;
    for _ in 0..5 {
        let g = rusty_tetris::tetris::Tetris::create_board(BOARD_HEIGHT);
        let cells = g.filled_cells();
        total += cells.len();
        assert!(cells.len() < BOARD_WIDTH * BOARD_HEIGHT);
    }
    assert!(total > 0);
    let g = rusty_tetris::tetris::Tetris::create_board(3);
    for (_, y, c) in g.filled_cells() {
        assert!(y >= BOARD_HEIGHT - 3);
        assert_eq!(c, Color::Grey);
    }
    assert_eq!(rusty_tetris::tetris::Tetris::create_board(0).filled_cells().len(), 0);
}

#[test]
fn held_key_moves_the_piece_every_tick() {
    let mut board = Board::new(0);
    let start = board.active().as_points();
    board.press(Control::MoveRight);
    board.process_controls();
    board.process_controls();
    let moved = board.active().as_points();
    for k in 0..4 {
        assert_eq!(moved[k].0, start[k].0 + 2);
    }
    board.release(Control::MoveRight);
    board.process_controls();
    assert_eq!(board.active().as_points()[0].0, start[0].0 + 2);
}

#[test]
fn soft_drop_boosts_until_released() {
    let mut board = Board::new(0);
    board.soft_drop();
    assert_eq!(board.state(), GameState::Dropping);
    board.end_soft_drop();
    assert_eq!(board.state(), GameState::Playing);
    board.end_soft_drop();
    assert_eq!(board.state(), GameState::Playing);
}

#[test]
fn spawn_into_filled_cells_defeats_the_board() {
    let piece = vertical_line_in_last_column(&Grid::empty());
    let mut grid = Grid::empty();
    for x in 3..6 {
        grid.set(x, 0, Some(Color::Grey));
    }
    let mut board = Board::from_position(grid, piece, 0);
    board.gravity(1_000_000);
    assert_eq!(board.state(), GameState::Defeated);
    assert_eq!(board.line_count(), 0);
    for y in 16..BOARD_HEIGHT {
        assert_eq!(board.grid().get(9, y), Some(Color::Cyan));
    }
}

#[test]
fn drop_of_a_resting_piece_keeps_it_in_place() {
    let mut grid = Grid::empty();
    grid.set(0, 19, Some(Color::Grey));
    let piece = ActiveTetromino::new(Tetromino::shape(3));
    let mut board = Board::from_position(grid, piece, 0);
    board.drop_fully();
    let landed = board.active().as_points();
    assert_eq!(landed, [(4, 18), (5, 18), (4, 19), (5, 19)]);
    board.drop_fully();
    assert_eq!(board.active().as_points(), landed);
    board.hard_drop();
    assert_eq!(board.active().as_points(), landed);
    assert_eq!(board.state(), GameState::Dropping);
}

#[test]
fn stack_follows_the_flips() {
    let mut flips = vec![true; 2 * BOARD_WIDTH];
    flips[0] = false;
    flips[BOARD_WIDTH + 3] = false;
    let g = rusty_tetris::tetris::Tetris::stack_from_flips(2, &flips);
    assert_eq!(g.get(0, 19), None);
    assert_eq!(g.get(1, 19), Some(Color::Grey));
    assert_eq!(g.get(3, 18), None);
    assert_eq!(g.get(4, 18), Some(Color::Grey));
    assert_eq!(count_filled(&g), 2 * BOARD_WIDTH - 2);
    let none = rusty_tetris::tetris::Tetris::stack_from_flips(0, &Vec::new());
    assert_eq!(count_filled(&none), 0);
}
