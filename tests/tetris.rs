use rusty_tetris::board::{GameState, BASE_GRAVITY_FACTOR};
use rusty_tetris::grid::{BOARD_HEIGHT, BOARD_WIDTH};
use rusty_tetris::tetris::{route, Cluster, Command, Key, Tetris, BOARD_COLUMNS_ON_SCREEN, UPDATE_TIME};
use rusty_tetris::keys::Control;

fn play_until_over(t: &mut Tetris, key: Key) {
    for _ in 0..2000 {
        if t.is_over() {
            return;
        }
        t.key_press(key);
        t.update(400_000);
        t.key_release(key);
    }
    panic!("the match did not end");
}

#[test]
fn new_match_has_one_or_two_boards() {
    let solo = Tetris::new(0, false);
    assert_eq!(solo.boards().len(), 1);
    let duel = Tetris::new(3, true);
    assert_eq!(duel.boards().len(), 2);
    assert!(!duel.is_paused());
    assert!(!duel.is_over());
    for b in duel.boards() {
        assert_eq!(b.state(), GameState::Playing);
        assert_eq!(b.line_count(), 0);
    }
}

#[test]
fn oversized_stack_is_clamped() {
    let t = Tetris::new(1000, false);
    let b = &t.boards()[0];
    for (_, y, _) in b.grid().filled_cells() {
        assert!(y >= 1);
    }
}

#[test]
fn keys_route_to_their_cluster() {
    assert_eq!(route(Key::Up), Some((Cluster::Arrows, Command::Control(Control::RotateLeft))));
    assert_eq!(route(Key::Space), Some((Cluster::Arrows, Command::HardDrop)));
    assert_eq!(route(Key::RShift), Some((Cluster::Arrows, Command::Control(Control::RotateRight))));
    assert_eq!(route(Key::E), Some((Cluster::Letters, Command::Control(Control::RotateRight))));
    assert_eq!(route(Key::S), Some((Cluster::Letters, Command::SoftDrop)));
    assert_eq!(route(Key::F), Some((Cluster::Letters, Command::HardDrop)));
    assert_eq!(route(Key::P), None);
    assert_eq!(route(Key::F1), None);
}

#[test]
fn pause_freezes_the_match() {
    let mut t = Tetris::new(0, false);
    t.key_press(Key::P);
    assert!(t.is_paused());
    let before = t.boards()[0].active().as_points();
    t.update(10_000_000);
    assert_eq!(t.boards()[0].active().as_points(), before);
    t.key_press(Key::Left);
    assert_eq!(t.boards()[0].controls().move_left.press_count, 0);
    t.key_press(Key::P);
    assert!(!t.is_paused());
}

#[test]
fn pause_is_ignored_while_dropping() {
    let mut t = Tetris::new(0, false);
    t.key_press(Key::Down);
    assert_eq!(t.boards()[0].state(), GameState::Dropping);
    t.key_press(Key::P);
    assert!(!t.is_paused());
    t.key_release(Key::Down);
    assert_eq!(t.boards()[0].state(), GameState::Playing);
}

#[test]
fn duel_keys_reach_their_own_board() {
    let mut t = Tetris::new(0, true);
    t.key_press(Key::A);
    assert_eq!(t.boards()[1].controls().move_left.press_count, 1);
    assert_eq!(t.boards()[0].controls().move_left.press_count, 0);
    t.key_press(Key::Left);
    assert_eq!(t.boards()[0].controls().move_left.press_count, 1);
    t.key_press(Key::S);
    assert_eq!(t.boards()[1].state(), GameState::Dropping);
    assert_eq!(t.boards()[0].state(), GameState::Playing);
}

#[test]
fn tapped_key_moves_once_at_the_tick() {
    let mut t = Tetris::new(0, false);
    let start = t.boards()[0].active().as_points();
    t.key_press(Key::Right);
    t.key_release(Key::Right);
    t.update(UPDATE_TIME / 2);
    assert_eq!(t.boards()[0].active().as_points()[0].0, start[0].0 + 1);
    t.key_press(Key::Right);
    t.key_release(Key::Right);
    t.update(UPDATE_TIME / 4);
    assert_eq!(t.boards()[0].active().as_points()[0].0, start[0].0 + 1);
    t.update(UPDATE_TIME);
    assert_eq!(t.boards()[0].active().as_points()[0].0, start[0].0 + 2);
    t.update(UPDATE_TIME);
    assert_eq!(t.boards()[0].active().as_points()[0].0, start[0].0 + 2);
}

#[test]
fn first_defeat_ends_a_duel_and_restart_resets() {
    let mut t = Tetris::new(2, true);
    play_until_over(&mut t, Key::Space);
    assert!(t.is_over());
    t.update(100_000);
    let snaps = t.render_snapshot();
    assert_eq!(snaps.len(), 2);
    assert_eq!(snaps[1].column_offset, BOARD_COLUMNS_ON_SCREEN);
    assert!(snaps.iter().any(|s| s.state == GameState::Defeated));
    t.key_press(Key::Left);
    assert!(t.is_over());
    t.key_press(Key::F1);
    assert!(!t.is_over());
    for b in t.boards() {
        assert_eq!(b.state(), GameState::Playing);
        assert_eq!(b.line_count(), 0);
        assert_eq!(b.gravity_factor(), BASE_GRAVITY_FACTOR);
        for (x, y, _) in b.grid().filled_cells() {
            assert!(x < BOARD_WIDTH);
            assert!(y >= BOARD_HEIGHT - 2);
        }
    }
}

#[test]
fn snapshot_lists_active_and_preview_cells() {
    let t = Tetris::new(0, false);
    let snaps = t.render_snapshot();
    assert_eq!(snaps.len(), 1);
    let s = &snaps[0];
    assert_eq!(s.filled.len(), 0);
    assert_eq!(s.active.len(), 4);
    assert_eq!(s.next.len(), 4);
    assert_eq!(s.column_offset, 0);
    assert_eq!(s.line_count, 0);
    assert_eq!(s.state, GameState::Playing);
    for &(x, y) in &s.active {
        assert!((0..BOARD_WIDTH as i32).contains(&x));
        assert!(y < BOARD_HEIGHT as i32);
    }
}
