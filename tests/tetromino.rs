use rusty_tetris::tetromino::{Color, Rotation, Tetromino, TetrominoBag};

fn disallowed(c: Color) -> bool {
    matches!(c, Color::Yellow | Color::Lime | Color::Red)
}

#[test]
fn rotation_wraps_both_ways() {
    assert_eq!(Rotation::R0.increase(), Rotation::R1);
    assert_eq!(Rotation::R3.increase(), Rotation::R0);
    assert_eq!(Rotation::R0.decrease(), Rotation::R3);
    assert_eq!(Rotation::R2.decrease(), Rotation::R1);
    assert_eq!(Rotation::R1.increase().decrease(), Rotation::R1);
}

#[test]
fn catalog_colors_and_points() {
    let i = Tetromino::shape(0);
    assert_eq!(i.get_color(), Color::Cyan);
    assert_eq!(*i.points(Rotation::R0), [(0, 2), (1, 2), (2, 2), (3, 2)]);
    assert_eq!(*i.points(Rotation::R1), [(2, 0), (2, 1), (2, 2), (2, 3)]);
    let o = Tetromino::shape(3);
    assert_eq!(o.get_color(), Color::Yellow);
    assert_eq!(*o.points(Rotation::R2), [(1, 1), (2, 1), (1, 2), (2, 2)]);
    assert_eq!(Tetromino::shape(6).get_color(), Color::Red);
    assert_eq!(*Tetromino::shape(5).points(Rotation::R3), [(1, 0), (1, 1), (2, 1), (1, 2)]);
}

#[test]
fn seven_draws_from_a_new_bag_deal_every_shape_once() {
    for _ in 0..200 {
        let mut bag = TetrominoBag::new();
        let mut seen = [0u32; 7];
        for _ in 0..7 {
            let s = bag.next();
            assert!(s < 7);
            seen[s] += 1;
        }
        assert_eq!(seen, [1; 7]);
    }
}

#[test]
fn bags_keep_dealing_full_sets() {
    let mut bag = TetrominoBag::new();
    for _ in 0..50 {
        let mut seen = [0u32; 7];
        for _ in 0..7 {
            seen[bag.next()] += 1;
        }
        assert_eq!(seen, [1; 7]);
    }
}

#[test]
fn first_draw_after_reshuffle_has_an_allowed_color() {
    let mut bag = TetrominoBag::new();
    for _ in 0..300 {
        bag.clear();
        let first = bag.next();
        assert!(!disallowed(Tetromino::shape(first).get_color()));
    }
}

#[test]
fn refills_are_shuffled() {
    let mut firsts = [0u32; 7];
    let mut lasts = [0u32; 7];
    for _ in 0..100 {
        let mut bag = TetrominoBag::new();
        firsts[bag.next()] += 1;
        let mut last = 0;
        for _ in 0..6 {
            last = bag.next();
        }
        lasts[last] += 1;
    }
    assert!(firsts.iter().filter(|&&n| n > 0).count() >= 2);
    assert!(lasts.iter().filter(|&&n| n > 0).count() >= 2);
}
