use gameoflife::game::Game;
use gameoflife::torus::{wrap_around, SIZE};

#[test]
fn board_is_one_hundred_cells_wide() {
    assert_eq!(SIZE, 100);
}

#[test]
fn wrap_around_keeps_coordinates_on_the_board() {
    assert_eq!(wrap_around(0), 0);
    assert_eq!(wrap_around(1), 1);
    assert_eq!(wrap_around(50), 50);
    assert_eq!(wrap_around(99), 99);
}

#[test]
fn wrap_around_folds_the_step_off_the_low_edge() {
    assert_eq!(wrap_around(-1), 99);
    assert_eq!(wrap_around(-2), 98);
    assert_eq!(wrap_around(-100), 0);
}

#[test]
fn wrap_around_folds_the_step_off_the_high_edge() {
    assert_eq!(wrap_around(100), 0);
    assert_eq!(wrap_around(101), 1);
    assert_eq!(wrap_around(127), 27);
}

#[test]
fn wrap_around_folds_more_than_one_turn_below() {
    assert_eq!(wrap_around(-101), 99);
    assert_eq!(wrap_around(-128), 72);
}

#[test]
fn wrap_around_is_the_remainder_for_every_input() {
    for x in i8::MIN..=i8::MAX {
        let expected = (x as i32).rem_euclid(100) as usize;
        assert_eq!(wrap_around(x), expected);
    }
}

fn count_at(live: &[(usize, usize)], x: usize, y: usize) -> u8 {
    let mut game = Game::new();
    for &(cx, cy) in live {
        game.set_cell(cx, cy, true);
    }
    game.live_neighbours(x, y)
}

#[test]
fn no_neighbours_on_an_empty_board() {
    let game = Game::new();
    assert_eq!(game.live_neighbours(0, 0), 0);
    assert_eq!(game.live_neighbours(50, 50), 0);
    assert_eq!(game.live_neighbours(99, 99), 0);
}

#[test]
fn a_cell_is_not_its_own_neighbour() {
    assert_eq!(count_at(&[(10, 10)], 10, 10), 0);
}

#[test]
fn all_eight_neighbours_are_counted_in_the_middle() {
    let ring = [
        (9, 9),
        (9, 10),
        (9, 11),
        (10, 9),
        (10, 11),
        (11, 9),
        (11, 10),
        (11, 11),
    ];
    assert_eq!(count_at(&ring, 10, 10), 8);
    for k in 0..8 {
        assert_eq!(count_at(&ring[k..k + 1], 10, 10), 1);
    }
}

#[test]
fn cells_two_steps_away_are_not_counted() {
    assert_eq!(count_at(&[(12, 10), (10, 12), (8, 8), (10, 8)], 10, 10), 0);
}

#[test]
fn neighbours_wrap_at_the_corner_0_0() {
    let ring = [
        (99, 99),
        (99, 0),
        (99, 1),
        (0, 99),
        (0, 1),
        (1, 99),
        (1, 0),
        (1, 1),
    ];
    assert_eq!(count_at(&ring, 0, 0), 8);
    for k in 0..8 {
        assert_eq!(count_at(&ring[k..k + 1], 0, 0), 1);
    }
}

#[test]
fn neighbours_wrap_at_the_corner_99_99() {
    let ring = [
        (98, 98),
        (98, 99),
        (98, 0),
        (99, 98),
        (99, 0),
        (0, 98),
        (0, 99),
        (0, 0),
    ];
    assert_eq!(count_at(&ring, 99, 99), 8);
    for k in 0..8 {
        assert_eq!(count_at(&ring[k..k + 1], 99, 99), 1);
    }
}

#[test]
fn neighbours_wrap_at_the_corner_0_99() {
    let ring = [
        (99, 98),
        (99, 99),
        (99, 0),
        (0, 98),
        (0, 0),
        (1, 98),
        (1, 99),
        (1, 0),
    ];
    assert_eq!(count_at(&ring, 0, 99), 8);
    for k in 0..8 {
        assert_eq!(count_at(&ring[k..k + 1], 0, 99), 1);
    }
}

#[test]
fn neighbours_wrap_at_the_corner_99_0() {
    let ring = [
        (98, 99),
        (98, 0),
        (98, 1),
        (99, 99),
        (99, 1),
        (0, 99),
        (0, 0),
        (0, 1),
    ];
    assert_eq!(count_at(&ring, 99, 0), 8);
    for k in 0..8 {
        assert_eq!(count_at(&ring[k..k + 1], 99, 0), 1);
    }
}

#[test]
fn neighbours_wrap_at_the_edge_x_0() {
    assert_eq!(count_at(&[(99, 39), (99, 40), (99, 41)], 0, 40), 3);
    assert_eq!(count_at(&[(98, 40)], 0, 40), 0);
}

#[test]
fn neighbours_wrap_at_the_edge_x_99() {
    assert_eq!(count_at(&[(0, 39), (0, 40), (0, 41)], 99, 40), 3);
    assert_eq!(count_at(&[(1, 40)], 99, 40), 0);
}

#[test]
fn neighbours_wrap_at_the_edge_y_0() {
    assert_eq!(count_at(&[(39, 99), (40, 99), (41, 99)], 40, 0), 3);
    assert_eq!(count_at(&[(40, 98)], 40, 0), 0);
}

#[test]
fn neighbours_wrap_at_the_edge_y_99() {
    assert_eq!(count_at(&[(39, 0), (40, 0), (41, 0)], 40, 99), 3);
    assert_eq!(count_at(&[(40, 1)], 40, 99), 0);
}
