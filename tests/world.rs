use life::torus::{down, left, right, up};
use life::{World, WorldError};

fn board_with(width: usize, height: usize, alive: &[usize]) -> World {
    let mut w = World::new(width, height).unwrap();
    for &i in alive {
        w.toggle_cell(i);
    }
    w
}

fn live_cells(w: &World) -> Vec<usize> {
    (0..w.cell_count()).filter(|&i| w.cell(i)).collect()
}

#[test]
fn new_board_is_dead_at_generation_zero() {
    let w = World::new(10, 10).unwrap();
    assert_eq!(w.width(), 10);
    assert_eq!(w.height(), 10);
    assert_eq!(w.cell_count(), 100);
    assert_eq!(w.generation(), 0);
    assert!(!w.alive());
    assert!(live_cells(&w).is_empty());
}

#[test]
fn zero_sides_are_rejected() {
    assert_eq!(World::new(0, 5).err(), Some(WorldError::InvalidDimensions));
    assert_eq!(World::new(5, 0).err(), Some(WorldError::InvalidDimensions));
    assert_eq!(World::new(0, 0).err(), Some(WorldError::InvalidDimensions));
    assert!(World::new(1, 1).is_ok());
}

#[test]
fn wrap_at_every_edge() {
    // 4 wide, 3 high
    assert_eq!(up(1, 4, 3), 9);
    assert_eq!(up(5, 4, 3), 1);
    assert_eq!(down(9, 4, 3), 1);
    assert_eq!(down(5, 4, 3), 9);
    assert_eq!(left(4, 4, 3), 7);
    assert_eq!(left(5, 4, 3), 4);
    assert_eq!(right(7, 4, 3), 4);
    assert_eq!(right(5, 4, 3), 6);
}

#[test]
fn wrap_on_single_cell_board() {
    assert_eq!(up(0, 1, 1), 0);
    assert_eq!(down(0, 1, 1), 0);
    assert_eq!(left(0, 1, 1), 0);
    assert_eq!(right(0, 1, 1), 0);
}

#[test]
fn rule_table_is_exhaustive() {
    for n in 0..=8usize {
        assert_eq!(World::is_alive(true, n), n == 2 || n == 3, "alive with {n}");
        assert_eq!(World::is_alive(false, n), n == 3, "dead with {n}");
    }
}

#[test]
fn neighbour_counts_stay_within_eight() {
    let mut w = World::new(3, 3).unwrap();
    for i in 0..9 {
        w.toggle_cell(i);
    }
    for i in 0..9 {
        assert_eq!(w.neighbour_count(i), 8);
    }
    let w = board_with(5, 5, &[0]);
    assert_eq!(w.neighbour_count(24), 1);
    assert_eq!(w.neighbour_count(6), 1);
    assert_eq!(w.neighbour_count(12), 0);
}

#[test]
fn generation_counts_ticks() {
    let mut w = board_with(6, 6, &[1, 7, 13]);
    for k in 1..=5 {
        w.tick();
        assert_eq!(w.generation(), k);
    }
}

#[test]
fn empty_board_stays_empty() {
    let mut w = World::new(7, 4).unwrap();
    for _ in 0..10 {
        w.tick();
        assert!(!w.alive());
    }
    assert_eq!(w.generation(), 10);
}

#[test]
fn block_is_a_still_life() {
    let mut w = board_with(5, 5, &[6, 7, 11, 12]);
    w.tick();
    assert_eq!(live_cells(&w), vec![6, 7, 11, 12]);
    w.tick();
    assert_eq!(live_cells(&w), vec![6, 7, 11, 12]);
}

#[test]
fn block_across_the_corner_is_a_still_life() {
    let mut w = board_with(4, 4, &[0, 3, 12, 15]);
    w.tick();
    assert_eq!(live_cells(&w), vec![0, 3, 12, 15]);
}

#[test]
fn blinker_oscillates() {
    let mut w = board_with(5, 5, &[11, 12, 13]);
    w.tick();
    assert_eq!(live_cells(&w), vec![7, 12, 17]);
    w.tick();
    assert_eq!(live_cells(&w), vec![11, 12, 13]);
}

#[test]
fn lone_cell_dies() {
    let mut w = board_with(4, 4, &[5]);
    assert!(w.alive());
    w.tick();
    assert!(!w.alive());
}

#[test]
fn toggle_flips_and_flips_back() {
    let mut w = World::new(3, 2).unwrap();
    w.toggle_cell(5);
    assert_eq!(live_cells(&w), vec![5]);
    w.toggle_cell(5);
    assert!(live_cells(&w).is_empty());
}

#[test]
fn out_of_range_toggle_changes_nothing() {
    let mut w = board_with(4, 3, &[0, 11]);
    let count = w.cell_count();
    w.toggle_cell(count);
    w.toggle_cell(count + 100);
    assert_eq!(live_cells(&w), vec![0, 11]);
    assert_eq!(w.generation(), 0);
}

#[test]
fn randomize_is_close_to_half_alive() {
    let mut w = World::new(40, 25).unwrap();
    let mut total = 0usize;
    let trials = 20;
    for _ in 0..trials {
        w.randomize();
        total += live_cells(&w).len();
    }
    let cells = trials * 1000;
    // within five percent of one half
    assert!(total > cells * 45 / 100 && total < cells * 55 / 100, "{total} of {cells}");
    assert_eq!(w.generation(), 0);
    assert_eq!(w.cell_count(), 1000);
}

#[test]
fn randomize_twice_differs() {
    let mut w = World::new(40, 25).unwrap();
    w.randomize();
    let first = live_cells(&w);
    w.randomize();
    assert_ne!(first, live_cells(&w));
}

#[test]
fn set_cells_replaces_the_board() {
    let mut w = board_with(3, 2, &[0]);
    w.set_cells(vec![false, true, true, false, false, true]);
    assert_eq!(live_cells(&w), vec![1, 2, 5]);
    assert_eq!(w.generation(), 0);
    assert_eq!(w.width(), 3);
    assert_eq!(w.height(), 2);
}
