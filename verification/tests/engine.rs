use game_of_life::{Cell, Universe};

/// A `width` by `height` grid with every cell dead.
fn dead_grid(width: u32, height: u32) -> Universe {
    Universe::new(width, height, &vec![false; (width * height) as usize])
}

#[test]
fn new_seeds_from_draws() {
    let u = Universe::new(2, 2, &vec![true, false, false, true]);
    assert_eq!(u.width(), 2);
    assert_eq!(u.height(), 2);
    assert_eq!(
        u.get_cells(),
        &vec![Cell::Alive, Cell::Dead, Cell::Dead, Cell::Alive]
    );
}

#[test]
fn get_random_universe_maps_draws() {
    let cells = Universe::get_random_universe(&3, &2, &vec![true, true, false, false, true, false]);
    assert_eq!(
        cells,
        vec![
            Cell::Alive,
            Cell::Alive,
            Cell::Dead,
            Cell::Dead,
            Cell::Alive,
            Cell::Dead
        ]
    );
}

#[test]
fn random_reseeds_whole_buffer() {
    let mut u = dead_grid(2, 3);
    u.random(&vec![true; 6]);
    assert_eq!(u.width(), 2);
    assert_eq!(u.height(), 3);
    assert_eq!(u.get_cells(), &vec![Cell::Alive; 6]);
}

#[test]
fn toggle_is_self_inverse() {
    let mut u = Universe::new(3, 3, &vec![true, false, true, false, true, false, true, false, true]);
    let before = u.get_cells().clone();
    u.toggle_cell(1, 2);
    u.toggle_cell(1, 2);
    assert_eq!(u.get_cells(), &before);
}

#[test]
fn toggle_flips_exactly_one_cell() {
    let mut u = dead_grid(3, 3);
    u.toggle_cell(2, 1);
    let mut expected = vec![Cell::Dead; 9];
    expected[2 * 3 + 1] = Cell::Alive;
    assert_eq!(u.get_cells(), &expected);
}

#[test]
fn set_width_clears_state() {
    let mut u = Universe::new(3, 2, &vec![true; 6]);
    u.set_width(4);
    assert_eq!(u.width(), 4);
    assert_eq!(u.height(), 2);
    assert_eq!(u.get_cells(), &vec![Cell::Dead; 8]);
}

#[test]
fn set_height_clears_state() {
    let mut u = Universe::new(3, 2, &vec![true; 6]);
    u.set_height(5);
    assert_eq!(u.width(), 3);
    assert_eq!(u.height(), 5);
    assert_eq!(u.get_cells(), &vec![Cell::Dead; 15]);
}

#[test]
fn resize_clears_state() {
    let mut u = Universe::new(2, 2, &vec![true; 4]);
    u.resize(3, 3);
    assert_eq!(u.width(), 3);
    assert_eq!(u.height(), 3);
    assert_eq!(u.get_cells(), &vec![Cell::Dead; 9]);
}

#[test]
fn reset_clears_keeping_dimensions() {
    let mut u = Universe::new(4, 2, &vec![true; 8]);
    u.reset();
    assert_eq!(u.width(), 4);
    assert_eq!(u.height(), 2);
    assert_eq!(u.get_cells(), &vec![Cell::Dead; 8]);
}

#[test]
fn set_cells_marks_listed_cells_alive() {
    let mut u = dead_grid(4, 4);
    u.toggle_cell(3, 3);
    u.set_cells(&[(0, 1), (1, 2), (0, 1)]);
    let mut expected = vec![Cell::Dead; 16];
    expected[1] = Cell::Alive;
    expected[4 + 2] = Cell::Alive;
    expected[3 * 4 + 3] = Cell::Alive;
    assert_eq!(u.get_cells(), &expected);
}

#[test]
fn set_cells_does_not_clear_first() {
    let mut u = dead_grid(3, 3);
    u.set_cells(&[(0, 0)]);
    u.set_cells(&[(2, 2)]);
    let mut expected = vec![Cell::Dead; 9];
    expected[0] = Cell::Alive;
    expected[8] = Cell::Alive;
    assert_eq!(u.get_cells(), &expected);
}

#[test]
fn buffer_length_tracks_dimensions_through_mutations() {
    let mut u = Universe::new(5, 4, &vec![true; 20]);
    assert_eq!(u.get_cells().len() as u32, u.width() * u.height());
    u.tick();
    assert_eq!(u.get_cells().len() as u32, u.width() * u.height());
    u.toggle_cell(3, 4);
    assert_eq!(u.get_cells().len() as u32, u.width() * u.height());
    u.set_width(7);
    assert_eq!(u.get_cells().len() as u32, u.width() * u.height());
    u.set_cells(&[(0, 6), (3, 0)]);
    assert_eq!(u.get_cells().len() as u32, u.width() * u.height());
    u.set_height(2);
    assert_eq!(u.get_cells().len() as u32, u.width() * u.height());
    u.random(&vec![true; 14]);
    assert_eq!(u.get_cells().len() as u32, u.width() * u.height());
    u.resize(3, 3);
    assert_eq!(u.get_cells().len() as u32, u.width() * u.height());
    u.reset();
    assert_eq!(u.get_cells().len() as u32, u.width() * u.height());
    u.set_speed(2);
    u.tick();
    assert_eq!(u.get_cells().len() as u32, u.width() * u.height());
}

#[test]
fn tick_is_deterministic_for_equal_seeds() {
    let draws: Vec<bool> = (0..36).map(|i| i % 3 == 0 || i % 7 == 0).collect();
    let mut a = Universe::new(6, 6, &draws);
    let mut b = Universe::new(6, 6, &draws);
    a.tick();
    b.tick();
    assert_eq!(a.get_cells(), b.get_cells());
}

#[test]
fn one_tick_at_speed_n_equals_n_ticks_at_speed_one() {
    let draws: Vec<bool> = (0..64).map(|i| i % 5 < 2).collect();
    let mut fast = Universe::new(8, 8, &draws);
    let mut slow = Universe::new(8, 8, &draws);
    fast.set_speed(3);
    fast.tick();
    slow.tick();
    slow.tick();
    slow.tick();
    assert_eq!(fast.get_cells(), slow.get_cells());
}

#[test]
fn speed_zero_tick_changes_nothing() {
    let mut u = Universe::new(3, 3, &vec![true, false, true, false, true, false, true, false, true]);
    let before = u.get_cells().clone();
    u.set_speed(0);
    u.tick();
    assert_eq!(u.get_cells(), &before);
}

#[test]
fn zero_area_grid_operations_are_total() {
    let mut u = Universe::new(0, 5, &vec![]);
    assert_eq!(u.width(), 0);
    assert_eq!(u.height(), 5);
    assert_eq!(u.get_cells().len(), 0);
    u.tick();
    assert_eq!(u.get_cells().len(), 0);
    u.reset();
    u.random(&vec![]);
    assert_eq!(u.get_cells().len(), 0);
}

#[test]
fn cells_exposes_the_same_buffer_as_get_cells() {
    let mut u = dead_grid(3, 2);
    u.set_cells(&[(1, 0), (0, 2)]);
    assert_eq!(u.cells(), u.get_cells().as_slice());
    assert_eq!(u.cells().len(), 6);
    assert_eq!(u.cells()[3], Cell::Alive);
}

#[test]
fn default_sized_grid_ticks_and_keeps_its_length() {
    let draws: Vec<bool> = (0..200 * 200).map(|i| i % 2 == 0).collect();
    let mut u = Universe::new(200, 200, &draws);
    u.tick();
    assert_eq!(u.width(), 200);
    assert_eq!(u.height(), 200);
    assert_eq!(u.get_cells().len(), 40000);
}

#[test]
fn cell_toggle_flips_state() {
    let mut c = Cell::Dead;
    c.toggle();
    assert_eq!(c, Cell::Alive);
    c.toggle();
    assert_eq!(c, Cell::Dead);
}
