use game_of_life::cell::next_cell;
use game_of_life::{Cell, Universe};

fn alive_positions(u: &Universe) -> Vec<(u32, u32)> {
    let mut out = Vec::new();
    let cells = u.get_cells();
    for row in 0..u.height() {
        for col in 0..u.width() {
            if cells[(row * u.width() + col) as usize] == Cell::Alive {
                out.push((row, col));
            }
        }
    }
    out
}

fn empty(width: u32, height: u32) -> Universe {
    let mut u = Universe::new(width, height, 1, 1);
    u.reset();
    u
}

fn center_after_tick(alive: &[(u32, u32)]) -> Cell {
    let mut u = empty(5, 5);
    u.set_cells(alive);
    u.tick();
    u.get_cells()[2 * 5 + 2]
}

#[test]
fn new_fills_multiples_of_either_divisor() {
    let u = Universe::new(10, 10, 2, 5);
    assert_eq!(u.width(), 10);
    assert_eq!(u.height(), 10);
    let cells = u.get_cells();
    assert_eq!(cells.len(), 100);
    for i in 0..100usize {
        let expected = if i % 2 == 0 || i % 5 == 0 { Cell::Alive } else { Cell::Dead };
        assert_eq!(cells[i], expected, "index {}", i);
    }
    assert_eq!(&cells[0..10], &[
        Cell::Alive, Cell::Dead, Cell::Alive, Cell::Dead, Cell::Alive,
        Cell::Alive, Cell::Alive, Cell::Dead, Cell::Alive, Cell::Dead,
    ]);
}

#[test]
fn new_with_divisor_one_is_all_alive() {
    let u = Universe::new(3, 4, 1, 7);
    assert!(u.get_cells().iter().all(|c| *c == Cell::Alive));
    assert_eq!(u.cells().len(), 12);
}

#[test]
fn new_with_zero_width_is_empty() {
    let mut u = Universe::new(0, 3, 2, 3);
    assert_eq!(u.get_cells().len(), 0);
    u.tick();
    assert_eq!(u.get_cells().len(), 0);
    assert_eq!(u.render(), "\n\n\n");
}

#[test]
fn live_cell_with_one_neighbor_dies() {
    assert_eq!(center_after_tick(&[(2, 2), (1, 2)]), Cell::Dead);
}

#[test]
fn live_cell_with_no_neighbor_dies() {
    assert_eq!(center_after_tick(&[(2, 2)]), Cell::Dead);
}

#[test]
fn live_cell_with_two_neighbors_survives() {
    assert_eq!(center_after_tick(&[(2, 2), (1, 2), (3, 2)]), Cell::Alive);
}

#[test]
fn live_cell_with_three_neighbors_survives() {
    assert_eq!(center_after_tick(&[(2, 2), (1, 1), (1, 2), (1, 3)]), Cell::Alive);
}

#[test]
fn live_cell_with_four_neighbors_dies() {
    assert_eq!(center_after_tick(&[(2, 2), (1, 1), (1, 2), (1, 3), (2, 1)]), Cell::Dead);
}

#[test]
fn live_cell_with_eight_neighbors_dies() {
    assert_eq!(
        center_after_tick(&[(2, 2), (1, 1), (1, 2), (1, 3), (2, 1), (2, 3), (3, 1), (3, 2), (3, 3)]),
        Cell::Dead
    );
}

#[test]
fn dead_cell_with_three_neighbors_is_born() {
    assert_eq!(center_after_tick(&[(1, 1), (1, 2), (1, 3)]), Cell::Alive);
}

#[test]
fn dead_cell_with_two_neighbors_stays_dead() {
    assert_eq!(center_after_tick(&[(1, 1), (1, 3)]), Cell::Dead);
}

#[test]
fn dead_cell_with_four_neighbors_stays_dead() {
    assert_eq!(center_after_tick(&[(1, 1), (1, 3), (3, 1), (3, 3)]), Cell::Dead);
}

#[test]
fn corner_neighbors_wrap_around() {
    // (0, 0) sees (4, 4), (4, 0) and (0, 4) across the edges.
    let mut u = empty(5, 5);
    u.set_cells(&[(4, 4), (4, 0), (0, 4)]);
    u.tick();
    assert_eq!(u.get_cells()[0], Cell::Alive);
}

#[test]
fn opposite_corner_neighbors_wrap_around() {
    // (4, 4) sees (0, 0), (0, 4) and (4, 0) across the edges.
    let mut u = empty(5, 5);
    u.set_cells(&[(0, 0), (0, 4), (4, 0)]);
    u.tick();
    assert_eq!(u.get_cells()[24], Cell::Alive);
}

#[test]
fn block_is_still_life() {
    let mut u = empty(6, 6);
    let block = [(2, 2), (2, 3), (3, 2), (3, 3)];
    u.set_cells(&block);
    let before: Vec<Cell> = u.get_cells().to_vec();
    for _ in 0..5 {
        u.tick();
        assert_eq!(u.get_cells(), &before[..]);
    }
}

#[test]
fn block_on_smallest_clear_board_is_still_life() {
    let mut u = empty(4, 4);
    u.set_cells(&[(0, 0), (0, 1), (1, 0), (1, 1)]);
    let before: Vec<Cell> = u.get_cells().to_vec();
    u.tick();
    assert_eq!(u.get_cells(), &before[..]);
}

#[test]
fn blinker_oscillates_with_period_two() {
    let mut u = empty(5, 5);
    u.set_cells(&[(2, 1), (2, 2), (2, 3)]);
    let start: Vec<Cell> = u.get_cells().to_vec();
    u.tick();
    assert_eq!(alive_positions(&u), vec![(1, 2), (2, 2), (3, 2)]);
    u.tick();
    assert_eq!(alive_positions(&u), vec![(2, 1), (2, 2), (2, 3)]);
    assert_eq!(u.get_cells(), &start[..]);
}

#[test]
fn reset_kills_every_cell() {
    let mut u = Universe::new(4, 3, 2, 3);
    u.reset();
    assert_eq!(u.width(), 4);
    assert_eq!(u.height(), 3);
    assert_eq!(u.get_cells().len(), 12);
    assert!(u.get_cells().iter().all(|c| *c == Cell::Dead));
}

#[test]
fn set_width_reallocates_dead() {
    let mut u = Universe::new(4, 3, 1, 1);
    u.set_width(7);
    assert_eq!(u.width(), 7);
    assert_eq!(u.height(), 3);
    assert_eq!(u.get_cells().len(), 21);
    assert!(u.get_cells().iter().all(|c| *c == Cell::Dead));
}

#[test]
fn set_height_reallocates_dead() {
    let mut u = Universe::new(4, 3, 1, 1);
    u.set_height(2);
    assert_eq!(u.width(), 4);
    assert_eq!(u.height(), 2);
    assert_eq!(u.get_cells().len(), 8);
    assert!(u.get_cells().iter().all(|c| *c == Cell::Dead));
}

#[test]
fn toggle_twice_restores_cell() {
    let mut u = Universe::new(3, 3, 2, 7);
    let before: Vec<Cell> = u.get_cells().to_vec();
    u.toggle_cell(1, 2);
    assert_ne!(u.get_cells()[5], before[5]);
    assert_eq!(u.get_cells()[5], Cell::Alive);
    u.toggle_cell(1, 2);
    assert_eq!(u.get_cells(), &before[..]);
}

#[test]
fn set_cells_keeps_other_cells() {
    let mut u = Universe::new(3, 2, 2, 2);
    // alive at 0, 2, 4
    u.set_cells(&[(0, 1), (0, 1)]);
    assert_eq!(u.get_cells(), &[
        Cell::Alive, Cell::Alive, Cell::Alive,
        Cell::Dead, Cell::Alive, Cell::Dead,
    ]);
}

#[test]
fn render_shows_cells_row_by_row() {
    let mut u = empty(2, 2);
    u.set_cells(&[(0, 0), (1, 1)]);
    assert_eq!(u.render(), " \u{25fc}    \n    \u{25fc} \n");
}

#[test]
fn render_dead_row_is_spaces() {
    let u = empty(3, 1);
    assert_eq!(u.render(), "         \n");
}

#[test]
fn cell_toggle_flips_state() {
    let mut c = Cell::Dead;
    c.toggle();
    assert_eq!(c, Cell::Alive);
    c.toggle();
    assert_eq!(c, Cell::Dead);
}

#[test]
fn cell_weights() {
    assert_eq!(Cell::Alive.as_u8(), 1);
    assert_eq!(Cell::Dead.as_u8(), 0);
}

#[test]
fn next_cell_follows_rule_table() {
    for n in 0u8..=8 {
        let survive = if n == 2 || n == 3 { Cell::Alive } else { Cell::Dead };
        let born = if n == 3 { Cell::Alive } else { Cell::Dead };
        assert_eq!(next_cell(Cell::Alive, n), survive, "alive with {}", n);
        assert_eq!(next_cell(Cell::Dead, n), born, "dead with {}", n);
    }
}

#[test]
fn buffer_length_matches_dimensions_after_every_operation() {
    let mut u = Universe::new(6, 4, 3, 4);
    let check = |u: &Universe| {
        assert_eq!(u.get_cells().len() as u32, u.width() * u.height());
        assert_eq!(u.cells().len(), u.get_cells().len());
    };
    check(&u);
    u.tick();
    check(&u);
    u.toggle_cell(3, 5);
    check(&u);
    u.set_cells(&[(0, 0), (3, 5)]);
    check(&u);
    u.set_width(9);
    check(&u);
    u.set_height(1);
    check(&u);
    u.reset();
    check(&u);
    assert_eq!(u.render().lines().count(), 1);
}
