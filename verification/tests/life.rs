use game_of_life::engine::count_live_neighbors;
use game_of_life::future_generation;
use game_of_life::random::alive_from_draw;
use game_of_life::Grid;

fn cell(g: &Grid, r: usize, c: usize) -> u8 {
    g.get(r, c).unwrap()
}

fn assert_all_dead(g: &Grid) {
    for r in 0..g.num_rows() {
        for c in 0..g.num_cols() {
            assert_eq!(cell(g, r, c), 0);
        }
    }
}

fn assert_same(a: &Grid, b: &Grid) {
    assert_eq!(a.num_rows(), b.num_rows());
    assert_eq!(a.num_cols(), b.num_cols());
    for r in 0..a.num_rows() {
        for c in 0..a.num_cols() {
            assert_eq!(cell(a, r, c), cell(b, r, c));
        }
    }
}

#[test]
fn new_grid_is_dead() {
    let g = Grid::new(4, 5);
    assert_eq!(g.num_rows(), 4);
    assert_eq!(g.num_cols(), 5);
    assert_all_dead(&g);
}

#[test]
fn get_out_of_range_is_none() {
    let g = Grid::new(4, 5);
    assert_eq!(g.get(3, 4), Some(0));
    assert_eq!(g.get(4, 0), None);
    assert_eq!(g.get(0, 5), None);
    assert_eq!(g.get(usize::MAX, usize::MAX), None);
}

#[test]
fn toggle_flips_and_flips_back() {
    let mut g = Grid::new(3, 3);
    g.toggle_cell(1, 2);
    assert_eq!(cell(&g, 1, 2), 1);
    assert_eq!(cell(&g, 0, 0), 0);
    assert_eq!(cell(&g, 2, 1), 0);
    g.toggle_cell(1, 2);
    assert_eq!(cell(&g, 1, 2), 0);
    assert_all_dead(&g);
}

#[test]
fn toggle_out_of_range_is_noop() {
    let mut g = Grid::new(3, 3);
    g.toggle_cell(0, 1);
    g.toggle_cell(2, 2);
    let before = [(0usize, 1usize), (2, 2)];
    g.toggle_cell(3, 0);
    g.toggle_cell(0, 3);
    g.toggle_cell(usize::MAX, 0);
    assert_eq!(g.num_rows(), 3);
    assert_eq!(g.num_cols(), 3);
    for r in 0..3 {
        for c in 0..3 {
            let expected = if before.contains(&(r, c)) { 1 } else { 0 };
            assert_eq!(cell(&g, r, c), expected);
        }
    }
}

#[test]
fn clear_kills_everything() {
    let mut g = Grid::new(4, 6);
    g.toggle_cell(0, 0);
    g.toggle_cell(3, 5);
    g.toggle_cell(2, 2);
    g.clear();
    assert_eq!(g.num_rows(), 4);
    assert_eq!(g.num_cols(), 6);
    assert_all_dead(&g);
}

#[test]
fn clear_then_step_stays_dead() {
    let mut g = Grid::new(5, 5);
    g.toggle_cell(1, 1);
    g.toggle_cell(1, 2);
    g.toggle_cell(2, 1);
    g.clear();
    let next = future_generation(&g);
    assert_eq!(next.num_rows(), 5);
    assert_eq!(next.num_cols(), 5);
    assert_all_dead(&next);
}

#[test]
fn dead_grid_stays_dead() {
    let g = Grid::new(5, 7);
    let next = future_generation(&g);
    assert_eq!(next.num_rows(), 5);
    assert_eq!(next.num_cols(), 7);
    assert_all_dead(&next);
}

#[test]
fn isolated_cell_dies() {
    let mut g = Grid::new(5, 5);
    g.toggle_cell(2, 2);
    let next = future_generation(&g);
    assert_all_dead(&next);
}

#[test]
fn isolated_corner_cell_dies() {
    let mut g = Grid::new(4, 4);
    g.toggle_cell(0, 0);
    let next = future_generation(&g);
    assert_all_dead(&next);
}

#[test]
fn step_preserves_dimensions() {
    let mut g = Grid::new(6, 9);
    g.toggle_cell(0, 0);
    g.toggle_cell(2, 3);
    g.toggle_cell(5, 8);
    let next = future_generation(&g);
    assert_eq!(next.num_rows(), 6);
    assert_eq!(next.num_cols(), 9);
}

#[test]
fn step_leaves_input_untouched() {
    let mut g = Grid::new(5, 5);
    g.toggle_cell(2, 1);
    g.toggle_cell(2, 2);
    g.toggle_cell(2, 3);
    let _ = future_generation(&g);
    assert_eq!(cell(&g, 2, 1), 1);
    assert_eq!(cell(&g, 2, 2), 1);
    assert_eq!(cell(&g, 2, 3), 1);
    assert_eq!(cell(&g, 1, 2), 0);
    assert_eq!(cell(&g, 3, 2), 0);
}

#[test]
fn block_is_still_life() {
    let mut g = Grid::new(6, 6);
    g.toggle_cell(2, 2);
    g.toggle_cell(2, 3);
    g.toggle_cell(3, 2);
    g.toggle_cell(3, 3);
    let next = future_generation(&g);
    assert_same(&next, &g);
}

#[test]
fn blinker_oscillates() {
    // Horizontal line of three at row 5, columns 4..=6 of a 7 x 9 board.
    let mut g = Grid::new(7, 9);
    g.toggle_cell(5, 4);
    g.toggle_cell(5, 5);
    g.toggle_cell(5, 6);

    // One step: the vertical line of three at column 5, rows 4..=6.
    let mut expected = Grid::new(7, 9);
    expected.toggle_cell(4, 5);
    expected.toggle_cell(5, 5);
    expected.toggle_cell(6, 5);
    let once = future_generation(&g);
    assert_same(&once, &expected);

    // A second step returns the original board.
    let twice = future_generation(&once);
    assert_same(&twice, &g);
}

#[test]
fn neighbor_counts_on_full_board() {
    // Every cell of a 3 x 3 board alive: the center sees all 8, an edge
    // cell 5, a corner only the 3 positions that exist.
    let mut g = Grid::new(3, 3);
    for r in 0..3 {
        for c in 0..3 {
            g.toggle_cell(r, c);
        }
    }
    assert_eq!(count_live_neighbors(&g, 1, 1), 8);
    assert_eq!(count_live_neighbors(&g, 0, 1), 5);
    assert_eq!(count_live_neighbors(&g, 1, 0), 5);
    assert_eq!(count_live_neighbors(&g, 0, 0), 3);
    assert_eq!(count_live_neighbors(&g, 2, 2), 3);
    for r in 0..3 {
        for c in 0..3 {
            assert!(count_live_neighbors(&g, r, c) <= 8);
        }
    }
}

#[test]
fn edge_cells_count_no_outside_neighbors() {
    // On a fully alive 3 x 3 board the corners survive (3 neighbors) while
    // every other cell dies (5 or 8). Counting any position beyond the edge
    // as alive, or wrapping around, would kill the corners too.
    let mut g = Grid::new(3, 3);
    for r in 0..3 {
        for c in 0..3 {
            g.toggle_cell(r, c);
        }
    }
    let next = future_generation(&g);
    for r in 0..3 {
        for c in 0..3 {
            let corner = (r == 0 || r == 2) && (c == 0 || c == 2);
            assert_eq!(cell(&next, r, c), if corner { 1 } else { 0 });
        }
    }
}

#[test]
fn lonely_cell_on_one_by_one_board() {
    let mut g = Grid::new(1, 1);
    g.toggle_cell(0, 0);
    assert_eq!(count_live_neighbors(&g, 0, 0), 0);
    let next = future_generation(&g);
    assert_eq!(cell(&next, 0, 0), 0);
}

#[test]
fn draw_threshold_is_three_in_ten() {
    assert_eq!(alive_from_draw(1), 1);
    assert_eq!(alive_from_draw(2), 1);
    assert_eq!(alive_from_draw(3), 1);
    assert_eq!(alive_from_draw(4), 0);
    assert_eq!(alive_from_draw(5), 0);
    assert_eq!(alive_from_draw(10), 0);
}

#[test]
fn fixed_draws_give_a_fixed_board() {
    // Row-major draws for a 2 x 3 board; a draw below 4 makes the cell
    // alive.
    let mut g = Grid::new(2, 3);
    let draws: Vec<u8> = vec![1, 4, 3, 10, 2, 5];
    g.fill_from_draws(&draws);
    assert_eq!(cell(&g, 0, 0), 1);
    assert_eq!(cell(&g, 0, 1), 0);
    assert_eq!(cell(&g, 0, 2), 1);
    assert_eq!(cell(&g, 1, 0), 0);
    assert_eq!(cell(&g, 1, 1), 1);
    assert_eq!(cell(&g, 1, 2), 0);
}

#[test]
fn randomize_fills_with_binary_cells() {
    let mut g = Grid::new(40, 40);
    let mut rng = rand::rng();
    g.randomize(&mut rng);
    assert_eq!(g.num_rows(), 40);
    assert_eq!(g.num_cols(), 40);
    let mut live: u32 = 0;
    let mut dead: u32 = 0;
    for r in 0..40 {
        for c in 0..40 {
            match cell(&g, r, c) {
                0 => dead += 1,
                1 => live += 1,
                other => panic!("cell value {} is not binary", other),
            }
        }
    }
    // 1600 independent draws at three in ten: both outcomes appear.
    assert!(live > 0);
    assert!(dead > 0);
}

#[test]
fn randomize_then_step_keeps_dimensions() {
    let mut g = Grid::new(12, 17);
    let mut rng = rand::rng();
    g.randomize(&mut rng);
    let next = future_generation(&g);
    assert_eq!(next.num_rows(), 12);
    assert_eq!(next.num_cols(), 17);
}
