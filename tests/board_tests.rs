use game_of_life::board::{Board, BoardError, Boundary, BOARD_SIZE};
use game_of_life::direction::Direction;
use game_of_life::display::{create_data_from_board, sim_state_to_string};
use game_of_life::engine::{perform_generation, update_cell};
use game_of_life::pattern::{rotate_grid, Pattern};

fn board_with(size: usize, boundary: Boundary, live: &[(usize, usize)]) -> Board {
    let mut b = Board::with_size(size, boundary);
    for &(x, y) in live {
        b.set_cell(x, y, true);
    }
    b
}

fn live_cells(b: &Board) -> Vec<(usize, usize)> {
    let mut out = Vec::new();
    for y in 0..b.size() {
        for x in 0..b.size() {
            if b.is_cell_occupied(x, y) {
                out.push((x, y));
            }
        }
    }
    out
}

fn sorted(mut v: Vec<(usize, usize)>) -> Vec<(usize, usize)> {
    v.sort();
    v
}

fn count_ones(g: &Vec<Vec<u8>>) -> usize {
    g.iter().map(|r| r.iter().filter(|&&v| v == 1).count()).sum()
}

#[test]
fn new_board_is_empty_toroidal_generation_one() {
    let b = Board::new();
    assert_eq!(b.size(), BOARD_SIZE);
    assert_eq!(b.boundary(), Boundary::Toroidal);
    assert_eq!(b.generation(), 1);
    assert_eq!(b.population(), 0);
    assert_eq!(b.cells().len(), BOARD_SIZE * BOARD_SIZE);
}

#[test]
fn set_cell_writes_and_ignores_off_board() {
    let mut b = Board::with_size(8, Boundary::Clipped);
    b.set_cell(3, 5, true);
    assert!(b.is_cell_occupied(3, 5));
    assert!(!b.is_cell_occupied(5, 3));
    assert_eq!(b.cells()[5 * 8 + 3], true);
    b.set_cell(8, 0, true);
    b.set_cell(0, 8, true);
    assert_eq!(b.population(), 1);
    b.set_cell(3, 5, false);
    assert_eq!(b.population(), 0);
}

#[test]
fn out_of_bounds_queries_are_refused() {
    let b = Board::with_size(8, Boundary::Clipped);
    assert_eq!(b.try_is_cell_occupied(8, 0), Err(BoardError::OutOfBounds));
    assert_eq!(b.try_is_cell_occupied(0, 8), Err(BoardError::OutOfBounds));
    assert_eq!(b.try_get_active_neighbours(8, 0), Err(BoardError::OutOfBounds));
    assert_eq!(b.try_get_active_neighbours(0, 8), Err(BoardError::OutOfBounds));
    assert_eq!(b.try_get_active_neighbours(-1, 0), Err(BoardError::OutOfBounds));
    assert_eq!(b.try_is_cell_occupied(7, 7), Ok(false));
    assert_eq!(b.try_get_active_neighbours(7, 7), Ok(0));
}

#[test]
fn corner_neighbour_wraps_only_on_torus() {
    let t = board_with(8, Boundary::Toroidal, &[(7, 7)]);
    assert_eq!(t.get_active_neighbours(0, 0), 1);
    let c = board_with(8, Boundary::Clipped, &[(7, 7)]);
    assert_eq!(c.get_active_neighbours(0, 0), 0);
}

#[test]
fn neighbour_count_full_ring() {
    let ring = [(1, 1), (2, 1), (3, 1), (1, 2), (3, 2), (1, 3), (2, 3), (3, 3)];
    let b = board_with(8, Boundary::Clipped, &ring);
    assert_eq!(b.get_active_neighbours(2, 2), 8);
    assert_eq!(b.get_active_neighbours(0, 0), 1);
    assert_eq!(b.get_active_neighbours(2, 0), 3);
    let t = board_with(8, Boundary::Toroidal, &[(0, 3), (7, 2), (7, 3), (7, 4)]);
    assert_eq!(t.get_active_neighbours(0, 3), 3);
    assert_eq!(t.get_active_neighbours(7, 3), 3);
}

#[test]
fn survival_and_death_of_live_cells() {
    // centre (2,2) with 1, 2, 3 and 4 live neighbours
    for (k, expect) in [(1usize, false), (2, true), (3, true), (4, false)] {
        let neighbours = [(1, 1), (2, 1), (3, 1), (1, 2)];
        let mut live = vec![(2usize, 2usize)];
        live.extend_from_slice(&neighbours[..k]);
        let b = board_with(8, Boundary::Clipped, &live);
        assert_eq!(update_cell(&b, 2, 2), expect);
    }
}

#[test]
fn birth_only_with_three_neighbours() {
    for (k, expect) in [(2usize, false), (3, true), (4, false)] {
        let neighbours = [(1, 1), (2, 1), (3, 1), (1, 2)];
        let b = board_with(8, Boundary::Clipped, &neighbours[..k]);
        assert_eq!(update_cell(&b, 2, 2), expect);
    }
}

#[test]
fn generation_counts_steps() {
    let mut b = Board::with_size(8, Boundary::Clipped);
    assert_eq!(b.generation(), 1);
    let mut next = perform_generation(&mut b);
    assert_eq!(next.generation(), 2);
    let third = perform_generation(&mut next);
    assert_eq!(third.generation(), 3);
    assert_eq!(b.generation(), 1);
}

#[test]
fn block_is_still_life() {
    let block = vec![(5, 5), (6, 5), (5, 6), (6, 6)];
    let mut b = board_with(8, Boundary::Clipped, &block);
    for _ in 0..5 {
        b = perform_generation(&mut b);
        assert_eq!(sorted(live_cells(&b)), sorted(block.clone()));
    }
}

#[test]
fn blinker_oscillates() {
    let horizontal = vec![(3, 4), (4, 4), (5, 4)];
    let vertical = vec![(4, 3), (4, 4), (4, 5)];
    let mut b = board_with(8, Boundary::Clipped, &horizontal);
    let mut b1 = perform_generation(&mut b);
    assert_eq!(sorted(live_cells(&b1)), sorted(vertical));
    let b2 = perform_generation(&mut b1);
    assert_eq!(sorted(live_cells(&b2)), sorted(horizontal));
}

#[test]
fn glider_translates_on_torus() {
    let mut b = Board::with_size(16, Boundary::Toroidal);
    b.place_pattern(Pattern::Glider, 8, 8);
    let start = sorted(live_cells(&b));
    assert_eq!(start, sorted(vec![(8, 7), (9, 8), (7, 9), (8, 9), (9, 9)]));
    for _ in 0..4 {
        b = perform_generation(&mut b);
    }
    let moved: Vec<(usize, usize)> = start.iter().map(|&(x, y)| ((x + 1) % 16, (y + 1) % 16)).collect();
    assert_eq!(sorted(live_cells(&b)), sorted(moved));
}

#[test]
fn glider_wraps_across_edge() {
    let mut b = Board::with_size(16, Boundary::Toroidal);
    b.place_pattern(Pattern::Glider, 14, 14);
    let start = sorted(live_cells(&b));
    for _ in 0..8 {
        b = perform_generation(&mut b);
    }
    let moved: Vec<(usize, usize)> = start.iter().map(|&(x, y)| ((x + 2) % 16, (y + 2) % 16)).collect();
    assert_eq!(sorted(live_cells(&b)), sorted(moved));
    assert_eq!(b.population(), 5);
}

#[test]
fn place_pattern_on_empty_board() {
    let mut b = Board::with_size(8, Boundary::Clipped);
    b.place_pattern(Pattern::Toad, 4, 4);
    // toad is 5 wide, 2 high: top-left at (2, 3)
    let expected = vec![(3, 3), (4, 3), (5, 3), (2, 4), (3, 4), (4, 4)];
    assert_eq!(sorted(live_cells(&b)), sorted(expected));
}

#[test]
fn place_pattern_clips_at_edges() {
    let mut b = Board::with_size(8, Boundary::Clipped);
    b.place_pattern(Pattern::Glider, 0, 0);
    // top-left at (-1, -1): only the cells with both coordinates >= 0 remain
    assert_eq!(sorted(live_cells(&b)), sorted(vec![(1, 0), (0, 1), (1, 1)]));
    let mut c = Board::with_size(8, Boundary::Clipped);
    c.place_pattern(Pattern::Beacon, 7, 7);
    assert_eq!(sorted(live_cells(&c)), sorted(vec![(5, 5), (6, 5), (5, 6), (6, 6), (7, 7)]));
}

#[test]
fn place_pattern_overwrites_cells() {
    let mut b = board_with(8, Boundary::Clipped, &[(3, 3), (0, 0)]);
    b.place_pattern(Pattern::Glider, 4, 4);
    // (3,3) is under a dead glider cell; (0,0) lies outside the stamp
    assert!(!b.is_cell_occupied(3, 3));
    assert!(b.is_cell_occupied(0, 0));
    assert_eq!(b.population(), 6);
}

#[test]
fn place_rotated_pattern_east() {
    let mut b = Board::with_size(8, Boundary::Clipped);
    b.place_rotated_pattern(Pattern::Glider, 4, 4, Direction::East);
    // east-facing glider: [[1,0,0],[1,0,1],[1,1,0]], top-left at (3, 3)
    assert_eq!(sorted(live_cells(&b)), sorted(vec![(3, 3), (3, 4), (5, 4), (3, 5), (4, 5)]));
}

#[test]
fn set_cells_empty_grid_changes_nothing() {
    let mut b = board_with(8, Boundary::Clipped, &[(1, 1)]);
    b.set_cells(vec![], 3, 3);
    assert_eq!(live_cells(&b), vec![(1, 1)]);
    b.set_cells(vec![vec![1, 2], vec![0, 1]], 1, 1);
    // 2 wide, 2 high: top-left at (0, 0); a 2 is a dead cell
    assert_eq!(sorted(live_cells(&b)), sorted(vec![(0, 0), (1, 1)]));
}

#[test]
fn glider_grid_is_canonical() {
    assert_eq!(Pattern::Glider.grid(), vec![vec![0, 1, 0], vec![0, 0, 1], vec![1, 1, 1]]);
    assert_eq!(Pattern::Toad.grid(), vec![vec![0, 1, 1, 1, 0], vec![1, 1, 1, 0, 0]]);
    let gun = Pattern::GliderGun.grid();
    assert_eq!(gun.len(), 10);
    assert!(gun.iter().all(|r| r.len() == 37));
    assert_eq!(count_ones(&gun), 36);
    assert_eq!(count_ones(&Pattern::Acorn.grid()), 7);
    assert_eq!(count_ones(&Pattern::Beacon.grid()), 8);
}

#[test]
fn rotated_glider_grids() {
    let g = Pattern::Glider;
    assert_eq!(g.rotated_grid(Direction::North), g.grid());
    assert_eq!(g.rotated_grid(Direction::East), vec![vec![1, 0, 0], vec![1, 0, 1], vec![1, 1, 0]]);
    assert_eq!(g.rotated_grid(Direction::South), vec![vec![1, 1, 1], vec![1, 0, 0], vec![0, 1, 0]]);
    assert_eq!(g.rotated_grid(Direction::West), vec![vec![0, 1, 1], vec![1, 0, 1], vec![0, 0, 1]]);
    let t = Pattern::Toad.rotated_grid(Direction::East);
    assert_eq!(t.len(), 5);
    assert!(t.iter().all(|r| r.len() == 2));
}

#[test]
fn four_quarter_turns_restore_every_pattern() {
    for p in [Pattern::Glider, Pattern::Beacon, Pattern::Toad, Pattern::GliderGun, Pattern::Acorn] {
        let g = p.grid();
        let mut r = g.clone();
        for _ in 0..4 {
            r = rotate_grid(&r, Direction::East);
        }
        assert_eq!(r, g);
        let half = rotate_grid(&rotate_grid(&g, Direction::East), Direction::East);
        assert_eq!(half, p.rotated_grid(Direction::South));
    }
}

#[test]
fn rotation_keeps_live_count() {
    for p in [Pattern::Glider, Pattern::Beacon, Pattern::Toad, Pattern::GliderGun, Pattern::Acorn] {
        let n = count_ones(&p.grid());
        for d in [Direction::North, Direction::East, Direction::South, Direction::West] {
            assert_eq!(count_ones(&p.rotated_grid(d)), n);
        }
    }
}

#[test]
fn directions_and_patterns_by_index() {
    assert_eq!(Direction::from_repr(0), Some(Direction::North));
    assert_eq!(Direction::from_repr(3), Some(Direction::West));
    assert_eq!(Direction::from_repr(4), None);
    assert_eq!(Direction::from_draw(2), Direction::South);
    assert_eq!(Direction::from_draw(9), Direction::North);
    assert_eq!(Pattern::from_repr(3), Some(Pattern::GliderGun));
    assert_eq!(Pattern::from_repr(5), None);
    assert_eq!(Pattern::from_draw(4), Pattern::Acorn);
    assert_eq!(Pattern::from_draw(7), Pattern::Glider);
}

#[test]
fn random_choices_come_from_the_catalog() {
    for _ in 0..50 {
        let d = Direction::get_random_direction();
        assert!(matches!(d, Direction::North | Direction::East | Direction::South | Direction::West));
        let p = Pattern::get_random_pattern();
        assert!(p.grid().len() > 0);
    }
}

#[test]
fn texture_data_marks_live_cells_red() {
    let b = board_with(2, Boundary::Clipped, &[(1, 0)]);
    assert_eq!(create_data_from_board(&b), vec![0, 0, 0, 255, 0, 0, 0, 0, 0, 0, 0, 0]);
}

#[test]
fn status_suffix() {
    assert_eq!(sim_state_to_string(true), "");
    assert_eq!(sim_state_to_string(false), ":: Paused");
}
