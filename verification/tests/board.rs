use game_of_life::board::Board;
use game_of_life::cell::{Cell, CellState};

fn board_of(cells: &[(i32, i32)]) -> Board {
    let mut board = Board::new();
    for cell in cells {
        board.spawn(*cell);
    }
    board
}

fn sorted_points(board: &Board) -> Vec<(i32, i32)> {
    let mut points = board.points();
    points.sort();
    points
}

fn sorted(cells: &[(i32, i32)]) -> Vec<(i32, i32)> {
    let mut cells = cells.to_vec();
    cells.sort();
    cells
}

#[test]
fn empty_board_is_dead_everywhere() {
    let board = Board::new();
    for x in -3..4 {
        for y in -3..4 {
            assert_eq!(board.get((x, y)), CellState::Dead);
        }
    }
    assert_eq!(board.get((i32::MIN, i32::MAX)), CellState::Dead);
    assert_eq!(board.get((i32::MAX, i32::MIN)), CellState::Dead);
    assert!(board.points().is_empty());
}

#[test]
fn spawned_cell_is_alive() {
    let mut board = Board::new();
    board.spawn((3, 4));
    assert_eq!(board.get((3, 4)), CellState::Alive);
    assert_eq!(board.get((4, 3)), CellState::Dead);
}

#[test]
fn spawn_takes_negative_coordinates() {
    let mut board = Board::new();
    board.spawn((-7, -2));
    board.spawn((-1, 5));
    assert_eq!(board.get((-7, -2)), CellState::Alive);
    assert_eq!(board.get((-1, 5)), CellState::Alive);
    assert_eq!(board.get((7, 2)), CellState::Dead);
    assert_eq!(board.get((-2, -7)), CellState::Dead);
    assert_eq!(sorted_points(&board), vec![(-7, -2), (-1, 5)]);
}

#[test]
fn spawn_takes_the_corners_of_the_grid() {
    let corners = [
        (i32::MIN, i32::MIN),
        (i32::MIN, i32::MAX),
        (i32::MAX, i32::MIN),
        (i32::MAX, i32::MAX),
    ];
    let board = board_of(&corners);
    for corner in corners {
        assert_eq!(board.get(corner), CellState::Alive);
    }
    assert_eq!(board.get((0, 0)), CellState::Dead);
    assert_eq!(board.get((i32::MIN + 1, i32::MIN)), CellState::Dead);
    assert_eq!(sorted_points(&board), sorted(&corners));
}

#[test]
fn columns_and_rows_are_not_mixed_up() {
    let board = board_of(&[(1, 0)]);
    assert_eq!(board.get((1, 0)), CellState::Alive);
    assert_eq!(board.get((0, 1)), CellState::Dead);
    assert_eq!(board.get((0, 0)), CellState::Dead);
    assert_eq!(board.get((-1, 0)), CellState::Dead);
}

#[test]
fn spawn_is_idempotent() {
    let mut once = Board::new();
    once.spawn((2, -9));
    let mut twice = Board::new();
    twice.spawn((2, -9));
    twice.spawn((2, -9));
    assert_eq!(sorted_points(&once), sorted_points(&twice));
    assert_eq!(twice.points().len(), 1);
    assert_eq!(twice.get((2, -9)), CellState::Alive);
}

#[test]
fn points_lists_each_live_cell_once() {
    let board = board_of(&[(0, 0), (5, -5), (0, 0), (-5, 5), (5, -5)]);
    assert_eq!(sorted_points(&board), vec![(-5, 5), (0, 0), (5, -5)]);
}

#[test]
fn surrounding_gives_the_eight_neighbors_in_order() {
    assert_eq!(
        Board::surrounding((10, 20)),
        [(9, 20), (11, 20), (10, 19), (10, 21), (11, 21), (11, 19), (9, 21), (9, 19)]
    );
    assert_eq!(
        Board::surrounding((0, 0)),
        [(-1, 0), (1, 0), (0, -1), (0, 1), (1, 1), (1, -1), (-1, 1), (-1, -1)]
    );
}

#[test]
fn surrounding_works_next_to_the_rim() {
    let around = Board::surrounding((i32::MAX - 1, i32::MIN + 1));
    assert_eq!(around[1], (i32::MAX, i32::MIN + 1));
    assert_eq!(around[2], (i32::MAX - 1, i32::MIN));
    assert_eq!(around[5], (i32::MAX, i32::MIN));
}

#[test]
fn get_neighbors_reports_each_neighbor_in_order() {
    let alive = CellState::Alive;
    let dead = CellState::Dead;
    let board = board_of(&[(-1, 0), (1, 1), (-1, -1), (0, 0), (2, 0)]);
    assert_eq!(board.get_neighbors((0, 0)), [alive, dead, dead, dead, alive, dead, dead, alive]);
    let board = board_of(&[(1, 0), (0, -1), (0, 1), (1, -1), (-1, 1)]);
    assert_eq!(board.get_neighbors((0, 0)), [dead, alive, alive, alive, dead, alive, alive, dead]);
}

#[test]
fn living_neighbors_are_counted() {
    let board = board_of(&[(4, 4), (5, 4), (4, 5), (5, 5)]);
    assert_eq!(board.number_of_living_neighbors((4, 4)), 3);
    assert_eq!(board.number_of_living_neighbors((3, 3)), 1);
    assert_eq!(board.number_of_living_neighbors((6, 4)), 2);
    assert_eq!(board.number_of_living_neighbors((3, 4)), 2);
    assert_eq!(board.number_of_living_neighbors((9, 9)), 0);
}

#[test]
fn the_cell_itself_is_not_its_neighbor() {
    let board = board_of(&[(0, 0)]);
    assert_eq!(board.number_of_living_neighbors((0, 0)), 0);
    assert_eq!(board.number_of_living_neighbors((1, 1)), 1);
}

#[test]
fn living_neighbors_never_exceed_eight() {
    let mut board = Board::new();
    for x in -2..3 {
        for y in -2..3 {
            board.spawn((x, y));
        }
    }
    assert_eq!(board.number_of_living_neighbors((0, 0)), 8);
    assert_eq!(board.number_of_living_neighbors((2, 2)), 3);
    assert_eq!(board.number_of_living_neighbors((2, 0)), 5);
    assert_eq!(board.number_of_living_neighbors((3, 3)), 1);
    for x in -4..5 {
        for y in -4..5 {
            assert!(board.number_of_living_neighbors((x, y)) <= 8);
        }
    }
}

#[test]
fn all_four_diagonals_count() {
    let board = board_of(&[(1, 1), (1, -1), (-1, 1), (-1, -1)]);
    assert_eq!(board.number_of_living_neighbors((0, 0)), 4);
    let board = board_of(&[(1, 0), (-1, 0), (0, 1), (0, -1)]);
    assert_eq!(board.number_of_living_neighbors((0, 0)), 4);
}

#[test]
fn dead_neighbors_are_listed_in_order() {
    let board = board_of(&[(-1, 0), (1, 1), (-1, -1)]);
    assert_eq!(
        board.get_dead_neighbors((0, 0)),
        vec![(1, 0), (0, -1), (0, 1), (1, -1), (-1, 1)]
    );
    let empty = Board::new();
    assert_eq!(
        empty.get_dead_neighbors((0, 0)),
        vec![(-1, 0), (1, 0), (0, -1), (0, 1), (1, 1), (1, -1), (-1, 1), (-1, -1)]
    );
}

#[test]
fn a_crowded_cell_has_no_dead_neighbors() {
    let mut board = Board::new();
    for x in -1..2 {
        for y in -1..2 {
            board.spawn((x, y));
        }
    }
    assert!(board.get_dead_neighbors((0, 0)).is_empty());
}

#[test]
fn make_glider_spawns_the_five_cells() {
    let mut board = Board::new();
    board.make_glider((0, 0));
    assert_eq!(sorted_points(&board), sorted(&[(0, 0), (1, 1), (-1, 2), (0, 2), (1, 2)]));
    let mut board = Board::new();
    board.make_glider((5, 5));
    assert_eq!(sorted_points(&board), sorted(&[(5, 5), (6, 6), (4, 7), (5, 7), (6, 7)]));
}

#[test]
fn make_glider_keeps_what_is_there() {
    let mut board = board_of(&[(40, 40), (0, 0)]);
    board.make_glider((0, 0));
    assert_eq!(
        sorted_points(&board),
        sorted(&[(40, 40), (0, 0), (1, 1), (-1, 2), (0, 2), (1, 2)])
    );
}

#[test]
fn block_is_stable() {
    let block = [(0, 0), (1, 0), (0, 1), (1, 1)];
    let mut board = board_of(&block);
    for _ in 0..3 {
        board = board.progess();
        assert_eq!(sorted_points(&board), sorted(&block));
    }
    let far = [(-100, 70), (-99, 70), (-100, 71), (-99, 71)];
    let board = board_of(&far).progess();
    assert_eq!(sorted_points(&board), sorted(&far));
}

#[test]
fn blinker_oscillates() {
    let row = [(-1, 0), (0, 0), (1, 0)];
    let column = [(0, -1), (0, 0), (0, 1)];
    let board = board_of(&row).progess();
    assert_eq!(sorted_points(&board), sorted(&column));
    let board = board.progess();
    assert_eq!(sorted_points(&board), sorted(&row));
}

#[test]
fn glider_has_its_four_stages() {
    let mut board = Board::new();
    board.make_glider((0, 0));
    let board = board.progess();
    assert_eq!(sorted_points(&board), sorted(&[(-1, 1), (1, 1), (0, 2), (1, 2), (0, 3)]));
    let board = board.progess();
    assert_eq!(sorted_points(&board), sorted(&[(1, 1), (-1, 2), (1, 2), (0, 3), (1, 3)]));
    let board = board.progess();
    assert_eq!(sorted_points(&board), sorted(&[(0, 1), (1, 2), (2, 2), (0, 3), (1, 3)]));
    let board = board.progess();
    assert_eq!(sorted_points(&board), sorted(&[(1, 1), (2, 2), (0, 3), (1, 3), (2, 3)]));
}

#[test]
fn glider_travels_one_step_along_both_axes() {
    let mut board = Board::new();
    board.make_glider((0, 0));
    for _ in 0..4 {
        board = board.progess();
    }
    let mut moved = Board::new();
    moved.make_glider((1, 1));
    assert_eq!(sorted_points(&board), sorted_points(&moved));
    for _ in 0..8 {
        board = board.progess();
    }
    let mut moved = Board::new();
    moved.make_glider((3, 3));
    assert_eq!(sorted_points(&board), sorted_points(&moved));
}

#[test]
fn single_cell_dies() {
    let board = board_of(&[(3, 3)]).progess();
    assert!(board.points().is_empty());
    assert_eq!(board.get((3, 3)), CellState::Dead);
}

#[test]
fn cell_with_one_neighbor_dies() {
    let board = board_of(&[(0, 0), (1, 0)]).progess();
    assert!(board.points().is_empty());
}

#[test]
fn empty_board_stays_empty() {
    let board = Board::new().progess();
    assert!(board.points().is_empty());
}

#[test]
fn crowded_cell_dies() {
    // the centre has four living neighbours
    let board = board_of(&[(0, 0), (1, 0), (-1, 0), (0, 1), (0, -1)]);
    assert_eq!(board.number_of_living_neighbors((0, 0)), 4);
    let next = board.progess();
    assert_eq!(next.get((0, 0)), CellState::Dead);
    assert_eq!(
        sorted_points(&next),
        sorted(&[(1, 0), (-1, 0), (0, 1), (0, -1), (1, 1), (1, -1), (-1, 1), (-1, -1)])
    );
}

#[test]
fn cell_with_eight_neighbors_dies() {
    let mut board = Board::new();
    for x in -1..2 {
        for y in -1..2 {
            board.spawn((x, y));
        }
    }
    let next = board.progess();
    assert_eq!(next.get((0, 0)), CellState::Dead);
    assert_eq!(next.get((1, 1)), CellState::Alive);
    assert_eq!(next.get((1, 0)), CellState::Dead);
    assert_eq!(next.get((2, 0)), CellState::Alive);
}

#[test]
fn cell_with_two_or_three_neighbors_survives() {
    // (0, 0) has two living neighbours, (1, 0) has three
    let board = board_of(&[(0, 0), (1, 0), (-1, 1), (2, 1), (1, -1)]);
    assert_eq!(board.number_of_living_neighbors((0, 0)), 3);
    let next = board.progess();
    assert_eq!(next.get((0, 0)), CellState::Alive);
    assert_eq!(next.get((1, 0)), CellState::Alive);
    let board = board_of(&[(0, 0), (1, 1), (-1, -1)]);
    assert_eq!(board.number_of_living_neighbors((0, 0)), 2);
    let next = board.progess();
    assert_eq!(sorted_points(&next), vec![(0, 0)]);
}

#[test]
fn dead_cell_with_three_neighbors_is_born() {
    let board = board_of(&[(-1, 0), (1, 0), (0, 1)]);
    assert_eq!(board.get((0, 0)), CellState::Dead);
    assert_eq!(board.number_of_living_neighbors((0, 0)), 3);
    let next = board.progess();
    assert_eq!(next.get((0, 0)), CellState::Alive);
}

#[test]
fn dead_cell_with_two_neighbors_stays_dead() {
    let board = board_of(&[(-1, 0), (1, 0)]);
    assert_eq!(board.number_of_living_neighbors((0, 0)), 2);
    let next = board.progess();
    assert_eq!(next.get((0, 0)), CellState::Dead);
    assert!(next.points().is_empty());
}

#[test]
fn dead_cell_with_four_neighbors_stays_dead() {
    let board = board_of(&[(-1, 0), (1, 0), (0, 1), (0, -1)]);
    assert_eq!(board.get((0, 0)), CellState::Dead);
    assert_eq!(board.number_of_living_neighbors((0, 0)), 4);
    let next = board.progess();
    assert_eq!(next.get((0, 0)), CellState::Dead);
    assert_eq!(sorted_points(&next), sorted(&[(-1, 0), (1, 0), (0, 1), (0, -1)]));
}

#[test]
fn life_goes_on_across_the_axes() {
    let row = [(-1, -1), (0, -1), (1, -1)];
    let board = board_of(&row).progess();
    assert_eq!(sorted_points(&board), sorted(&[(0, -2), (0, -1), (0, 0)]));
}

#[test]
fn has_room_tells_when_the_board_can_advance() {
    assert!(Board::new().has_room());
    assert!(board_of(&[(0, 0), (-50, 50)]).has_room());
    assert!(board_of(&[(i32::MIN + 2, i32::MAX - 2)]).has_room());
    assert!(!board_of(&[(i32::MIN + 1, 0)]).has_room());
    assert!(!board_of(&[(0, i32::MIN + 1)]).has_room());
    assert!(!board_of(&[(i32::MAX - 1, 0)]).has_room());
    assert!(!board_of(&[(0, 0), (0, i32::MAX)]).has_room());
}

#[test]
fn life_goes_on_next_to_the_rim() {
    let x = i32::MAX - 2;
    let y = i32::MIN + 2;
    let board = board_of(&[(x, y - 0), (x - 1, y), (x - 2, y)]);
    assert!(board.has_room());
    let next = board.progess();
    assert_eq!(sorted_points(&next), sorted(&[(x - 1, y - 1), (x - 1, y), (x - 1, y + 1)]));
}

#[test]
fn draw_gives_one_line_per_row() {
    let board = board_of(&[(0, 0), (2, 1), (5, 5), (-1, 0)]);
    assert_eq!(board.draw(3, 2), "█  \n  █\n");
    assert_eq!(board.draw(1, 1), "█\n");
    assert_eq!(board.draw(2, 3), "█ \n  \n  \n");
}

#[test]
fn draw_of_an_empty_window_is_empty() {
    let board = board_of(&[(0, 0)]);
    assert_eq!(board.draw(3, 0), "");
    assert_eq!(board.draw(3, -1), "");
    assert_eq!(board.draw(0, 2), "\n\n");
    assert_eq!(board.draw(-4, 2), "\n\n");
}

#[test]
fn draw_shows_the_glider() {
    let mut board = Board::new();
    board.make_glider((1, 0));
    assert_eq!(board.draw(4, 4), " █  \n  █ \n███ \n    \n");
}

#[test]
fn cell_text_is_a_block_or_a_blank() {
    assert_eq!(Cell { state: CellState::Alive }.text(), "█");
    assert_eq!(Cell { state: CellState::Dead }.text(), " ");
}
