use battleship::board::{Board, Orientation, PlacementError, WATER};

fn assert_check_bounds(board: &Board, x: usize, y: usize, expected: bool) {
    assert!(
        board.check_bounds(x, y) == expected,
        "Expected check_bounds to return {} for ({}, {}) when grid_size is {}",
        expected,
        x,
        y,
        board.grid_size
    );
}

fn assert_check_bounds_ship(
    board: &Board,
    x: usize,
    y: usize,
    orientation: &Orientation,
    expected: bool,
) {
    assert!(
        board.check_bounds_ship(x, y, orientation) == expected,
        "Expected check_bounds_ship to return {} for ship ({}, {}) ({:?}) when grid_size is {}",
        expected,
        x,
        y,
        orientation,
        board.grid_size
    );
}

#[test]
fn test_check_bounds() {
    let board = Board::new(10, 2);

    assert_check_bounds(&board, 0, 0, true);
    assert_check_bounds(&board, 5, 5, true);
    assert_check_bounds(&board, 9, 9, true);
    assert_check_bounds(&board, 10, 10, false);
    assert_check_bounds(&board, 10, 5, false);
    assert_check_bounds(&board, 5, 10, false);
}

#[test]
fn test_check_bounds_ship() {
    let board = Board::new(10, 2);

    assert_check_bounds_ship(&board, 0, 0, &Orientation::Horizontal, true);
    assert_check_bounds_ship(&board, 0, 0, &Orientation::Vertical, true);
    assert_check_bounds_ship(&board, 8, 9, &Orientation::Horizontal, true);
    assert_check_bounds_ship(&board, 9, 8, &Orientation::Vertical, true);
    assert_check_bounds_ship(&board, 9, 9, &Orientation::Horizontal, false);
    assert_check_bounds_ship(&board, 9, 8, &Orientation::Horizontal, false);
    assert_check_bounds_ship(&board, 9, 9, &Orientation::Vertical, false);
    assert_check_bounds_ship(&board, 8, 9, &Orientation::Vertical, false);
}

#[test]
fn test_place_ship() {
    let mut board = Board::new(10, 10);

    assert!(board.get_remaining_ships_count() == 0);

    board.place_ship(0, 0, Orientation::Horizontal, '1');

    assert!(board.get_remaining_ships_count() == 1);
    assert!(board.get_ship_by_id('1').is_some());
}

#[test]
fn test_place_ship_occupies_exact_cells() {
    let mut board = Board::new(5, 3);

    assert_eq!(board.validate_placement(1, 2, Orientation::Vertical), Ok(()));
    board.place_ship(1, 2, Orientation::Vertical, '7');

    let mut marked: usize = 0;
    for y in 0..5 {
        for x in 0..5 {
            if board.grid[y][x] == '7' {
                marked += 1;
            }
        }
    }
    assert_eq!(marked, 3);
    assert_eq!(board.grid[2][1], '7');
    assert_eq!(board.grid[3][1], '7');
    assert_eq!(board.grid[4][1], '7');

    let ship = board.get_ship_by_id('7').expect("ship should be live");
    assert_eq!(ship.coordinates.len(), 3);
    assert!(!ship.is_sunk);
}

#[test]
fn test_validate_placement_out_of_bounds() {
    let board = Board::new(10, 2);

    // The run starting at (9, 9) would reach the cell (10, 9), off the grid.
    let before = board.grid.clone();
    assert_eq!(
        board.validate_placement(9, 9, Orientation::Horizontal),
        Err(PlacementError::OutOfBounds)
    );
    assert_eq!(
        board.validate_placement(9, 9, Orientation::Vertical),
        Err(PlacementError::OutOfBounds)
    );
    assert_eq!(board.grid, before);
    assert_eq!(board.get_remaining_ships_count(), 0);
}

#[test]
fn test_validate_placement_overlap() {
    let mut board = Board::new(10, 2);
    board.place_ship(3, 3, Orientation::Horizontal, '1');

    let before = board.grid.clone();
    assert_eq!(
        board.validate_placement(4, 3, Orientation::Horizontal),
        Err(PlacementError::Overlap)
    );
    assert_eq!(
        board.validate_placement(4, 2, Orientation::Vertical),
        Err(PlacementError::Overlap)
    );
    assert_eq!(board.grid, before);

    // The first ship is intact and still attributed to its id.
    assert_eq!(board.grid[3][3], '1');
    assert_eq!(board.grid[3][4], '1');
    let ship = board.get_ship_by_id('1').expect("first ship should be live");
    assert_eq!(ship.id, '1');
    assert_eq!(ship.coordinates.len(), 2);
}

#[test]
fn test_validate_placement_ok_on_open_water() {
    let board = Board::new(10, 2);

    assert_eq!(board.validate_placement(0, 0, Orientation::Horizontal), Ok(()));
    assert_eq!(board.validate_placement(8, 9, Orientation::Horizontal), Ok(()));
    assert_eq!(board.validate_placement(9, 8, Orientation::Vertical), Ok(()));
}

#[test]
fn test_shoot_water_is_idempotent_miss() {
    let mut board = Board::new(10, 2);
    board.place_ship(0, 0, Orientation::Horizontal, '1');

    let before = board.grid.clone();
    assert_eq!(board.shoot(5, 5), None);
    assert_eq!(board.grid, before);
    assert_eq!(board.get_remaining_ships_count(), 1);
    assert_eq!(board.shoot(5, 5), None);
    assert_eq!(board.grid, before);
    assert_eq!(board.get_remaining_ships_count(), 1);
}

#[test]
fn test_shoot_hit_sinks_whole_ship() {
    let mut board = Board::new(10, 2);
    board.place_ship(0, 0, Orientation::Horizontal, '1');
    board.place_ship(4, 4, Orientation::Vertical, '2');
    assert_eq!(board.get_remaining_ships_count(), 2);

    // One hit anywhere on the ship sinks it entirely.
    assert_eq!(board.shoot(1, 0), Some('1'));
    assert_eq!(board.get_remaining_ships_count(), 1);
    assert_eq!(board.grid[0][0], WATER);
    assert_eq!(board.grid[0][1], WATER);
    assert!(board.get_ship_by_id('1').is_none());

    // Former cells of the sunk ship are plain water now.
    assert_eq!(board.shoot(0, 0), None);
    assert_eq!(board.shoot(1, 0), None);
    assert_eq!(board.get_remaining_ships_count(), 1);

    // The other ship is untouched.
    assert_eq!(board.grid[4][4], '2');
    assert_eq!(board.grid[5][4], '2');
}

#[test]
fn test_remaining_count_depletes_to_zero() {
    let mut board = Board::new(10, 2);
    board.place_ship(0, 0, Orientation::Horizontal, '1');
    board.place_ship(0, 2, Orientation::Horizontal, '2');
    board.place_ship(0, 4, Orientation::Horizontal, '3');
    assert_eq!(board.get_remaining_ships_count(), 3);

    assert_eq!(board.shoot(0, 0), Some('1'));
    assert_eq!(board.get_remaining_ships_count(), 2);
    assert_eq!(board.shoot(1, 2), Some('2'));
    assert_eq!(board.get_remaining_ships_count(), 1);
    assert_eq!(board.shoot(0, 4), Some('3'));
    assert_eq!(board.get_remaining_ships_count(), 0);
}

#[test]
fn test_full_length_ship_on_small_board() {
    let mut board = Board::new(5, 5);

    assert_eq!(board.validate_placement(0, 0, Orientation::Vertical), Ok(()));
    board.place_ship(0, 0, Orientation::Vertical, '9');
    for y in 0..5 {
        assert_eq!(board.grid[y][0], '9');
    }
    assert_eq!(board.shoot(0, 4), Some('9'));
    for y in 0..5 {
        assert_eq!(board.grid[y][0], WATER);
    }
    assert_eq!(board.get_remaining_ships_count(), 0);
}
