use peg_solitaire::board::{Board, CellState, Direction, Movement, create_grid};
use peg_solitaire::moves::{is_movable, put_piece, undo_move};
use peg_solitaire::render::render_grid;
use peg_solitaire::search::game_recursion;

/// A board whose playable cells are empty except for pegs at the given
/// coordinates; the corner blocks are unplayable.
fn board_with_pegs(pegs: &[(usize, usize)]) -> Board {
    let mut cells: Vec<CellState> = Vec::new();
    for i in 0..49 {
        let (row, col) = (i / 7, i % 7);
        if (row <= 1 || row >= 5) && (col <= 1 || col >= 5) {
            cells.push(CellState::Unplayable);
        } else if pegs.contains(&(row, col)) {
            cells.push(CellState::Occupied);
        } else {
            cells.push(CellState::Empty);
        }
    }
    Board::from_cells(cells).expect("a well-formed board")
}

fn occupied_cells(b: &Board) -> usize {
    let mut n = 0;
    for row in 0..7 {
        for col in 0..7 {
            if b.get(row, col) == CellState::Occupied {
                n += 1;
            }
        }
    }
    n
}

fn snapshot(b: &Board) -> Vec<CellState> {
    let mut cells = Vec::new();
    for row in 0..7 {
        for col in 0..7 {
            cells.push(b.get(row, col));
        }
    }
    cells
}

#[test]
fn create_grid_counts() {
    let grid = create_grid();
    let mut occupied = 0;
    let mut empty = 0;
    let mut unplayable = 0;
    for row in 0..7 {
        for col in 0..7 {
            match grid.get(row, col) {
                CellState::Occupied => occupied += 1,
                CellState::Empty => empty += 1,
                CellState::Unplayable => unplayable += 1,
            }
        }
    }
    assert_eq!(occupied, 32);
    assert_eq!(empty, 1);
    assert_eq!(unplayable, 16);
}

#[test]
fn create_grid_cells() {
    let grid = create_grid();
    for row in 0..7 {
        for col in 0..7 {
            let corner = (row <= 1 || row >= 5) && (col <= 1 || col >= 5);
            let state = grid.get(row, col);
            if corner {
                assert_eq!(state, CellState::Unplayable);
            } else if row == 3 && col == 3 {
                assert_eq!(state, CellState::Empty);
            } else {
                assert_eq!(state, CellState::Occupied);
            }
        }
    }
}

#[test]
fn direction_iterator_order() {
    let dirs = Direction::iterator();
    assert_eq!(
        dirs,
        vec![Direction::North, Direction::South, Direction::East, Direction::West]
    );
}

#[test]
fn first_legal_move_from_start() {
    let grid = create_grid();
    let mut first: Option<Movement> = None;
    'scan: for row in 0..7 {
        for col in 0..7 {
            for direction in Direction::iterator() {
                let movement = Movement { row, col, direction };
                if is_movable(&grid, &movement) {
                    first = Some(movement);
                    break 'scan;
                }
            }
        }
    }
    let movement = first.expect("the starting board has a legal move");
    assert_eq!(movement.row, 1);
    assert_eq!(movement.col, 3);
    assert_eq!(movement.direction, Direction::South);
}

#[test]
fn corner_origin_always_illegal() {
    let grid = create_grid();
    for direction in Direction::iterator() {
        let movement = Movement { row: 0, col: 0, direction };
        assert!(!is_movable(&grid, &movement));
    }
}

#[test]
fn off_grid_origin_illegal() {
    let grid = create_grid();
    for direction in Direction::iterator() {
        let movement = Movement { row: 9, col: 3, direction };
        assert!(!is_movable(&grid, &movement));
    }
}

#[test]
fn apply_changes_exactly_three_cells() {
    let mut grid = create_grid();
    let before = snapshot(&grid);
    let movement = Movement { row: 1, col: 3, direction: Direction::South };
    assert!(is_movable(&grid, &movement));
    put_piece(&mut grid, &movement);
    for row in 0..7 {
        for col in 0..7 {
            let state = grid.get(row, col);
            if (row, col) == (1, 3) || (row, col) == (2, 3) {
                assert_eq!(state, CellState::Empty);
            } else if (row, col) == (3, 3) {
                assert_eq!(state, CellState::Occupied);
            } else {
                assert_eq!(state, before[row * 7 + col]);
            }
        }
    }
}

#[test]
fn apply_undo_round_trip() {
    let mut grid = create_grid();
    let before = snapshot(&grid);
    let movement = Movement { row: 1, col: 3, direction: Direction::South };
    assert!(is_movable(&grid, &movement));
    put_piece(&mut grid, &movement);
    undo_move(&mut grid, &movement);
    assert_eq!(snapshot(&grid), before);
}

#[test]
fn peg_count_monotonic() {
    let mut grid = create_grid();
    assert_eq!(occupied_cells(&grid), 32);
    let movement = Movement { row: 1, col: 3, direction: Direction::South };
    put_piece(&mut grid, &movement);
    assert_eq!(occupied_cells(&grid), 31);
    undo_move(&mut grid, &movement);
    assert_eq!(occupied_cells(&grid), 32);
}

#[test]
fn dead_end_search_fails() {
    let mut grid = board_with_pegs(&[(3, 0), (3, 6)]);
    let before = snapshot(&grid);
    assert!(!game_recursion(&mut grid, 29));
    assert_eq!(snapshot(&grid), before);
}

#[test]
fn four_pegs_in_a_line_unsolvable() {
    let mut grid = board_with_pegs(&[(3, 1), (3, 2), (3, 4), (3, 5)]);
    assert!(!game_recursion(&mut grid, 28));
}

#[test]
fn near_win_search_succeeds() {
    let mut grid = board_with_pegs(&[(3, 1), (3, 2)]);
    assert!(game_recursion(&mut grid, 30));
    // The winning jump stays applied: (3,1) over (3,2) into (3,3).
    assert_eq!(occupied_cells(&grid), 1);
    assert_eq!(grid.get(3, 3), CellState::Occupied);
}

#[test]
fn three_peg_search_succeeds() {
    let mut grid = board_with_pegs(&[(3, 1), (3, 2), (4, 3)]);
    assert!(game_recursion(&mut grid, 29));
    assert_eq!(occupied_cells(&grid), 1);
}

#[test]
fn winning_depth_reports_success() {
    let mut grid = board_with_pegs(&[(3, 3)]);
    let before = snapshot(&grid);
    assert!(game_recursion(&mut grid, 31));
    assert_eq!(snapshot(&grid), before);
}

#[test]
fn render_initial_board() {
    let grid = create_grid();
    let expected = "    X X X     \n    X X X     \nX X X X X X X \nX X X _ X X X \nX X X X X X X \n    X X X     \n    X X X     \n";
    assert_eq!(render_grid(&grid), expected);
}

#[test]
fn from_cells_validation() {
    assert!(Board::from_cells(vec![CellState::Empty; 48]).is_none());
    let mut with_corner_peg: Vec<CellState> = Vec::new();
    for i in 0..49 {
        let (row, col) = (i / 7, i % 7);
        if i == 0 {
            with_corner_peg.push(CellState::Occupied);
        } else if (row <= 1 || row >= 5) && (col <= 1 || col >= 5) {
            with_corner_peg.push(CellState::Unplayable);
        } else {
            with_corner_peg.push(CellState::Empty);
        }
    }
    assert!(Board::from_cells(with_corner_peg).is_none());
    let good = board_with_pegs(&[(2, 2), (3, 4)]);
    assert_eq!(good.get(2, 2), CellState::Occupied);
    assert_eq!(good.get(3, 4), CellState::Occupied);
    assert_eq!(good.get(3, 3), CellState::Empty);
    assert_eq!(good.get(0, 6), CellState::Unplayable);
}
