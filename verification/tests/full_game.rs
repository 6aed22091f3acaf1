use peg_solitaire::board::{CellState, create_grid};
use peg_solitaire::search::game_recursion;

#[test]
fn full_game_finds_solution() {
    let mut grid = create_grid();
    assert!(game_recursion(&mut grid, 0));
    // The search leaves the winning configuration applied: one peg remains.
    let mut occupied = 0;
    for row in 0..7 {
        for col in 0..7 {
            if grid.get(row, col) == CellState::Occupied {
                occupied += 1;
            }
        }
    }
    assert_eq!(occupied, 1);
}
