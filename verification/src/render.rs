//! Textual rendering of a board: one line per row, two characters per cell
//! (a blank for an unplayable cell, an underscore for an empty cell, an X
//! for a peg, each followed by a space), each row ended by a newline.

use vstd::prelude::*;
use vstd::string::StringExecFns;
use crate::board::{Board, CellState, cell_at};

verus! {

/// The two characters that render one cell.
pub open spec fn cell_chars(s: CellState) -> Seq<char> {
    match s {
        CellState::Unplayable => seq![' ', ' '],
        CellState::Empty => seq!['_', ' '],
        CellState::Occupied => seq!['X', ' '],
    }
}

/// The characters of row r from column c on, including the closing newline.
pub open spec fn row_chars(b: Seq<CellState>, r: int, c: int) -> Seq<char>
    decreases 7 - c,
{
    if c >= 7 {
        seq!['\n']
    } else {
        cell_chars(cell_at(b, r, c)) + row_chars(b, r, c + 1)
    }
}

/// The characters of all rows from r on.
pub open spec fn grid_chars(b: Seq<CellState>, r: int) -> Seq<char>
    decreases 7 - r,
{
    if r >= 7 {
        Seq::empty()
    } else {
        row_chars(b, r, 0) + grid_chars(b, r + 1)
    }
}

/// The full rendering of a board.
pub open spec fn render_spec(b: Seq<CellState>) -> Seq<char> {
    grid_chars(b, 0)
}

/// Renders the board as text, exactly as the rendering specification says.
pub fn render_grid(grid: &Board) -> (r: String)
    requires
        grid@.len() == 49,
    ensures
        r@ == render_spec(grid@),
{
    let ghost b: Seq<CellState> = grid@;
    let mut buffer = String::new();
    proof {
        assert(buffer@ + grid_chars(b, 0) =~= render_spec(b));
    }
    let mut row: usize = 0;
    while row < 7
        invariant
            grid@ == b,
            b.len() == 49,
            row <= 7,
            buffer@ + grid_chars(b, row as int) == render_spec(b),
        decreases 7 - row,
    {
        let ghost buf_row: Seq<char> = buffer@;
        let mut col: usize = 0;
        while col < 7
            invariant
                grid@ == b,
                b.len() == 49,
                row < 7,
                col <= 7,
                buffer@ + row_chars(b, row as int, col as int) == buf_row + row_chars(
                    b,
                    row as int,
                    0,
                ),
            decreases 7 - col,
        {
            let ghost buf_cell: Seq<char> = buffer@;
            match grid.get(row, col) {
                CellState::Unplayable => buffer.append("  "),
                CellState::Empty => buffer.append("_ "),
                CellState::Occupied => buffer.append("X "),
            }
            proof {
                reveal_strlit("  ");
                reveal_strlit("_ ");
                reveal_strlit("X ");
                assert(buffer@ =~= buf_cell + cell_chars(cell_at(b, row as int, col as int)));
                assert(buffer@ + row_chars(b, row as int, col as int + 1) =~= buf_cell
                    + row_chars(b, row as int, col as int));
            }
            col = col + 1;
        }
        buffer.append("\n");
        proof {
            reveal_strlit("\n");
            assert(row_chars(b, row as int, 7) == seq!['\n']);
            assert(buffer@ =~= buf_row + row_chars(b, row as int, 0));
            assert(buffer@ + grid_chars(b, row as int + 1) =~= buf_row + grid_chars(
                b,
                row as int,
            ));
        }
        row = row + 1;
    }
    proof {
        assert(buffer@ =~= render_spec(b));
    }
    buffer
}

} // verus!
