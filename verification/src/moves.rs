//! Move legality, application and undo. A jump moves a peg two cells in a
//! straight line over an adjacent peg into an empty cell, removing the
//! jumped peg.

use vstd::prelude::*;
use crate::board::{
    Board, CellState, Direction, Movement, board_wf, cell_at, idx, is_corner, lemma_count_update,
    occ_count,
};

verus! {

/// Row offset of one step in a direction.
pub open spec fn row_delta(d: Direction) -> int {
    match d {
        Direction::North => -1,
        Direction::South => 1,
        Direction::East => 0,
        Direction::West => 0,
    }
}

/// Column offset of one step in a direction.
pub open spec fn col_delta(d: Direction) -> int {
    match d {
        Direction::North => 0,
        Direction::South => 0,
        Direction::East => 1,
        Direction::West => -1,
    }
}

/// Row of the jumped-over cell.
pub open spec fn mid_row(m: Movement) -> int {
    m.row + row_delta(m.direction)
}

/// Column of the jumped-over cell.
pub open spec fn mid_col(m: Movement) -> int {
    m.col + col_delta(m.direction)
}

/// Row of the landing cell.
pub open spec fn dst_row(m: Movement) -> int {
    m.row + 2 * row_delta(m.direction)
}

/// Column of the landing cell.
pub open spec fn dst_col(m: Movement) -> int {
    m.col + 2 * col_delta(m.direction)
}

/// Whether origin, jumped-over and landing cell all lie on the grid.
pub open spec fn move_in_bounds(m: Movement) -> bool {
    &&& m.row < 7
    &&& m.col < 7
    &&& 0 <= dst_row(m) < 7
    &&& 0 <= dst_col(m) < 7
}

/// A jump is legal exactly when it stays on the grid, its origin and
/// jumped-over cells hold pegs, and its landing cell is empty. An unplayable
/// cell anywhere among the three makes the jump illegal.
pub open spec fn legal(b: Seq<CellState>, m: Movement) -> bool {
    &&& b.len() == 49
    &&& move_in_bounds(m)
    &&& cell_at(b, m.row as int, m.col as int) == CellState::Occupied
    &&& cell_at(b, mid_row(m), mid_col(m)) == CellState::Occupied
    &&& cell_at(b, dst_row(m), dst_col(m)) == CellState::Empty
}

/// The board after a jump: origin and jumped-over cell emptied, landing cell
/// occupied.
pub open spec fn apply_spec(b: Seq<CellState>, m: Movement) -> Seq<CellState> {
    b.update(idx(m.row as int, m.col as int), CellState::Empty).update(
        idx(mid_row(m), mid_col(m)),
        CellState::Empty,
    ).update(idx(dst_row(m), dst_col(m)), CellState::Occupied)
}

/// The board after undoing a jump: origin and jumped-over cell refilled,
/// landing cell emptied.
pub open spec fn undo_spec(b: Seq<CellState>, m: Movement) -> Seq<CellState> {
    b.update(idx(m.row as int, m.col as int), CellState::Occupied).update(
        idx(mid_row(m), mid_col(m)),
        CellState::Occupied,
    ).update(idx(dst_row(m), dst_col(m)), CellState::Empty)
}

/// The shape a board has right after a legal jump m: origin and jumped-over
/// cell empty, landing cell occupied.
pub open spec fn just_applied(b: Seq<CellState>, m: Movement) -> bool {
    &&& b.len() == 49
    &&& move_in_bounds(m)
    &&& cell_at(b, m.row as int, m.col as int) == CellState::Empty
    &&& cell_at(b, mid_row(m), mid_col(m)) == CellState::Empty
    &&& cell_at(b, dst_row(m), dst_col(m)) == CellState::Occupied
}

/// The three cells of an in-bounds jump have three distinct indices in 0..49.
pub proof fn lemma_move_cells_distinct(m: Movement)
    requires
        move_in_bounds(m),
    ensures
        0 <= idx(m.row as int, m.col as int) < 49,
        0 <= idx(mid_row(m), mid_col(m)) < 49,
        0 <= idx(dst_row(m), dst_col(m)) < 49,
        idx(m.row as int, m.col as int) != idx(mid_row(m), mid_col(m)),
        idx(m.row as int, m.col as int) != idx(dst_row(m), dst_col(m)),
        idx(mid_row(m), mid_col(m)) != idx(dst_row(m), dst_col(m)),
        0 <= mid_row(m) < 7,
        0 <= mid_col(m) < 7,
{
}

/// Checks whether a jump is legal on the current board. Returns true exactly
/// when the move satisfies the legality predicate; never reads out of
/// bounds, and rejects any move whose origin lies off the grid.
pub fn is_movable(grid: &Board, wanted_move: &Movement) -> (r: bool)
    requires
        grid@.len() == 49,
    ensures
        r == legal(grid@, *wanted_move),
{
    let row: usize = wanted_move.row;
    let col: usize = wanted_move.col;
    if row >= 7 || col >= 7 {
        return false;
    }
    if grid.get(row, col) != CellState::Occupied {
        return false;
    }
    match wanted_move.direction {
        Direction::North => row > 1 && grid.get(row - 1, col) == CellState::Occupied && grid.get(
            row - 2,
            col,
        ) == CellState::Empty,
        Direction::South => row < 5 && grid.get(row + 1, col) == CellState::Occupied && grid.get(
            row + 2,
            col,
        ) == CellState::Empty,
        Direction::East => col < 5 && grid.get(row, col + 1) == CellState::Occupied && grid.get(
            row,
            col + 2,
        ) == CellState::Empty,
        Direction::West => col > 1 && grid.get(row, col - 1) == CellState::Occupied && grid.get(
            row,
            col - 2,
        ) == CellState::Empty,
    }
}

/// Applies a legal jump in place: empties the origin and the jumped-over
/// cell and fills the landing cell. Callers must have validated the move;
/// the contract demands legality.
pub fn put_piece(grid: &mut Board, m: &Movement)
    requires
        legal(old(grid)@, *m),
    ensures
        final(grid)@ == apply_spec(old(grid)@, *m),
{
    let row: usize = m.row;
    let col: usize = m.col;
    grid.set_cell(row, col, CellState::Empty);
    match m.direction {
        Direction::North => {
            grid.set_cell(row - 1, col, CellState::Empty);
            grid.set_cell(row - 2, col, CellState::Occupied);
        },
        Direction::South => {
            grid.set_cell(row + 1, col, CellState::Empty);
            grid.set_cell(row + 2, col, CellState::Occupied);
        },
        Direction::West => {
            grid.set_cell(row, col - 1, CellState::Empty);
            grid.set_cell(row, col - 2, CellState::Occupied);
        },
        Direction::East => {
            grid.set_cell(row, col + 1, CellState::Empty);
            grid.set_cell(row, col + 2, CellState::Occupied);
        },
    }
}

/// Undoes a jump in place: refills the origin and the jumped-over cell and
/// empties the landing cell. It trusts the caller to pass the move that was
/// just applied; it only needs the move to lie on the grid.
pub fn undo_move(grid: &mut Board, m: &Movement)
    requires
        old(grid)@.len() == 49,
        move_in_bounds(*m),
    ensures
        final(grid)@ == undo_spec(old(grid)@, *m),
{
    let old_row: usize = m.row;
    let old_col: usize = m.col;
    proof {
        lemma_move_cells_distinct(*m);
    }
    grid.set_cell(old_row, old_col, CellState::Occupied);
    match m.direction {
        Direction::North => {
            grid.set_cell(old_row - 1, old_col, CellState::Occupied);
            grid.set_cell(old_row - 2, old_col, CellState::Empty);
        },
        Direction::South => {
            grid.set_cell(old_row + 1, old_col, CellState::Occupied);
            grid.set_cell(old_row + 2, old_col, CellState::Empty);
        },
        Direction::West => {
            grid.set_cell(old_row, old_col - 1, CellState::Occupied);
            grid.set_cell(old_row, old_col - 2, CellState::Empty);
        },
        Direction::East => {
            grid.set_cell(old_row, old_col + 1, CellState::Occupied);
            grid.set_cell(old_row, old_col + 2, CellState::Empty);
        },
    }
}

/// A legal jump changes exactly its three cells, each with the expected
/// transition: origin peg removed, jumped-over peg removed, landing cell
/// filled. Every other cell keeps its state.
pub proof fn lemma_apply_cells(b: Seq<CellState>, m: Movement)
    requires
        legal(b, m),
    ensures
        apply_spec(b, m).len() == 49,
        cell_at(b, m.row as int, m.col as int) == CellState::Occupied,
        cell_at(b, mid_row(m), mid_col(m)) == CellState::Occupied,
        cell_at(b, dst_row(m), dst_col(m)) == CellState::Empty,
        cell_at(apply_spec(b, m), m.row as int, m.col as int) == CellState::Empty,
        cell_at(apply_spec(b, m), mid_row(m), mid_col(m)) == CellState::Empty,
        cell_at(apply_spec(b, m), dst_row(m), dst_col(m)) == CellState::Occupied,
        forall|r: int, c: int|
            0 <= r < 7 && 0 <= c < 7 && !(r == m.row && c == m.col) && !(r == mid_row(m) && c
                == mid_col(m)) && !(r == dst_row(m) && c == dst_col(m)) ==> #[trigger] cell_at(
                apply_spec(b, m),
                r,
                c,
            ) == cell_at(b, r, c),
{
    lemma_move_cells_distinct(m);
    assert forall|r: int, c: int|
        0 <= r < 7 && 0 <= c < 7 && !(r == m.row && c == m.col) && !(r == mid_row(m) && c
            == mid_col(m)) && !(r == dst_row(m) && c == dst_col(m)) implies #[trigger] cell_at(
        apply_spec(b, m),
        r,
        c,
    ) == cell_at(b, r, c) by {
        crate::board::lemma_idx(r, c);
        crate::board::lemma_idx(m.row as int, m.col as int);
        crate::board::lemma_idx(mid_row(m), mid_col(m));
        crate::board::lemma_idx(dst_row(m), dst_col(m));
    }
}

/// Right after a legal jump the board has the just-applied shape for it.
pub proof fn lemma_apply_just_applied(b: Seq<CellState>, m: Movement)
    requires
        legal(b, m),
    ensures
        just_applied(apply_spec(b, m), m),
{
    lemma_apply_cells(b, m);
}

/// A legal jump never touches a corner cell, so well-formedness survives it.
pub proof fn lemma_apply_wf(b: Seq<CellState>, m: Movement)
    requires
        board_wf(b),
        legal(b, m),
    ensures
        board_wf(apply_spec(b, m)),
{
    lemma_apply_cells(b, m);
    assert forall|r: int, c: int|
        0 <= r < 7 && 0 <= c < 7 && is_corner(r, c) implies #[trigger] cell_at(apply_spec(b, m), r, c)
        == CellState::Unplayable by {
        assert(cell_at(b, r, c) == CellState::Unplayable);
    }
}

/// Undoing a jump right after applying it restores the board exactly.
pub proof fn lemma_round_trip(b: Seq<CellState>, m: Movement)
    requires
        legal(b, m),
    ensures
        undo_spec(apply_spec(b, m), m) == b,
{
    lemma_move_cells_distinct(m);
    assert(undo_spec(apply_spec(b, m), m) =~= b);
}

/// Each applied jump removes exactly one peg.
pub proof fn lemma_apply_occ_count(b: Seq<CellState>, m: Movement)
    requires
        legal(b, m),
    ensures
        occ_count(apply_spec(b, m)) == occ_count(b) - 1,
{
    lemma_move_cells_distinct(m);
    let i0 = idx(m.row as int, m.col as int);
    let i1 = idx(mid_row(m), mid_col(m));
    let i2 = idx(dst_row(m), dst_col(m));
    let b1 = b.update(i0, CellState::Empty);
    let b2 = b1.update(i1, CellState::Empty);
    lemma_count_update(b, CellState::Occupied, 49, i0, CellState::Empty);
    lemma_count_update(b1, CellState::Occupied, 49, i1, CellState::Empty);
    lemma_count_update(b2, CellState::Occupied, 49, i2, CellState::Occupied);
}

/// Each undone jump puts exactly one peg back.
pub proof fn lemma_undo_occ_count(b: Seq<CellState>, m: Movement)
    requires
        just_applied(b, m),
    ensures
        occ_count(undo_spec(b, m)) == occ_count(b) + 1,
{
    lemma_move_cells_distinct(m);
    let i0 = idx(m.row as int, m.col as int);
    let i1 = idx(mid_row(m), mid_col(m));
    let i2 = idx(dst_row(m), dst_col(m));
    let b1 = b.update(i0, CellState::Occupied);
    let b2 = b1.update(i1, CellState::Occupied);
    lemma_count_update(b, CellState::Occupied, 49, i0, CellState::Occupied);
    lemma_count_update(b1, CellState::Occupied, 49, i1, CellState::Occupied);
    lemma_count_update(b2, CellState::Occupied, 49, i2, CellState::Empty);
}

/// On a well-formed board no jump can start from a corner cell: corner cells
/// are unplayable and a legal origin must hold a peg.
pub proof fn lemma_corner_never_legal(b: Seq<CellState>, m: Movement)
    requires
        board_wf(b),
        is_corner(m.row as int, m.col as int),
    ensures
        !legal(b, m),
{
}

} // verus!
