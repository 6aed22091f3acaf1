//! The board: a 7x7 grid of cells, of which the four 2x2 corner blocks are
//! permanently unplayable, leaving the 33 playable cells of the cross.

use vstd::prelude::*;

verus! {

/// State of one grid cell: outside the cross shape, playable and empty, or
/// playable and holding a peg.
#[derive(Debug, Clone, Copy, PartialEq, Eq, Structural, Hash)]
pub enum CellState {
    Unplayable,
    Empty,
    Occupied,
}

/// One of the four axis-aligned jump directions; there are no diagonal jumps.
#[derive(Debug, Clone, Copy, PartialEq, Eq, Structural, Hash)]
pub enum Direction {
    North,
    West,
    South,
    East,
}

/// A candidate jump: an origin cell and a direction. It is only meaningful
/// relative to a particular board state.
#[derive(Debug, Clone, Copy, PartialEq, Eq, Structural, Hash)]
pub struct Movement {
    pub row: usize,
    pub col: usize,
    pub direction: Direction,
}

/// Side length of the square grid.
pub const GRID_SIZE: usize = 7;

/// Number of jumps in a finished game: 32 pegs reduce to 1.
pub const MAX_DEPTH: u32 = 31;

/// Index of cell (r, c) in the row-major cell sequence.
pub open spec fn idx(r: int, c: int) -> int {
    r * 7 + c
}

/// The cell at (r, c) of a row-major cell sequence.
pub open spec fn cell_at(b: Seq<CellState>, r: int, c: int) -> CellState {
    b[idx(r, c)]
}

/// Whether (r, c) lies in one of the four 2x2 corner blocks, outside the
/// cross shape.
pub open spec fn is_corner(r: int, c: int) -> bool {
    (r <= 1 || r >= 5) && (c <= 1 || c >= 5)
}

/// A well-formed board: 49 cells, with every corner-block cell unplayable.
pub open spec fn board_wf(b: Seq<CellState>) -> bool {
    &&& b.len() == 49
    &&& forall|r: int, c: int|
        0 <= r < 7 && 0 <= c < 7 && is_corner(r, c) ==> #[trigger] cell_at(b, r, c)
            == CellState::Unplayable
}

/// The starting position: corners unplayable, the center (3, 3) empty, and a
/// peg everywhere else.
pub open spec fn init_cell(r: int, c: int) -> CellState {
    if is_corner(r, c) {
        CellState::Unplayable
    } else if r == 3 && c == 3 {
        CellState::Empty
    } else {
        CellState::Occupied
    }
}

/// The starting board as a row-major cell sequence.
pub open spec fn init_board() -> Seq<CellState> {
    Seq::new(49, |i: int| init_cell(i / 7, i % 7))
}

/// Row-major indexing is a bijection between coordinate pairs and 0..49.
pub proof fn lemma_idx(r: int, c: int)
    requires
        0 <= r < 7,
        0 <= c < 7,
    ensures
        0 <= idx(r, c) < 49,
        idx(r, c) / 7 == r,
        idx(r, c) % 7 == c,
{
}

/// Number of cells equal to s among the first n cells of b.
pub open spec fn count_to(b: Seq<CellState>, s: CellState, n: int) -> int
    decreases n,
{
    if n <= 0 {
        0
    } else {
        count_to(b, s, n - 1) + if b[n - 1] == s {
            1int
        } else {
            0int
        }
    }
}

/// Number of cells of b equal to s.
pub open spec fn state_count(b: Seq<CellState>, s: CellState) -> int {
    count_to(b, s, b.len() as int)
}

/// Number of pegs on the board.
pub open spec fn occ_count(b: Seq<CellState>) -> int {
    state_count(b, CellState::Occupied)
}

/// Counting a prefix only reads that prefix.
pub proof fn lemma_count_agree(b1: Seq<CellState>, b2: Seq<CellState>, s: CellState, n: int)
    requires
        0 <= n <= b1.len(),
        n <= b2.len(),
        forall|j: int| 0 <= j < n ==> b1[j] == b2[j],
    ensures
        count_to(b1, s, n) == count_to(b2, s, n),
    decreases n,
{
    if n > 0 {
        lemma_count_agree(b1, b2, s, n - 1);
    }
}

/// Overwriting one cell changes the count by the difference of the old and
/// new cell's contributions.
pub proof fn lemma_count_update(b: Seq<CellState>, s: CellState, n: int, i: int, v: CellState)
    requires
        0 <= i < n <= b.len(),
    ensures
        count_to(b.update(i, v), s, n) == count_to(b, s, n) - (if b[i] == s {
            1int
        } else {
            0int
        }) + (if v == s {
            1int
        } else {
            0int
        }),
    decreases n,
{
    if i == n - 1 {
        lemma_count_agree(b.update(i, v), b, s, n - 1);
    } else {
        lemma_count_update(b, s, n - 1, i, v);
    }
}

/// The starting board holds exactly 32 pegs, 1 empty cell, and 16 unplayable
/// cells; the unplayable cells are precisely the four 2x2 corner blocks and
/// the empty cell is precisely the center.
pub proof fn lemma_init_board()
    ensures
        occ_count(init_board()) == 32,
        state_count(init_board(), CellState::Empty) == 1,
        state_count(init_board(), CellState::Unplayable) == 16,
        board_wf(init_board()),
        forall|r: int, c: int|
            0 <= r < 7 && 0 <= c < 7 ==> (#[trigger] cell_at(init_board(), r, c)
                == CellState::Unplayable <==> is_corner(r, c)),
        forall|r: int, c: int|
            0 <= r < 7 && 0 <= c < 7 ==> (#[trigger] cell_at(init_board(), r, c)
                == CellState::Empty <==> r == 3 && c == 3),
{
    assert forall|r: int, c: int| 0 <= r < 7 && 0 <= c < 7 implies #[trigger] cell_at(
        init_board(),
        r,
        c,
    ) == init_cell(r, c) by {
        lemma_idx(r, c);
    }
    reveal_with_fuel(count_to, 50);
    assert(occ_count(init_board()) == 32);
    assert(state_count(init_board(), CellState::Empty) == 1);
    assert(state_count(init_board(), CellState::Unplayable) == 16);
}

/// The four directions in the order the search tries them.
pub open spec fn dir_of(i: int) -> Direction {
    if i == 0 {
        Direction::North
    } else if i == 1 {
        Direction::South
    } else if i == 2 {
        Direction::East
    } else {
        Direction::West
    }
}

/// The search's direction order as a sequence.
pub open spec fn direction_order() -> Seq<Direction> {
    Seq::new(4, |i: int| dir_of(i))
}

/// Position of a direction in the search's direction order.
pub open spec fn direction_index(d: Direction) -> int {
    match d {
        Direction::North => 0,
        Direction::South => 1,
        Direction::East => 2,
        Direction::West => 3,
    }
}

impl Direction {
    /// The four directions, in the fixed order the search enumerates them.
    pub fn iterator() -> (r: Vec<Direction>)
        ensures
            r@ == direction_order(),
    {
        let mut v: Vec<Direction> = Vec::new();
        v.push(Direction::North);
        v.push(Direction::South);
        v.push(Direction::East);
        v.push(Direction::West);
        proof {
            assert(v@ =~= direction_order());
        }
        v
    }
}

/// Every direction sits at its own index of the direction order.
pub proof fn lemma_direction_index(d: Direction)
    ensures
        0 <= direction_index(d) < 4,
        dir_of(direction_index(d)) == d,
{
}

/// The 7x7 grid of cells, stored row-major.
pub struct Board {
    cells: Vec<CellState>,
}

impl View for Board {
    type V = Seq<CellState>;

    closed spec fn view(&self) -> Seq<CellState> {
        self.cells@
    }
}

impl Board {
    /// A well-formed board value.
    pub open spec fn wf(&self) -> bool {
        board_wf(self@)
    }

    /// Reads the cell at (row, col).
    pub fn get(&self, row: usize, col: usize) -> (r: CellState)
        requires
            self@.len() == 49,
            row < 7,
            col < 7,
        ensures
            r == cell_at(self@, row as int, col as int),
    {
        self.cells[row * 7 + col]
    }

    /// Writes the cell at (row, col).
    pub(crate) fn set_cell(&mut self, row: usize, col: usize, v: CellState)
        requires
            old(self)@.len() == 49,
            row < 7,
            col < 7,
        ensures
            final(self)@ == old(self)@.update(idx(row as int, col as int), v),
    {
        self.cells.set(row * 7 + col, v);
    }

    /// Builds a board from an explicit row-major cell vector. Returns the
    /// board exactly when the vector is a well-formed board: 49 cells with
    /// all sixteen corner-block cells unplayable.
    pub fn from_cells(cells: Vec<CellState>) -> (r: Option<Board>)
        ensures
            match r {
                Some(b) => b.wf() && b@ == cells@,
                None => !board_wf(cells@),
            },
    {
        if cells.len() != 49 {
            return None;
        }
        let mut i: usize = 0;
        while i < 49
            invariant
                cells@.len() == 49,
                i <= 49,
                forall|j: int|
                    0 <= j < i && is_corner(j / 7, j % 7) ==> cells@[j] == CellState::Unplayable,
            decreases 49 - i,
        {
            let row: usize = i / 7;
            let col: usize = i % 7;
            if (row <= 1 || row >= 5) && (col <= 1 || col >= 5) {
                if cells[i] != CellState::Unplayable {
                    proof {
                        lemma_idx(row as int, col as int);
                        assert(cell_at(cells@, row as int, col as int) != CellState::Unplayable);
                    }
                    return None;
                }
            }
            i = i + 1;
        }
        let b = Board { cells };
        proof {
            assert forall|r: int, c: int|
                0 <= r < 7 && 0 <= c < 7 && is_corner(r, c) implies #[trigger] cell_at(b@, r, c)
                == CellState::Unplayable by {
                lemma_idx(r, c);
            }
        }
        Some(b)
    }
}

/// Builds the starting board: every playable cell occupied, the four corner
/// blocks unplayable, and the single center cell empty.
pub fn create_grid() -> (r: Board)
    ensures
        r.wf(),
        r@ == init_board(),
{
    let mut cells: Vec<CellState> = Vec::new();
    let mut i: usize = 0;
    while i < 49
        invariant
            cells@.len() == i,
            i <= 49,
            forall|j: int| 0 <= j < i ==> cells@[j] == init_board()[j],
        decreases 49 - i,
    {
        let row: usize = i / 7;
        let col: usize = i % 7;
        let cell: CellState = if (row <= 1 || row >= 5) && (col <= 1 || col >= 5) {
            CellState::Unplayable
        } else if row == 3 && col == 3 {
            CellState::Empty
        } else {
            CellState::Occupied
        };
        cells.push(cell);
        i = i + 1;
    }
    let b = Board { cells };
    proof {
        assert(b@ =~= init_board());
        assert forall|r: int, c: int|
            0 <= r < 7 && 0 <= c < 7 && is_corner(r, c) implies #[trigger] cell_at(b@, r, c)
            == CellState::Unplayable by {
            lemma_idx(r, c);
        }
    }
    b
}

} // verus!
