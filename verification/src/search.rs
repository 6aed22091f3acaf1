//! The depth-first backtracking search. It enumerates candidate jumps in a
//! fixed order (row-major cells, then North, South, East, West), applies
//! each legal one, recurses one level deeper, and undoes it on failure.
//! Depth 31 is the winning depth: 32 pegs reduce to 1 over exactly 31
//! jumps. On success the moves of the winning line stay applied, so the
//! caller sees the actual winning configuration.

use vstd::prelude::*;
use crate::board::{
    Board, CellState, Direction, Movement, GRID_SIZE, MAX_DEPTH, board_wf, dir_of,
    direction_index, direction_order, init_board, lemma_direction_index, lemma_init_board,
    occ_count,
};
use crate::moves::{
    apply_spec, is_movable, legal, lemma_apply_occ_count, lemma_apply_wf, lemma_round_trip,
    put_piece, undo_move,
};

verus! {

/// A position is winnable at a given depth when some sequence of legal
/// jumps reaches depth 31 from it. At depth 31 itself the game is won.
pub open spec fn winnable(b: Seq<CellState>, depth: int) -> bool
    decreases 31 - depth,
{
    if depth >= 31 {
        true
    } else {
        exists|m: Movement| #[trigger] legal(b, m) && winnable(apply_spec(b, m), depth + 1)
    }
}

/// Candidate jump m wins from position b at the given depth: it is legal
/// and leads to a winnable position one level deeper.
pub open spec fn cand_wins(b: Seq<CellState>, depth: int, m: Movement) -> bool {
    legal(b, m) && winnable(apply_spec(b, m), depth + 1)
}

/// Board w is a winning configuration reachable from position b at the
/// given depth: some sequence of legal jumps leads from b to w at depth 31.
pub open spec fn reached(b: Seq<CellState>, depth: int, w: Seq<CellState>) -> bool
    decreases 31 - depth,
{
    if depth >= 31 {
        w == b
    } else {
        exists|m: Movement| #[trigger] legal(b, m) && reached(apply_spec(b, m), depth + 1, w)
    }
}

/// Each jump of a reached winning line removes one peg, so a winning
/// configuration reached from depth d holds exactly 31 - d pegs fewer than
/// the position it was reached from.
pub proof fn lemma_reached_occ_count(b: Seq<CellState>, depth: int, w: Seq<CellState>)
    requires
        reached(b, depth, w),
        depth <= 31,
    ensures
        occ_count(w) == occ_count(b) - (31 - depth),
    decreases 31 - depth,
{
    if depth < 31 {
        let m = choose|m: Movement|
            #[trigger] legal(b, m) && reached(apply_spec(b, m), depth + 1, w);
        lemma_apply_occ_count(b, m);
        lemma_reached_occ_count(apply_spec(b, m), depth + 1, w);
    }
}

/// A winning configuration reached from the standard start at depth 0 holds
/// exactly one peg: the 32 starting pegs reduce to 1 over the 31 jumps.
pub proof fn lemma_reached_one_peg(w: Seq<CellState>)
    requires
        reached(init_board(), 0, w),
    ensures
        occ_count(w) == 1,
{
    lemma_init_board();
    lemma_reached_occ_count(init_board(), 0, w);
}

/// Explores every jump sequence from the current position, depth-first, in
/// the fixed enumeration order, and reports whether one reaches depth 31.
/// On failure every applied jump has been undone and the board comes back
/// exactly as it was handed in; on success the jumps of the winning line
/// stay applied, so the board left behind is a winning configuration
/// reachable from the given position.
pub fn game_recursion(grid: &mut Board, depth: u32) -> (r: bool)
    requires
        old(grid).wf(),
        depth <= 31,
    ensures
        final(grid).wf(),
        r == winnable(old(grid)@, depth as int),
        !r ==> final(grid)@ == old(grid)@,
        r ==> reached(old(grid)@, depth as int, final(grid)@),
    decreases 31 - depth,
{
    if depth == MAX_DEPTH {
        return true;
    }
    let ghost b: Seq<CellState> = grid@;
    let directions = Direction::iterator();
    let mut row: usize = 0;
    while row < GRID_SIZE
        invariant
            grid@ == b,
            b == old(grid)@,
            board_wf(b),
            depth < 31,
            directions@ == direction_order(),
            row <= 7,
            forall|m: Movement| m.row < row ==> !cand_wins(b, depth as int, m),
        decreases 7 - row,
    {
        let mut col: usize = 0;
        while col < GRID_SIZE
            invariant
                grid@ == b,
                b == old(grid)@,
                board_wf(b),
                depth < 31,
                directions@ == direction_order(),
                row < 7,
                col <= 7,
                forall|m: Movement| m.row < row ==> !cand_wins(b, depth as int, m),
                forall|m: Movement|
                    m.row == row && m.col < col ==> !cand_wins(b, depth as int, m),
            decreases 7 - col,
        {
            let mut d: usize = 0;
            while d < 4
                invariant
                    grid@ == b,
                    b == old(grid)@,
                    board_wf(b),
                    depth < 31,
                    directions@ == direction_order(),
                    row < 7,
                    col < 7,
                    d <= 4,
                    forall|m: Movement| m.row < row ==> !cand_wins(b, depth as int, m),
                    forall|m: Movement|
                        m.row == row && m.col < col ==> !cand_wins(b, depth as int, m),
                    forall|m: Movement|
                        m.row == row && m.col == col && direction_index(m.direction) < d
                            ==> !cand_wins(b, depth as int, m),
                decreases 4 - d,
            {
                let direction = directions[d];
                let movement = Movement { row, col, direction };
                proof {
                    assert(direction == dir_of(d as int));
                }
                if is_movable(grid, &movement) {
                    proof {
                        lemma_apply_wf(b, movement);
                        lemma_round_trip(b, movement);
                    }
                    put_piece(grid, &movement);
                    let result = game_recursion(grid, depth + 1);
                    if result {
                        proof {
                            assert(winnable(b, depth as int));
                            assert(reached(b, depth as int, grid@));
                        }
                        return true;
                    }
                    undo_move(grid, &movement);
                }
                proof {
                    assert(!cand_wins(b, depth as int, movement));
                    assert forall|m: Movement|
                        m.row == row && m.col == col && direction_index(m.direction) < d + 1
                            implies !cand_wins(b, depth as int, m) by {
                        if direction_index(m.direction) == d {
                            lemma_direction_index(m.direction);
                            assert(m.direction == direction);
                            assert(m == movement);
                        }
                    }
                }
                d = d + 1;
            }
            proof {
                assert forall|m: Movement| m.row == row && m.col == col implies !cand_wins(
                    b,
                    depth as int,
                    m,
                ) by {
                    lemma_direction_index(m.direction);
                }
            }
            col = col + 1;
        }
        proof {
            assert forall|m: Movement| m.row == row implies !cand_wins(b, depth as int, m) by {
                if m.col >= 7 {
                    assert(!legal(b, m));
                }
            }
        }
        row = row + 1;
    }
    proof {
        assert forall|m: Movement|
            !(#[trigger] legal(b, m) && winnable(apply_spec(b, m), depth as int + 1)) by {
            if m.row >= 7 {
                assert(!legal(b, m));
            } else {
                assert(!cand_wins(b, depth as int, m));
            }
        }
        assert(!winnable(b, depth as int));
    }
    false
}

} // verus!
