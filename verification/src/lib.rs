//! A verified solver for English peg solitaire: a cross-shaped 7x7 board
//! with 33 playable cells, 32 pegs and an empty center. Pegs jump over an
//! adjacent peg into an empty cell beyond, removing the jumped peg; the game
//! is won when a single peg remains after 31 jumps.
//!
//! The board model, move legality, move application and undo, the rendering
//! of a board as text, and the depth-first backtracking search are all
//! verified. The search carries a full functional contract: it returns true
//! exactly when a winning jump sequence exists from the given position; on
//! failure it restores the board it was given, and on success it leaves the
//! winning configuration on the board for the caller to display.

pub mod board;
pub mod moves;
pub mod render;
pub mod search;
