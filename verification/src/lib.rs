//! A verified rules engine for the Binoxxo puzzle.
//!
//! A board is a square grid of even side whose cells are empty or hold one of
//! two marks.  The crate states the three rules of the game as specification
//! functions, offers executable checks proved against them, and makes new
//! puzzles from solved boards, which a bounded search finds with moves that
//! the `binoxxo` crate proposes.

pub mod board;
pub mod count;
pub mod difficulty;
pub mod field;
pub mod generator;
pub mod mask;
pub mod puzzle;
pub mod rules;
pub mod search;
pub mod select;
pub mod source;
pub mod status;

pub use board::{Board, SizeError};
pub use difficulty::Difficulty;
pub use field::Field;
pub use generator::{generate, generate_puzzle, generate_within};
pub use mask::{clear_editable, edit_cell, toggle_cell, EditError, EditableMask};
pub use puzzle::{puzzle_from_solution, GenerateError, Puzzle};
pub use rules::{is_board_full, is_board_valid};
pub use search::search_solution;
pub use status::{check_board, GameState, ValidityResult};
