//! Making new puzzles.
//!
//! A solved board is searched for in a bounded number of steps and checked
//! against the rules; only a board that passes becomes the solution of a
//! puzzle.  The cells that the puzzle shows are chosen by a digest of the
//! solution.

use crate::board::{is_board_grid, Board};
use crate::count::{grid_count, lemma_grid_count_bool};
use crate::difficulty::{lemma_difficulty_levels, Difficulty};
use crate::field::Field;
use crate::mask::{empty_cells, hidden, EditableMask};
use crate::puzzle::{lemma_puzzle, puzzle_from_solution, GenerateError, Puzzle};
use crate::rules::{board_full, board_valid};
use crate::search::search_solution;
use crate::select::{board_digest, grid_digest, selection, shows_every_line};
use vstd::prelude::*;

verus! {

/// How many searches for a solved board are made before giving up.
pub const MAX_ATTEMPTS: usize = 4;

/// How many steps one search may take for every cell of the board.
pub const STEPS_PER_CELL: usize = 100;

/// The seed of the searches that are started without one.
pub const DEFAULT_SEED: u64 = 0;

/// Makes a new puzzle of difficulty `level` and hands it out with its
/// solution, in at most `attempts` searches for a solved board.
///
/// Each search may take [`STEPS_PER_CELL`] steps for every cell.  `seed`
/// starts the first search, and each further search takes the seed that
/// follows.  The attempts are exhausted when no search gave a solved board.
/// The cells that the puzzle shows are the ones that the digest of the
/// solution chooses.
pub fn generate_within(level: Difficulty, seed: u64, attempts: usize) -> (r: Result<
    Puzzle,
    GenerateError,
>)
    ensures
        r matches Ok(puzzle) ==> puzzle.wf() && puzzle.solution.side() == level.side()
            && puzzle.made_from(puzzle.solution@, level, grid_digest(puzzle.solution@))
            && grid_count(puzzle.editable@, false) == level.givens() && shows_every_line(
            puzzle.editable@,
        ),
        r matches Err(e) ==> e == GenerateError::Exhausted,
        attempts == 0 ==> r is Err,
{
    let size = level.board_size();
    assert(size * size * STEPS_PER_CELL <= 10000) by (nonlinear_arith)
        requires
            size <= 10,
            STEPS_PER_CELL == 100,
    ;
    let max_steps: usize = size * size * STEPS_PER_CELL;
    let mut state: u64 = seed;
    let mut attempt: usize = 0;
    while attempt < attempts
        invariant
            size == level.side(),
        decreases attempts - attempt,
    {
        match search_solution(size, state, max_steps) {
            Some(solution) => {
                let chooser = board_digest(&solution);
                match puzzle_from_solution(solution, level, chooser) {
                    Ok(puzzle) => {
                        return Ok(puzzle);
                    },
                    Err(_) => {},
                }
            },
            None => {},
        }
        state = state.wrapping_add(1);
        attempt += 1;
    }
    Err(GenerateError::Exhausted)
}

/// Makes a new puzzle of difficulty `level` and hands it out with its
/// solution, in at most [`MAX_ATTEMPTS`] searches for a solved board.
pub fn generate_puzzle(level: Difficulty) -> (r: Result<Puzzle, GenerateError>)
    ensures
        r matches Ok(puzzle) ==> puzzle.wf() && puzzle.solution.side() == level.side()
            && puzzle.made_from(puzzle.solution@, level, grid_digest(puzzle.solution@))
            && grid_count(puzzle.editable@, false) == level.givens() && shows_every_line(
            puzzle.editable@,
        ),
        r matches Err(e) ==> e == GenerateError::Exhausted,
{
    generate_within(level, DEFAULT_SEED, MAX_ATTEMPTS)
}

/// Starts a new game: makes a puzzle of difficulty `level` and hands out
/// what the player sees and which cells may be changed.
///
/// The board has the side of the level, breaks no rule and shows exactly as
/// many cells as the level asks for, at least one of them in every row and
/// in every column.  The mask marks exactly the empty cells, of which there
/// is at least one, and not every cell is empty.  The board is a full and
/// valid board with the marked cells emptied.
pub fn generate(level: Difficulty) -> (r: Result<(Board, EditableMask), GenerateError>)
    ensures
        r matches Ok(game) ==> {
            &&& game.0.wf()
            &&& game.1.wf()
            &&& game.0.side() == level.side()
            &&& game.1.side() == level.side()
            &&& board_valid(game.0@)
            &&& game.1@ == empty_cells(game.0@)
            &&& grid_count(game.1@, false) == level.givens()
            &&& 0 < grid_count(game.1@, true) < level.side() * level.side()
            &&& shows_every_line(game.1@)
            &&& exists|solution: Seq<Seq<Field>>|
                is_board_grid(solution) && board_full(solution) && board_valid(solution)
                    && game.0@ == #[trigger] hidden(solution, game.1@) && game.1@ == selection(
                    level.side(),
                    level.givens(),
                    grid_digest(solution),
                )
        },
        r matches Err(e) ==> e == GenerateError::Exhausted,
{
    match generate_puzzle(level) {
        Ok(puzzle) => {
            proof {
                lemma_puzzle(puzzle);
                lemma_difficulty_levels(level);
                lemma_grid_count_bool(puzzle.editable@, level.side());
                assert(puzzle.board@ == hidden(puzzle.solution@, puzzle.editable@));
            }
            Ok((puzzle.board, puzzle.editable))
        },
        Err(e) => Err(e),
    }
}

} // verus!
