//! Puzzles: a solved board, the cells that are shown, and what the player
//! sees.

use crate::board::{columns, is_square, Board};
use crate::count::{count_of, grid_count};
use crate::difficulty::{lemma_difficulty_levels, Difficulty};
use crate::field::Field;
use crate::mask::{clear_editable, empty_cells, hidden, hidden_line, restored, EditableMask};
use crate::rules::{
    board_full, board_valid, has_triple, is_board_full, is_board_valid, is_triple_at, line_full,
    line_ok, lines_valid,
};
use crate::select::{draw_editable, selection, shows_every_line};
use vstd::prelude::*;

verus! {

/// Emptying cells of a line never adds to the count of a mark.
pub proof fn lemma_hidden_line_count(line: Seq<Field>, editable: Seq<bool>, mark: Field)
    requires
        editable.len() == line.len(),
        mark != Field::Empty,
    ensures
        count_of(hidden_line(line, editable), mark) <= count_of(line, mark),
    decreases line.len(),
{
    if line.len() > 0 {
        lemma_hidden_line_count(line.drop_last(), editable.drop_last(), mark);
        assert(hidden_line(line, editable).drop_last() =~= hidden_line(
            line.drop_last(),
            editable.drop_last(),
        ));
    }
}

/// A line that is in order stays in order when cells of it are emptied, and
/// where the result is full nothing was emptied.
pub proof fn lemma_hidden_line(line: Seq<Field>, editable: Seq<bool>)
    requires
        editable.len() == line.len(),
    ensures
        line_ok(line) ==> line_ok(hidden_line(line, editable)),
        line_full(hidden_line(line, editable)) ==> hidden_line(line, editable) == line,
{
    let shown = hidden_line(line, editable);
    if line_ok(line) {
        lemma_hidden_line_count(line, editable, Field::X);
        lemma_hidden_line_count(line, editable, Field::O);
        if has_triple(shown) {
            let i = choose|i: int| is_triple_at(shown, i);
            assert(is_triple_at(line, i));
        }
    }
    if line_full(shown) {
        assert forall|c: int| 0 <= c < line.len() implies shown[c] == line[c] by {
            assert(shown[c] != Field::Empty);
        }
        assert(shown =~= line);
    }
}

/// Lines that obey the rules still obey them when cells are emptied.
pub proof fn lemma_hidden_lines(lines: Seq<Seq<Field>>, editable: Seq<Seq<bool>>)
    requires
        editable.len() == lines.len(),
        forall|i: int| 0 <= i < lines.len() ==> (#[trigger] editable[i]).len() == lines[i].len(),
        lines_valid(lines),
    ensures
        lines_valid(hidden(lines, editable)),
{
    let shown = hidden(lines, editable);
    assert forall|i: int| 0 <= i < shown.len() implies line_ok(#[trigger] shown[i]) by {
        assert(line_ok(lines[i]));
        assert(editable[i].len() == lines[i].len());
        lemma_hidden_line(lines[i], editable[i]);
    }
    assert forall|i: int, j: int|
        0 <= i < j < shown.len() && line_full(#[trigger] shown[i]) && line_full(
            #[trigger] shown[j],
        ) implies shown[i] != shown[j] by {
        assert(editable[i].len() == lines[i].len());
        assert(editable[j].len() == lines[j].len());
        lemma_hidden_line(lines[i], editable[i]);
        lemma_hidden_line(lines[j], editable[j]);
        assert(line_full(lines[i]) && line_full(lines[j]));
    }
}

/// A valid board stays valid when cells of it are emptied.
pub proof fn lemma_hidden_valid(grid: Seq<Seq<Field>>, editable: Seq<Seq<bool>>)
    requires
        is_square(grid),
        is_square(editable),
        editable.len() == grid.len(),
        board_valid(grid),
    ensures
        board_valid(hidden(grid, editable)),
{
    lemma_hidden_lines(grid, editable);
    lemma_hidden_lines(columns(grid), columns(editable));
    assert(columns(hidden(grid, editable)) =~~= hidden(columns(grid), columns(editable)));
}

/// Of a full board, exactly the emptied cells are empty afterwards.
pub proof fn lemma_hidden_empty_cells(grid: Seq<Seq<Field>>, editable: Seq<Seq<bool>>)
    requires
        is_square(grid),
        is_square(editable),
        editable.len() == grid.len(),
        board_full(grid),
    ensures
        empty_cells(hidden(grid, editable)) == editable,
{
    let shown = hidden(grid, editable);
    assert forall|r: int| 0 <= r < grid.len() implies #[trigger] empty_cells(shown)[r]
        =~= editable[r] by {
        assert(line_full(grid[r]));
    }
    assert(empty_cells(shown) =~= editable);
}

/// Writing the cells of the solved board back into the cells that were
/// emptied gives the solved board again.
pub proof fn lemma_restored(grid: Seq<Seq<Field>>, editable: Seq<Seq<bool>>)
    requires
        is_square(grid),
        is_square(editable),
        editable.len() == grid.len(),
    ensures
        restored(hidden(grid, editable), editable, grid) == grid,
{
    assert(restored(hidden(grid, editable), editable, grid) =~~= grid);
}

/// Why no puzzle was made.
#[derive(Clone, Copy, Debug, PartialEq, Eq, Structural)]
pub enum GenerateError {
    /// The solved board has not the side that the difficulty asks for.
    WrongSize,
    /// The board offered as solved has an empty cell or breaks a rule.
    NotSolved,
    /// No solved board was found in the allowed number of attempts.
    Exhausted,
}

/// A puzzle together with the solved board it was made from.
#[derive(Debug, PartialEq, Eq)]
pub struct Puzzle {
    /// What the player sees at the start.
    pub board: Board,
    /// The cells that the player may change.
    pub editable: EditableMask,
    /// The solved board of which `board` shows a part.
    pub solution: Board,
}

impl Puzzle {
    /// The solution is a full and valid board, and the board is the solution
    /// with exactly the editable cells emptied.
    pub open spec fn wf(&self) -> bool {
        &&& self.solution.wf()
        &&& self.board.wf()
        &&& self.editable.wf()
        &&& self.editable.side() == self.solution.side()
        &&& board_full(self.solution@)
        &&& board_valid(self.solution@)
        &&& self.board@ == hidden(self.solution@, self.editable@)
    }

    /// The puzzle of difficulty `level` with solution `solution`, when
    /// `seed` chooses the cells that it shows.
    pub open spec fn made_from(&self, solution: Seq<Seq<Field>>, level: Difficulty, seed: u64) -> bool {
        &&& self.solution@ == solution
        &&& self.editable@ == selection(level.side(), level.givens(), seed)
        &&& self.board@ == hidden(solution, self.editable@)
    }
}

/// What holds of every well-formed puzzle: its board breaks no rule, the
/// player may change exactly its empty cells, and writing the solution's
/// cells into them gives a full and valid board.
pub proof fn lemma_puzzle(puzzle: Puzzle)
    requires
        puzzle.wf(),
    ensures
        board_valid(puzzle.board@),
        empty_cells(puzzle.board@) == puzzle.editable@,
        restored(puzzle.board@, puzzle.editable@, puzzle.solution@) == puzzle.solution@,
        board_full(restored(puzzle.board@, puzzle.editable@, puzzle.solution@)),
        board_valid(restored(puzzle.board@, puzzle.editable@, puzzle.solution@)),
{
    lemma_hidden_valid(puzzle.solution@, puzzle.editable@);
    lemma_hidden_empty_cells(puzzle.solution@, puzzle.editable@);
    lemma_restored(puzzle.solution@, puzzle.editable@);
}

/// Makes the puzzle of difficulty `level` from a solved board, with `seed`
/// choosing the cells that stay visible.
pub fn puzzle_from_solution(solution: Board, level: Difficulty, seed: u64) -> (r: Result<
    Puzzle,
    GenerateError,
>)
    requires
        solution.wf(),
    ensures
        r == Err::<Puzzle, GenerateError>(GenerateError::WrongSize) <==> solution.side()
            != level.side(),
        r == Err::<Puzzle, GenerateError>(GenerateError::NotSolved) <==> solution.side()
            == level.side() && !(board_full(solution@) && board_valid(solution@)),
        r is Ok <==> solution.side() == level.side() && board_full(solution@) && board_valid(
            solution@,
        ),
        r matches Ok(puzzle) ==> puzzle.wf() && puzzle.made_from(solution@, level, seed)
            && grid_count(puzzle.editable@, false) == level.givens() && shows_every_line(
            puzzle.editable@,
        ),
{
    let side = level.board_size();
    if solution.size() != side {
        return Err(GenerateError::WrongSize);
    }
    if !(is_board_full(&solution) && is_board_valid(&solution)) {
        return Err(GenerateError::NotSolved);
    }
    proof {
        lemma_difficulty_levels(level);
    }
    let editable = draw_editable(side, level.given_count(), seed);
    let mut board = solution.clone();
    clear_editable(&mut board, &editable);
    Ok(Puzzle { board, editable, solution })
}

} // verus!
