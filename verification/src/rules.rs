//! The rules of the game, and the checks proved against them.
//!
//! A line is a row or a column.  The three rules are stated once, for a
//! sequence of lines, and a board obeys them when its rows do and its
//! columns do.  A line that still has empty cells breaks a rule only where
//! no way of filling it could mend the breach.

use crate::board::{columns, is_board_grid, is_square, line_views, uniform_grid, Board};
use crate::count::{count_of, lemma_count_absent, lemma_count_push};
use crate::field::Field;
use vstd::prelude::*;

verus! {

/// No cell of `line` is empty.
pub open spec fn line_full(line: Seq<Field>) -> bool {
    forall|i: int| 0 <= i < line.len() ==> #[trigger] line[i] != Field::Empty
}

/// The cells `i`, `i + 1` and `i + 2` of `line` hold the same mark.
pub open spec fn is_triple_at(line: Seq<Field>, i: int) -> bool {
    &&& 0 <= i
    &&& i + 2 < line.len()
    &&& line[i] != Field::Empty
    &&& line[i + 1] == line[i]
    &&& line[i + 2] == line[i]
}

/// Three neighbouring cells of `line` hold the same mark.
pub open spec fn has_triple(line: Seq<Field>) -> bool {
    exists|i: int| is_triple_at(line, i)
}

/// Neither mark fills more than half of `line`.  Of a full line this says
/// that each mark fills exactly half of it.
pub open spec fn line_balanced(line: Seq<Field>) -> bool {
    &&& 2 * count_of(line, Field::X) <= line.len()
    &&& 2 * count_of(line, Field::O) <= line.len()
}

/// `line` has no three equal neighbours and is balanced.
pub open spec fn line_ok(line: Seq<Field>) -> bool {
    !has_triple(line) && line_balanced(line)
}

/// No two full lines among `lines` are equal.
pub open spec fn lines_distinct(lines: Seq<Seq<Field>>) -> bool {
    forall|i: int, j: int|
        0 <= i < j < lines.len() && line_full(#[trigger] lines[i]) && line_full(
            #[trigger] lines[j],
        ) ==> lines[i] != lines[j]
}

/// Each of `lines` is in order, and no two full ones are equal.
pub open spec fn lines_valid(lines: Seq<Seq<Field>>) -> bool {
    &&& forall|i: int| 0 <= i < lines.len() ==> line_ok(#[trigger] lines[i])
    &&& lines_distinct(lines)
}

/// The rows of `grid` obey the rules, and so do its columns.
pub open spec fn board_valid(grid: Seq<Seq<Field>>) -> bool {
    lines_valid(grid) && lines_valid(columns(grid))
}

/// No cell of `grid` is empty.
pub open spec fn board_full(grid: Seq<Seq<Field>>) -> bool {
    forall|r: int| 0 <= r < grid.len() ==> line_full(#[trigger] grid[r])
}

/// How many cells of `line` hold `value`.
pub fn count_in_line(line: &Vec<Field>, value: Field) -> (n: usize)
    ensures
        n == count_of(line@, value),
{
    let mut n: usize = 0;
    let mut i: usize = 0;
    while i < line.len()
        invariant
            i <= line.len(),
            n == count_of(line@.take(i as int), value),
            n <= i,
        decreases line.len() - i,
    {
        proof {
            lemma_count_push(line@.take(i as int), line@[i as int], value);
            assert(line@.take(i as int).push(line@[i as int]) =~= line@.take(i + 1));
        }
        if line[i] == value {
            n += 1;
        }
        i += 1;
    }
    assert(line@.take(i as int) =~= line@);
    n
}

/// Whether no cell of `line` is empty.
pub fn line_is_full(line: &Vec<Field>) -> (r: bool)
    ensures
        r == line_full(line@),
{
    let mut i: usize = 0;
    while i < line.len()
        invariant
            i <= line.len(),
            forall|j: int| 0 <= j < i ==> line@[j] != Field::Empty,
        decreases line.len() - i,
    {
        if line[i] == Field::Empty {
            return false;
        }
        i += 1;
    }
    true
}

/// Whether three neighbouring cells of `line` hold the same mark.
pub fn line_has_triple(line: &Vec<Field>) -> (r: bool)
    ensures
        r == has_triple(line@),
{
    if line.len() < 3 {
        return false;
    }
    let last: usize = line.len() - 2;
    let mut i: usize = 0;
    while i < last
        invariant
            last == line.len() - 2,
            i <= last,
            forall|j: int| 0 <= j < i ==> !is_triple_at(line@, j),
        decreases last - i,
    {
        let f = line[i];
        if f != Field::Empty && line[i + 1] == f && line[i + 2] == f {
            assert(is_triple_at(line@, i as int));
            return true;
        }
        i += 1;
    }
    false
}

/// Whether `line` has no three equal neighbours and is balanced.
pub fn line_is_ok(line: &Vec<Field>) -> (r: bool)
    ensures
        r == line_ok(line@),
{
    let half: usize = line.len() / 2;
    !line_has_triple(line) && count_in_line(line, Field::X) <= half && count_in_line(
        line,
        Field::O,
    ) <= half
}

/// Whether two lines hold the same cells in the same order.
pub fn lines_equal(a: &Vec<Field>, b: &Vec<Field>) -> (r: bool)
    ensures
        r == (a@ == b@),
{
    if a.len() != b.len() {
        return false;
    }
    let mut i: usize = 0;
    while i < a.len()
        invariant
            a.len() == b.len(),
            i <= a.len(),
            forall|j: int| 0 <= j < i ==> a@[j] == b@[j],
        decreases a.len() - i,
    {
        if a[i] != b[i] {
            return false;
        }
        i += 1;
    }
    assert(a@ =~= b@);
    true
}

/// Whether no two full lines among `lines` are equal.
pub fn lines_are_distinct(lines: &Vec<Vec<Field>>) -> (r: bool)
    ensures
        r == lines_distinct(line_views(lines@)),
{
    let ghost views = line_views(lines@);
    let mut i: usize = 0;
    while i < lines.len()
        invariant
            views == line_views(lines@),
            i <= lines.len(),
            forall|a: int, b: int|
                0 <= a < i && a < b < lines.len() && line_full(#[trigger] views[a]) && line_full(
                    #[trigger] views[b],
                ) ==> views[a] != views[b],
        decreases lines.len() - i,
    {
        if line_is_full(&lines[i]) {
            let mut j: usize = i + 1;
            while j < lines.len()
                invariant
                    views == line_views(lines@),
                    i < j <= lines.len(),
                    line_full(views[i as int]),
                    forall|b: int|
                        i < b < j && line_full(#[trigger] views[b]) ==> views[i as int] != views[b],
                decreases lines.len() - j,
            {
                if line_is_full(&lines[j]) && lines_equal(&lines[i], &lines[j]) {
                    assert(views[i as int] == views[j as int]);
                    return false;
                }
                j += 1;
            }
        }
        i += 1;
    }
    true
}

/// Whether each of `lines` is in order and no two full ones are equal.
pub fn lines_are_valid(lines: &Vec<Vec<Field>>) -> (r: bool)
    ensures
        r == lines_valid(line_views(lines@)),
{
    let ghost views = line_views(lines@);
    let mut i: usize = 0;
    while i < lines.len()
        invariant
            views == line_views(lines@),
            i <= lines.len(),
            forall|j: int| 0 <= j < i ==> line_ok(#[trigger] views[j]),
        decreases lines.len() - i,
    {
        if !line_is_ok(&lines[i]) {
            assert(!line_ok(views[i as int]));
            return false;
        }
        i += 1;
    }
    lines_are_distinct(lines)
}

/// Both checks read nothing but the cells: two boards with the same cells
/// get the same answers, and so does one board that is asked twice.
pub proof fn lemma_checks_read_cells_only(first: Board, second: Board)
    requires
        first@ == second@,
    ensures
        board_full(first@) == board_full(second@),
        board_valid(first@) == board_valid(second@),
{
}

/// Whether no cell of the board is empty.  The answer depends on the cells
/// alone, and the board is left as it was.
pub fn is_board_full(board: &Board) -> (r: bool)
    requires
        board.wf(),
    ensures
        r == board_full(board@),
{
    let lines = board.rows();
    let mut i: usize = 0;
    while i < lines.len()
        invariant
            line_views(lines@) == board@,
            i <= lines.len(),
            forall|j: int| 0 <= j < i ==> line_full(#[trigger] board@[j]),
        decreases lines.len() - i,
    {
        if !line_is_full(&lines[i]) {
            assert(!line_full(board@[i as int]));
            return false;
        }
        i += 1;
    }
    true
}

/// Whether the board obeys the three rules as far as it is filled.  The
/// answer depends on the cells alone, and the board is left as it was.
pub fn is_board_valid(board: &Board) -> (r: bool)
    requires
        board.wf(),
    ensures
        r == board_valid(board@),
{
    if !lines_are_valid(board.rows()) {
        return false;
    }
    let cols = board.columns();
    lines_are_valid(&cols)
}

/// In a full line every cell holds one of the two marks.
pub proof fn lemma_full_line_counts(line: Seq<Field>)
    requires
        line_full(line),
    ensures
        count_of(line, Field::X) + count_of(line, Field::O) == line.len(),
    decreases line.len(),
{
    if line.len() > 0 {
        lemma_full_line_counts(line.drop_last());
    }
}

/// A full line is in order exactly when it has no three equal neighbours
/// and each mark fills exactly half of it.
pub open spec fn line_solved(line: Seq<Field>) -> bool {
    &&& !has_triple(line)
    &&& 2 * count_of(line, Field::X) == line.len()
    &&& 2 * count_of(line, Field::O) == line.len()
}

/// On a full line, being in order and being solved are the same.
pub proof fn lemma_full_line_ok(line: Seq<Field>)
    requires
        line_full(line),
    ensures
        line_ok(line) <==> line_solved(line),
{
    lemma_full_line_counts(line);
}

/// When every row of a square grid is full, so is every column.
pub proof fn lemma_full_columns(grid: Seq<Seq<Field>>)
    requires
        is_square(grid),
        board_full(grid),
    ensures
        forall|c: int| 0 <= c < grid.len() ==> line_full(#[trigger] columns(grid)[c]),
{
    assert forall|c: int| 0 <= c < grid.len() implies line_full(#[trigger] columns(grid)[c]) by {
        let column = columns(grid)[c];
        assert forall|r: int| 0 <= r < column.len() implies #[trigger] column[r] != Field::Empty by {
            assert(line_full(grid[r]));
            assert(grid[r][c] != Field::Empty);
        }
    }
}

/// A board of any side on which nothing has been placed is not full, and
/// breaks no rule.
pub proof fn lemma_empty_board(side: nat)
    requires
        side > 0,
    ensures
        !board_full(uniform_grid(side, Field::Empty)),
        board_valid(uniform_grid(side, Field::Empty)),
{
    let grid = uniform_grid(side, Field::Empty);
    let blank = Seq::new(side, |c: int| Field::Empty);
    assert(grid[0][0] == Field::Empty);
    assert(!line_full(grid[0]));
    lemma_count_absent(blank, Field::X);
    lemma_count_absent(blank, Field::O);
    assert(blank[0] == Field::Empty);
    assert(!line_full(blank));
    assert(line_ok(blank));
    assert forall|i: int| 0 <= i < side implies grid[i] == blank && #[trigger] columns(grid)[i]
        == blank by {
        assert(grid[i] =~= blank);
        assert(columns(grid)[i] =~= blank);
    }
    assert(lines_valid(grid));
    assert(lines_valid(columns(grid)));
}

/// Three equal neighbouring marks in one row or in one column make the
/// whole board invalid, however the rest of it is filled.
pub proof fn lemma_triple_breaks_board(grid: Seq<Seq<Field>>, line: int)
    requires
        0 <= line < grid.len(),
        has_triple(grid[line]) || has_triple(columns(grid)[line]),
    ensures
        !board_valid(grid),
{
    if has_triple(grid[line]) {
        assert(!line_ok(grid[line]));
    } else {
        assert(!line_ok(columns(grid)[line]));
    }
}

/// A full board is valid exactly when every row and every column holds each
/// mark in exactly half of its cells and has no three equal neighbours, no
/// two rows are equal, and no two columns are equal.
pub proof fn lemma_full_board_valid(grid: Seq<Seq<Field>>)
    requires
        is_board_grid(grid),
        board_full(grid),
    ensures
        board_valid(grid) <==> {
            &&& forall|i: int|
                0 <= i < grid.len() ==> line_solved(#[trigger] grid[i]) && line_solved(
                    columns(grid)[i],
                )
            &&& forall|i: int, j: int|
                0 <= i < j < grid.len() ==> #[trigger] grid[i] != #[trigger] grid[j]
            &&& forall|i: int, j: int|
                0 <= i < j < grid.len() ==> #[trigger] columns(grid)[i] != #[trigger] columns(
                    grid,
                )[j]
        },
{
    let cols = columns(grid);
    lemma_full_columns(grid);
    assert forall|i: int| 0 <= i < grid.len() implies (line_ok(#[trigger] grid[i]) <==> line_solved(
        grid[i],
    )) && (line_ok(cols[i]) <==> line_solved(cols[i])) by {
        lemma_full_line_ok(grid[i]);
        lemma_full_line_ok(cols[i]);
    }
    let solved = forall|i: int|
        0 <= i < grid.len() ==> line_solved(#[trigger] grid[i]) && line_solved(cols[i]);
    let rows_differ = forall|i: int, j: int|
        0 <= i < j < grid.len() ==> #[trigger] grid[i] != #[trigger] grid[j];
    let columns_differ = forall|i: int, j: int|
        0 <= i < j < grid.len() ==> #[trigger] cols[i] != #[trigger] cols[j];
    if board_valid(grid) {
        assert forall|i: int| 0 <= i < grid.len() implies line_solved(#[trigger] grid[i])
            && line_solved(cols[i]) by {
            assert(line_ok(grid[i]));
            assert(line_ok(cols[i]));
        }
        assert forall|i: int, j: int| 0 <= i < j < grid.len() implies #[trigger] grid[i]
            != #[trigger] grid[j] by {
            assert(line_full(grid[i]) && line_full(grid[j]));
        }
        assert forall|i: int, j: int| 0 <= i < j < grid.len() implies #[trigger] cols[i]
            != #[trigger] cols[j] by {
            assert(line_full(cols[i]) && line_full(cols[j]));
        }
    }
    if solved && rows_differ && columns_differ {
        assert forall|i: int| 0 <= i < grid.len() implies line_ok(#[trigger] grid[i]) by {
            assert(line_solved(grid[i]));
        }
        assert forall|i: int| 0 <= i < cols.len() implies line_ok(#[trigger] cols[i]) by {
            assert(line_solved(grid[i]) && line_solved(cols[i]));
        }
        assert(lines_distinct(grid));
        assert(lines_distinct(cols));
    }
}

} // verus!
