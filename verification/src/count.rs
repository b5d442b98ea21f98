//! Counting the cells of lines and grids that hold a given value.

use vstd::prelude::*;

verus! {

/// How many cells of `line` hold `value`.
pub open spec fn count_of<T>(line: Seq<T>, value: T) -> nat
    decreases line.len(),
{
    if line.len() == 0 {
        0
    } else {
        count_of(line.drop_last(), value) + if line.last() == value {
            1nat
        } else {
            0nat
        }
    }
}

/// How many cells of `grid` hold `value`.
pub open spec fn grid_count<T>(grid: Seq<Seq<T>>, value: T) -> nat
    decreases grid.len(),
{
    if grid.len() == 0 {
        0
    } else {
        grid_count(grid.drop_last(), value) + count_of(grid.last(), value)
    }
}

/// Counting a line that grew by one cell.
pub proof fn lemma_count_push<T>(line: Seq<T>, last: T, value: T)
    ensures
        count_of(line.push(last), value) == count_of(line, value) + if last == value {
            1nat
        } else {
            0nat
        },
{
    assert(line.push(last).drop_last() =~= line);
}

/// A line holds a value at most as often as it has cells.
pub proof fn lemma_count_bound<T>(line: Seq<T>, value: T)
    ensures
        count_of(line, value) <= line.len(),
    decreases line.len(),
{
    if line.len() > 0 {
        lemma_count_bound(line.drop_last(), value);
    }
}

/// A line without a value holds it zero times.
pub proof fn lemma_count_absent<T>(line: Seq<T>, value: T)
    requires
        forall|i: int| 0 <= i < line.len() ==> line[i] != value,
    ensures
        count_of(line, value) == 0,
    decreases line.len(),
{
    if line.len() > 0 {
        lemma_count_absent(line.drop_last(), value);
    }
}

/// A line with a given value in it holds that value at least once.
pub proof fn lemma_count_present<T>(line: Seq<T>, value: T, at: int)
    requires
        0 <= at < line.len(),
        line[at] == value,
    ensures
        count_of(line, value) > 0,
    decreases line.len(),
{
    if at < line.len() - 1 {
        lemma_count_present(line.drop_last(), value, at);
    }
}

/// Counting a grid that grew by one line.
pub proof fn lemma_grid_count_push<T>(grid: Seq<Seq<T>>, last: Seq<T>, value: T)
    ensures
        grid_count(grid.push(last), value) == grid_count(grid, value) + count_of(last, value),
{
    assert(grid.push(last).drop_last() =~= grid);
}

/// A grid whose lines have `width` cells each holds a value at most as often
/// as it has cells.
pub proof fn lemma_grid_count_bound<T>(grid: Seq<Seq<T>>, width: nat, value: T)
    requires
        forall|r: int| 0 <= r < grid.len() ==> (#[trigger] grid[r]).len() == width,
    ensures
        grid_count(grid, value) <= grid.len() * width,
    decreases grid.len(),
{
    if grid.len() > 0 {
        lemma_grid_count_bound(grid.drop_last(), width, value);
        lemma_count_bound(grid.last(), value);
        assert((grid.len() - 1) * width + width == grid.len() * width) by (nonlinear_arith);
    } else {
        assert(grid.len() * width == 0) by (nonlinear_arith)
            requires
                grid.len() == 0,
        ;
    }
}

/// In a line of booleans every cell is `true` or `false`.
pub proof fn lemma_count_bool(line: Seq<bool>)
    ensures
        count_of(line, true) + count_of(line, false) == line.len(),
    decreases line.len(),
{
    if line.len() > 0 {
        lemma_count_bool(line.drop_last());
    }
}

/// In a grid of booleans whose lines have `width` cells each, every cell is
/// `true` or `false`.
pub proof fn lemma_grid_count_bool(grid: Seq<Seq<bool>>, width: nat)
    requires
        forall|r: int| 0 <= r < grid.len() ==> (#[trigger] grid[r]).len() == width,
    ensures
        grid_count(grid, true) + grid_count(grid, false) == grid.len() * width,
    decreases grid.len(),
{
    if grid.len() > 0 {
        lemma_grid_count_bool(grid.drop_last(), width);
        lemma_count_bool(grid.last());
        assert((grid.len() - 1) * width + width == grid.len() * width) by (nonlinear_arith);
    } else {
        assert(grid.len() * width == 0) by (nonlinear_arith)
            requires
                grid.len() == 0,
        ;
    }
}

} // verus!
