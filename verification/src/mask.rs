//! Which cells of a puzzle the player may change.
//!
//! A mask is fixed when a puzzle is made.  Its mathematical model is a grid
//! of booleans laid out like the board: `mask@[row][col]` is true where the
//! player may write, and false where the cell was given.

use crate::board::{grid_with, is_square, line_views, Board};
use crate::count::{
    count_of, grid_count, lemma_count_push, lemma_grid_count_bound, lemma_grid_count_push,
};
use crate::field::Field;
use vstd::prelude::*;

verus! {

/// The grids a mask may hold: square, with a number of cells that a `usize`
/// can count.
pub open spec fn is_mask_grid(grid: Seq<Seq<bool>>) -> bool {
    &&& grid.len() * grid.len() <= usize::MAX
    &&& is_square(grid)
}

/// Where `grid` has empty cells.
pub open spec fn empty_cells(grid: Seq<Seq<Field>>) -> Seq<Seq<bool>> {
    Seq::new(grid.len(), |r: int| Seq::new(grid[r].len(), |c: int| grid[r][c] == Field::Empty))
}

/// `line` with the cells emptied that `editable` marks.
pub open spec fn hidden_line(line: Seq<Field>, editable: Seq<bool>) -> Seq<Field> {
    Seq::new(
        line.len(),
        |c: int|
            if editable[c] {
                Field::Empty
            } else {
                line[c]
            },
    )
}

/// `grid` with the cells emptied that `editable` marks.
pub open spec fn hidden(grid: Seq<Seq<Field>>, editable: Seq<Seq<bool>>) -> Seq<Seq<Field>> {
    Seq::new(grid.len(), |r: int| hidden_line(grid[r], editable[r]))
}

/// `grid` with the cells that `editable` marks taken from `solution`.
pub open spec fn restored(
    grid: Seq<Seq<Field>>,
    editable: Seq<Seq<bool>>,
    solution: Seq<Seq<Field>>,
) -> Seq<Seq<Field>> {
    Seq::new(
        grid.len(),
        |r: int|
            Seq::new(
                grid[r].len(),
                |c: int|
                    if editable[r][c] {
                        solution[r][c]
                    } else {
                        grid[r][c]
                    },
            ),
    )
}

/// The record of the cells that the player may change.
#[derive(Debug, PartialEq, Eq)]
pub struct EditableMask {
    cells: Vec<Vec<bool>>,
}

impl Clone for EditableMask {
    fn clone(&self) -> (copy: EditableMask)
        ensures
            copy@ == self@,
    {
        let mut cells: Vec<Vec<bool>> = Vec::new();
        let mut r: usize = 0;
        while r < self.cells.len()
            invariant
                r <= self.cells@.len(),
                cells@.len() == r,
                forall|i: int| 0 <= i < r ==> (#[trigger] cells@[i])@ == self.cells@[i]@,
            decreases self.cells@.len() - r,
        {
            let line = &self.cells[r];
            let mut copy: Vec<bool> = Vec::new();
            let mut c: usize = 0;
            while c < line.len()
                invariant
                    c <= line@.len(),
                    copy@.len() == c,
                    forall|i: int| 0 <= i < c ==> copy@[i] == line@[i],
                decreases line@.len() - c,
            {
                copy.push(line[c]);
                c += 1;
            }
            assert(copy@ =~= line@);
            cells.push(copy);
            r += 1;
        }
        let copy = EditableMask { cells };
        assert(copy@ =~= self@);
        copy
    }
}

impl View for EditableMask {
    type V = Seq<Seq<bool>>;

    closed spec fn view(&self) -> Seq<Seq<bool>> {
        line_views(self.cells@)
    }
}

/// Why a cell was not changed.
#[derive(Clone, Copy, Debug, PartialEq, Eq, Structural)]
pub enum EditError {
    /// The board has no such cell.
    OutOfRange,
    /// The cell was given, or the mask does not reach it.
    NotEditable,
}

impl EditableMask {
    /// The invariant of every mask that this module hands out.
    pub open spec fn wf(&self) -> bool {
        is_mask_grid(self@)
    }

    /// The side of the mask as a mathematical integer.
    pub open spec fn side(&self) -> nat {
        self@.len()
    }

    /// Whether the mask reaches the cell in column `col` of row `row` and
    /// lets the player change it.
    pub open spec fn editable_at(&self, col: int, row: int) -> bool {
        0 <= col < self.side() && 0 <= row < self.side() && self@[row][col]
    }

    /// Makes a mask of the given rows, the first being the top one, where
    /// they form a square.
    pub fn from_rows(rows: Vec<Vec<bool>>) -> (r: Option<EditableMask>)
        ensures
            r is Some <==> is_mask_grid(line_views(rows@)),
            r matches Some(mask) ==> mask@ == line_views(rows@),
    {
        let n = rows.len();
        if n.checked_mul(n).is_none() {
            return None;
        }
        let ghost grid = line_views(rows@);
        let mut i: usize = 0;
        while i < n
            invariant
                n == rows@.len(),
                grid == line_views(rows@),
                i <= n,
                forall|j: int| 0 <= j < i ==> (#[trigger] grid[j]).len() == n,
            decreases n - i,
        {
            if rows[i].len() != n {
                assert(grid[i as int].len() != grid.len());
                return None;
            }
            i += 1;
        }
        Some(EditableMask { cells: rows })
    }

    /// Makes a mask of rows that are known to form a square.
    pub(crate) fn from_square(rows: Vec<Vec<bool>>) -> (mask: EditableMask)
        requires
            is_mask_grid(line_views(rows@)),
        ensures
            mask@ == line_views(rows@),
    {
        EditableMask { cells: rows }
    }

    /// The mask that lets the player change exactly the empty cells of
    /// `board`.
    pub fn from_board(board: &Board) -> (mask: EditableMask)
        requires
            board.wf(),
        ensures
            mask.wf(),
            mask@ == empty_cells(board@),
    {
        let n = board.size();
        let mut cells: Vec<Vec<bool>> = Vec::new();
        let mut r: usize = 0;
        while r < n
            invariant
                board.wf(),
                n == board.side(),
                r <= n,
                cells@.len() == r,
                forall|i: int| 0 <= i < r ==> (#[trigger] cells@[i])@ == empty_cells(board@)[i],
            decreases n - r,
        {
            let mut line: Vec<bool> = Vec::new();
            let mut c: usize = 0;
            while c < n
                invariant
                    board.wf(),
                    n == board.side(),
                    r < n,
                    c <= n,
                    line@.len() == c,
                    forall|i: int|
                        0 <= i < c ==> line@[i] == (board@[r as int][i] == Field::Empty),
                decreases n - c,
            {
                line.push(board.get(c, r) == Field::Empty);
                c += 1;
            }
            assert(line@ =~= empty_cells(board@)[r as int]);
            cells.push(line);
            r += 1;
        }
        let mask = EditableMask { cells };
        assert(mask@ =~= empty_cells(board@));
        mask
    }

    /// The side of the mask.
    pub fn size(&self) -> (n: usize)
        ensures
            n == self.side(),
    {
        self.cells.len()
    }

    /// Whether the player may change the cell in column `col` of row `row`.
    /// No cell outside the mask is editable.
    pub fn is_editable(&self, col: usize, row: usize) -> (r: bool)
        requires
            self.wf(),
        ensures
            r == self.editable_at(col as int, row as int),
    {
        if row < self.cells.len() {
            assert(self@[row as int] == self.cells@[row as int]@);
            col < self.cells.len() && self.cells[row][col]
        } else {
            false
        }
    }

    /// How many cells of the mask hold `value`.
    fn count(&self, value: bool) -> (n: usize)
        requires
            self.wf(),
        ensures
            n == grid_count(self@, value),
    {
        let side = self.cells.len();
        let mut n: usize = 0;
        let mut r: usize = 0;
        while r < side
            invariant
                self.wf(),
                side == self.side(),
                r <= side,
                n == grid_count(self@.take(r as int), value),
            decreases side - r,
        {
            let line = &self.cells[r];
            assert(line@ == self@[r as int]);
            let mut k: usize = 0;
            let mut c: usize = 0;
            while c < line.len()
                invariant
                    c <= line.len(),
                    k == count_of(line@.take(c as int), value),
                    k <= c,
                decreases line.len() - c,
            {
                proof {
                    lemma_count_push(line@.take(c as int), line@[c as int], value);
                    assert(line@.take(c as int).push(line@[c as int]) =~= line@.take(c + 1));
                }
                if line[c] == value {
                    k += 1;
                }
                c += 1;
            }
            proof {
                assert(line@.take(c as int) =~= line@);
                lemma_grid_count_push(self@.take(r as int), self@[r as int], value);
                assert(self@.take(r as int).push(self@[r as int]) =~= self@.take(r + 1));
                lemma_grid_count_bound(self@.take(r + 1), side as nat, value);
                assert((r + 1) * side <= side * side) by (nonlinear_arith)
                    requires
                        r + 1 <= side,
                ;
            }
            n += k;
            r += 1;
        }
        assert(self@.take(r as int) =~= self@);
        n
    }

    /// How many cells the player may change.
    pub fn editable_count(&self) -> (n: usize)
        requires
            self.wf(),
        ensures
            n == grid_count(self@, true),
    {
        self.count(true)
    }

    /// How many cells were given.
    pub fn given_count(&self) -> (n: usize)
        requires
            self.wf(),
        ensures
            n == grid_count(self@, false),
    {
        self.count(false)
    }
}

/// Writes `field` into the cell in column `col` of row `row` where the mask
/// lets the player change that cell, and says why where it does not.  The
/// board is left as it was when the cell is refused.
pub fn edit_cell(
    board: &mut Board,
    mask: &EditableMask,
    col: usize,
    row: usize,
    field: Field,
) -> (r: Result<(), EditError>)
    requires
        old(board).wf(),
        mask.wf(),
    ensures
        final(board).wf(),
        r == Err::<(), EditError>(EditError::OutOfRange) <==> !(col < old(board).side() && row < old(
            board,
        ).side()),
        r == Err::<(), EditError>(EditError::NotEditable) <==> col < old(board).side() && row < old(
            board,
        ).side() && !mask.editable_at(col as int, row as int),
        r is Ok <==> col < old(board).side() && row < old(board).side() && mask.editable_at(
            col as int,
            row as int,
        ),
        r is Ok ==> final(board)@ == grid_with(old(board)@, col as int, row as int, field),
        r is Err ==> final(board)@ == old(board)@,
{
    if !(col < board.size() && row < board.size()) {
        return Err(EditError::OutOfRange);
    }
    if !mask.is_editable(col, row) {
        return Err(EditError::NotEditable);
    }
    board.set(col, row, field);
    Ok(())
}

/// Puts the next of empty, X and O into the cell in column `col` of row
/// `row` where the mask lets the player change that cell, and says why
/// where it does not.  The board is left as it was when the cell is refused.
pub fn toggle_cell(board: &mut Board, mask: &EditableMask, col: usize, row: usize) -> (r: Result<
    (),
    EditError,
>)
    requires
        old(board).wf(),
        mask.wf(),
    ensures
        final(board).wf(),
        r == Err::<(), EditError>(EditError::OutOfRange) <==> !(col < old(board).side() && row < old(
            board,
        ).side()),
        r == Err::<(), EditError>(EditError::NotEditable) <==> col < old(board).side() && row < old(
            board,
        ).side() && !mask.editable_at(col as int, row as int),
        r is Ok <==> col < old(board).side() && row < old(board).side() && mask.editable_at(
            col as int,
            row as int,
        ),
        r is Ok ==> final(board)@ == grid_with(
            old(board)@,
            col as int,
            row as int,
            old(board)@[row as int][col as int].next(),
        ),
        r is Err ==> final(board)@ == old(board)@,
{
    match board.try_get(col, row) {
        Some(field) => edit_cell(board, mask, col, row, field.toggled()),
        None => Err(EditError::OutOfRange),
    }
}

/// Empties every cell of `board` that the mask lets the player change.
pub fn clear_editable(board: &mut Board, mask: &EditableMask)
    requires
        old(board).wf(),
        mask.wf(),
        mask.side() == old(board).side(),
    ensures
        final(board).wf(),
        final(board)@ == hidden(old(board)@, mask@),
{
    let n = board.size();
    let mut r: usize = 0;
    while r < n
        invariant
            old(board).wf(),
            board.wf(),
            mask.wf(),
            n == board.side(),
            n == mask.side(),
            n == old(board).side(),
            r <= n,
            forall|i: int| 0 <= i < r ==> #[trigger] board@[i] == hidden(old(board)@, mask@)[i],
            forall|i: int| r <= i < n ==> #[trigger] board@[i] == old(board)@[i],
        decreases n - r,
    {
        let mut c: usize = 0;
        while c < n
            invariant
                old(board).wf(),
                board.wf(),
                mask.wf(),
                n == board.side(),
                n == mask.side(),
                n == old(board).side(),
                r < n,
                c <= n,
                forall|i: int| 0 <= i < r ==> #[trigger] board@[i] == hidden(old(board)@, mask@)[i],
                forall|i: int| r < i < n ==> #[trigger] board@[i] == old(board)@[i],
                forall|j: int|
                    0 <= j < c ==> #[trigger] board@[r as int][j] == hidden(
                        old(board)@,
                        mask@,
                    )[r as int][j],
                forall|j: int| c <= j < n ==> #[trigger] board@[r as int][j] == old(board)@[r as int][j],
            decreases n - c,
        {
            if mask.is_editable(c, r) {
                board.set(c, r, Field::Empty);
            }
            c += 1;
        }
        assert(board@[r as int] =~= hidden(old(board)@, mask@)[r as int]);
        r += 1;
    }
    assert(board@ =~= hidden(old(board)@, mask@));
}

} // verus!
