//! Square storage for the cells of a puzzle.
//!
//! A board only stores cells: it never judges them.  Its mathematical model
//! is the sequence of its rows, each row a sequence of cells, so the cell in
//! column `col` of row `row` is `board@[row][col]`.

use crate::field::Field;
use vstd::prelude::*;

verus! {

/// A grid in which every row is as long as the grid is high.
pub open spec fn is_square<T>(grid: Seq<Seq<T>>) -> bool {
    forall|r: int| 0 <= r < grid.len() ==> (#[trigger] grid[r]).len() == grid.len()
}

/// The grids a board may hold: square, of positive even side, with a number
/// of cells that a `usize` can count.
pub open spec fn is_board_grid(grid: Seq<Seq<Field>>) -> bool {
    &&& grid.len() > 0
    &&& grid.len() % 2 == 0
    &&& grid.len() * grid.len() <= usize::MAX
    &&& is_square(grid)
}

/// The grid of side `side` with the same value in every cell.
pub open spec fn uniform_grid<T>(side: nat, value: T) -> Seq<Seq<T>> {
    Seq::new(side, |r: int| Seq::new(side, |c: int| value))
}

/// The grid `grid` with the cell in column `col` of row `row` replaced.
pub open spec fn grid_with<T>(grid: Seq<Seq<T>>, col: int, row: int, value: T) -> Seq<Seq<T>> {
    grid.update(row, grid[row].update(col, value))
}

/// The columns of a grid, each read from the top row down.
pub open spec fn columns<T>(grid: Seq<Seq<T>>) -> Seq<Seq<T>> {
    Seq::new(grid.len(), |c: int| Seq::new(grid.len(), |r: int| grid[r][c]))
}

/// The lines that a vector of vectors holds.
pub open spec fn line_views<T>(lines: Seq<Vec<T>>) -> Seq<Seq<T>> {
    Seq::new(lines.len(), |i: int| lines[i]@)
}

/// Why a board of a requested side cannot exist.
#[derive(Clone, Copy, Debug, PartialEq, Eq, Structural)]
pub enum SizeError {
    /// The side is zero.
    Zero,
    /// The side is odd, so no line could hold as many of one mark as of the other.
    Odd,
    /// The number of cells does not fit in a `usize`.
    TooLarge,
    /// Some row is not as long as the board is high.
    Ragged,
}

/// A square board of even side.
#[derive(Debug, PartialEq, Eq)]
pub struct Board {
    rows: Vec<Vec<Field>>,
}

impl Clone for Board {
    fn clone(&self) -> (copy: Board)
        ensures
            copy@ == self@,
    {
        let mut rows: Vec<Vec<Field>> = Vec::new();
        let mut r: usize = 0;
        while r < self.rows.len()
            invariant
                r <= self.rows@.len(),
                rows@.len() == r,
                forall|i: int| 0 <= i < r ==> (#[trigger] rows@[i])@ == self.rows@[i]@,
            decreases self.rows@.len() - r,
        {
            let line = &self.rows[r];
            let mut copy: Vec<Field> = Vec::new();
            let mut c: usize = 0;
            while c < line.len()
                invariant
                    c <= line@.len(),
                    copy@.len() == c,
                    forall|i: int| 0 <= i < c ==> copy@[i] == line@[i],
                decreases line@.len() - c,
            {
                copy.push(line[c]);
                c += 1;
            }
            assert(copy@ =~= line@);
            rows.push(copy);
            r += 1;
        }
        let copy = Board { rows };
        assert(copy@ =~= self@);
        copy
    }
}

impl View for Board {
    type V = Seq<Seq<Field>>;

    closed spec fn view(&self) -> Seq<Seq<Field>> {
        Seq::new(self.rows@.len(), |r: int| self.rows@[r]@)
    }
}

impl Board {
    /// The invariant of every board that this module hands out.
    pub open spec fn wf(&self) -> bool {
        is_board_grid(self@)
    }

    /// The side of the board as a mathematical integer.
    pub open spec fn side(&self) -> nat {
        self@.len()
    }

    /// Creates the empty board of side `size`.
    pub fn new(size: usize) -> (r: Result<Board, SizeError>)
        ensures
            size == 0 <==> r == Err::<Board, SizeError>(SizeError::Zero),
            size % 2 == 1 <==> r == Err::<Board, SizeError>(SizeError::Odd),
            size > 0 && size % 2 == 0 && size * size > usize::MAX <==> r == Err::<Board, SizeError>(
                SizeError::TooLarge,
            ),
            r is Ok <==> size > 0 && size % 2 == 0 && size * size <= usize::MAX,
            r matches Ok(board) ==> board.wf() && board@ == uniform_grid(size as nat, Field::Empty),
    {
        if size == 0 {
            return Err(SizeError::Zero);
        }
        if size % 2 == 1 {
            return Err(SizeError::Odd);
        }
        if size.checked_mul(size).is_none() {
            return Err(SizeError::TooLarge);
        }
        let mut rows: Vec<Vec<Field>> = Vec::new();
        let mut r: usize = 0;
        while r < size
            invariant
                r <= size,
                rows@.len() == r,
                forall|i: int|
                    0 <= i < r ==> (#[trigger] rows@[i])@ == Seq::new(
                        size as nat,
                        |c: int| Field::Empty,
                    ),
            decreases size - r,
        {
            let mut line: Vec<Field> = Vec::new();
            let mut c: usize = 0;
            while c < size
                invariant
                    c <= size,
                    line@.len() == c,
                    forall|i: int| 0 <= i < c ==> line@[i] == Field::Empty,
                decreases size - c,
            {
                line.push(Field::Empty);
                c += 1;
            }
            assert(line@ == Seq::new(size as nat, |c: int| Field::Empty));
            rows.push(line);
            r += 1;
        }
        let board = Board { rows };
        assert(board@ == uniform_grid(size as nat, Field::Empty));
        Ok(board)
    }

    /// Makes a board of the given rows, the first being the top one.
    pub fn from_rows(rows: Vec<Vec<Field>>) -> (r: Result<Board, SizeError>)
        ensures
            rows@.len() == 0 <==> r == Err::<Board, SizeError>(SizeError::Zero),
            rows@.len() % 2 == 1 <==> r == Err::<Board, SizeError>(SizeError::Odd),
            rows@.len() > 0 && rows@.len() % 2 == 0 && rows@.len() * rows@.len() > usize::MAX <==> r
                == Err::<Board, SizeError>(SizeError::TooLarge),
            rows@.len() > 0 && rows@.len() % 2 == 0 && rows@.len() * rows@.len() <= usize::MAX
                && !is_square(line_views(rows@)) <==> r == Err::<Board, SizeError>(
                SizeError::Ragged,
            ),
            r is Ok <==> is_board_grid(line_views(rows@)),
            r matches Ok(board) ==> board@ == line_views(rows@),
    {
        let n = rows.len();
        if n == 0 {
            return Err(SizeError::Zero);
        }
        if n % 2 == 1 {
            return Err(SizeError::Odd);
        }
        if n.checked_mul(n).is_none() {
            return Err(SizeError::TooLarge);
        }
        let ghost grid = line_views(rows@);
        let mut i: usize = 0;
        while i < n
            invariant
                n == rows@.len(),
                n > 0 && n % 2 == 0 && n * n <= usize::MAX,
                grid == line_views(rows@),
                i <= n,
                forall|j: int| 0 <= j < i ==> (#[trigger] grid[j]).len() == n,
            decreases n - i,
        {
            if rows[i].len() != n {
                assert(grid[i as int].len() != grid.len());
                return Err(SizeError::Ragged);
            }
            i += 1;
        }
        let board = Board { rows };
        assert(board@ =~= grid);
        Ok(board)
    }

    /// The side of the board.
    pub fn size(&self) -> (n: usize)
        requires
            self.wf(),
        ensures
            n == self.side(),
    {
        self.rows.len()
    }

    /// The cell in column `col` of row `row`.
    pub fn get(&self, col: usize, row: usize) -> (f: Field)
        requires
            self.wf(),
            col < self.side(),
            row < self.side(),
        ensures
            f == self@[row as int][col as int],
    {
        assert(self.rows@[row as int]@ == self@[row as int]);
        self.rows[row][col]
    }

    /// Overwrites the cell in column `col` of row `row`, whatever it held.
    pub fn set(&mut self, col: usize, row: usize, field: Field)
        requires
            old(self).wf(),
            col < old(self).side(),
            row < old(self).side(),
        ensures
            final(self).wf(),
            final(self)@ == grid_with(old(self)@, col as int, row as int, field),
    {
        assert(self.rows@[row as int]@ == self@[row as int]);
        self.rows[row][col] = field;
        assert(self@ =~~= grid_with(old(self)@, col as int, row as int, field));
    }

    /// The rows of the board, from the top.
    pub fn rows(&self) -> (lines: &Vec<Vec<Field>>)
        ensures
            line_views(lines@) == self@,
    {
        assert(line_views(self.rows@) =~= self@);
        &self.rows
    }

    /// The columns of the board, from the left, each read from the top.
    pub fn columns(&self) -> (lines: Vec<Vec<Field>>)
        requires
            self.wf(),
        ensures
            line_views(lines@) == columns(self@),
    {
        let n = self.rows.len();
        let mut lines: Vec<Vec<Field>> = Vec::new();
        let mut c: usize = 0;
        while c < n
            invariant
                self.wf(),
                n == self.side(),
                c <= n,
                lines@.len() == c,
                forall|i: int| 0 <= i < c ==> (#[trigger] lines@[i])@ == columns(self@)[i],
            decreases n - c,
        {
            let mut line: Vec<Field> = Vec::new();
            let mut r: usize = 0;
            while r < n
                invariant
                    self.wf(),
                    n == self.side(),
                    c < n,
                    r <= n,
                    line@.len() == r,
                    forall|i: int| 0 <= i < r ==> line@[i] == self@[i][c as int],
                decreases n - r,
            {
                line.push(self.get(c, r));
                r += 1;
            }
            assert(line@ =~= columns(self@)[c as int]);
            lines.push(line);
            c += 1;
        }
        assert(line_views(lines@) =~= columns(self@));
        lines
    }

    /// The cell in column `col` of row `row`, or `None` where the board has
    /// no such cell.
    pub fn try_get(&self, col: usize, row: usize) -> (f: Option<Field>)
        requires
            self.wf(),
        ensures
            f == if col < self.side() && row < self.side() {
                Some(self@[row as int][col as int])
            } else {
                None
            },
    {
        if col < self.size() && row < self.size() {
            Some(self.get(col, row))
        } else {
            None
        }
    }

    /// Overwrites the cell in column `col` of row `row` and reports whether
    /// the board has such a cell; a board without it is left as it was.
    pub fn try_set(&mut self, col: usize, row: usize, field: Field) -> (done: bool)
        requires
            old(self).wf(),
        ensures
            final(self).wf(),
            done == (col < old(self).side() && row < old(self).side()),
            done ==> final(self)@ == grid_with(old(self)@, col as int, row as int, field),
            !done ==> final(self)@ == old(self)@,
    {
        if col < self.size() && row < self.size() {
            self.set(col, row, field);
            true
        } else {
            false
        }
    }
}

} // verus!
