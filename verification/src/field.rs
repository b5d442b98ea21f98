//! The value of a single cell.

use vstd::prelude::*;

verus! {

/// What one cell of a board holds.
#[derive(Clone, Copy, Debug, PartialEq, Eq, Hash, Structural)]
pub enum Field {
    /// Nothing has been placed yet.
    Empty,
    /// The first of the two marks.
    X,
    /// The second of the two marks.
    O,
}

impl Field {
    /// Whether the cell holds one of the two marks.
    pub open spec fn is_mark(self) -> bool {
        self != Field::Empty
    }

    /// Whether the cell holds one of the two marks.
    pub fn is_filled(self) -> (r: bool)
        ensures
            r == self.is_mark(),
    {
        self != Field::Empty
    }

    /// What a click makes of the cell: an empty cell gets an X, an X becomes
    /// an O, and an O is taken away.
    pub open spec fn next(self) -> Field {
        match self {
            Field::Empty => Field::X,
            Field::X => Field::O,
            Field::O => Field::Empty,
        }
    }

    /// What a click makes of the cell.
    pub fn toggled(self) -> (r: Field)
        ensures
            r == self.next(),
    {
        match self {
            Field::Empty => Field::X,
            Field::X => Field::O,
            Field::O => Field::Empty,
        }
    }
}

} // verus!
