//! The steps of a search for a solved board, taken from the `binoxxo` crate.
//!
//! Nothing in this module is proved.  Each item states what the library
//! believes of the outside crate: how its board stores cells, and that its
//! choice of a next move leaves the board as it was.  Whether a move keeps
//! to the rules is not stated anywhere; the library checks every finished
//! board itself.

use crate::board::{grid_with, uniform_grid};
use crate::field::Field;
use vstd::prelude::*;

verus! {

/// The largest side for which the outside crate judges moves: it numbers a
/// full line of at most this many cells in a 64-bit integer.
pub const MAX_SEARCH_SIDE: usize = 62;

/// A board of the `binoxxo` crate while a search fills it.  The library sees
/// nothing of it but what the functions below return.
#[verifier::external_body]
pub struct Candidate {
    inner: binoxxo::field::Board,
}

/// The cells of a candidate, row by row: a grid with as many rows as the
/// outside board has columns, in which `candidate_cells(candidate)[row][col]`
/// is what the outside board's `get` returns for column `col` and row `row`.
pub uninterp spec fn candidate_cells(candidate: Candidate) -> Seq<Seq<Field>>;

/// Calls `binoxxo::field::Board::new`, which panics for an odd side and for
/// a side below two, and otherwise makes a board of that side with every
/// cell empty.
#[verifier::external_body]
pub(crate) fn candidate_new(size: usize) -> (candidate: Candidate)
    requires
        size % 2 == 0,
        2 <= size <= MAX_SEARCH_SIDE,
    ensures
        candidate_cells(candidate) == uniform_grid(size as nat, Field::Empty),
{
    Candidate { inner: binoxxo::field::Board::new(size) }
}

/// Calls `binoxxo::field::Board::get_size`, which returns the side that the
/// board was made with: the number of its rows and of its columns.
#[verifier::external_body]
pub(crate) fn candidate_size(candidate: &Candidate) -> (n: usize)
    ensures
        n == candidate_cells(*candidate).len(),
        forall|row: int| 0 <= row < n ==> (#[trigger] candidate_cells(*candidate)[row]).len() == n,
{
    candidate.inner.get_size()
}

/// Calls `binoxxo::field::Board::get`, which panics for a column or a row
/// beyond the side and otherwise returns what the cell holds.  The three
/// variants of the outside enum become the three of [`Field`].
#[verifier::external_body]
pub(crate) fn candidate_get(candidate: &Candidate, col: usize, row: usize) -> (field: Field)
    requires
        col < candidate_cells(*candidate).len(),
        row < candidate_cells(*candidate).len(),
    ensures
        field == candidate_cells(*candidate)[row as int][col as int],
{
    match candidate.inner.get(col, row) {
        binoxxo::field::Field::Empty => Field::Empty,
        binoxxo::field::Field::X => Field::X,
        binoxxo::field::Field::O => Field::O,
    }
}

/// Calls `binoxxo::field::Board::set`, which panics for a column or a row
/// beyond the side and for an empty field, and otherwise writes the mark
/// into that one cell.
#[verifier::external_body]
pub(crate) fn candidate_set(candidate: &mut Candidate, col: usize, row: usize, field: Field)
    requires
        col < candidate_cells(*old(candidate)).len(),
        row < candidate_cells(*old(candidate)).len(),
        field != Field::Empty,
    ensures
        candidate_cells(*final(candidate)) == grid_with(
            candidate_cells(*old(candidate)),
            col as int,
            row as int,
            field,
        ),
{
    let mark = match field {
        Field::Empty => binoxxo::field::Field::Empty,
        Field::X => binoxxo::field::Field::X,
        Field::O => binoxxo::field::Field::O,
    };
    candidate.inner.set(col, row, mark)
}

/// Calls `binoxxo::field::Board::clear`, which panics for a column or a row
/// beyond the side and for a cell that is empty already, and otherwise
/// empties that one cell.
#[verifier::external_body]
pub(crate) fn candidate_clear(candidate: &mut Candidate, col: usize, row: usize)
    requires
        col < candidate_cells(*old(candidate)).len(),
        row < candidate_cells(*old(candidate)).len(),
        candidate_cells(*old(candidate))[row as int][col as int] != Field::Empty,
    ensures
        candidate_cells(*final(candidate)) == grid_with(
            candidate_cells(*old(candidate)),
            col as int,
            row as int,
            Field::Empty,
        ),
{
    candidate.inner.clear(col, row)
}

/// Calls `binoxxo::bruteforce::possible_move::calc_possible_moves`, which
/// tries both marks in every empty cell and takes each away again, and then
/// `binoxxo::bruteforce::choose_move::select_next_move`, which picks one of
/// the moves found, at random, or none where some empty cell takes neither
/// mark or no cell is empty.  Stated are only that the board is left as it
/// was and that a move names an empty cell of the board and a mark; which
/// move it is, and whether it keeps to the rules, is not.
#[verifier::external_body]
pub(crate) fn candidate_next_move(candidate: &mut Candidate) -> (next: Option<(usize, usize, Field)>)
    requires
        2 <= candidate_cells(*old(candidate)).len() <= MAX_SEARCH_SIDE,
    ensures
        candidate_cells(*final(candidate)) == candidate_cells(*old(candidate)),
        next matches Some(m) ==> m.0 < candidate_cells(*old(candidate)).len() && m.1
            < candidate_cells(*old(candidate)).len() && m.2 != Field::Empty && candidate_cells(
            *old(candidate),
        )[m.1 as int][m.0 as int] == Field::Empty,
{
    let moves = binoxxo::bruteforce::possible_move::calc_possible_moves(&mut candidate.inner);
    match binoxxo::bruteforce::choose_move::select_next_move(&moves) {
        Some(chosen) => match chosen.field {
            binoxxo::field::Field::Empty => Some((chosen.x, chosen.y, Field::Empty)),
            binoxxo::field::Field::X => Some((chosen.x, chosen.y, Field::X)),
            binoxxo::field::Field::O => Some((chosen.x, chosen.y, Field::O)),
        },
        None => None,
    }
}

} // verus!
