//! The bounded search for a solved board.
//!
//! The search fills an empty board move by move.  Each move is proposed by
//! the `binoxxo` crate, which looks at the board and names an empty cell and
//! a mark for it.  Where it proposes nothing, some of the latest moves are
//! taken back, as many as the library's own generator draws, and the search
//! goes on.  It ends when every cell was filled or when the allowed number
//! of steps is used up.  A board that comes out of it is checked against the
//! rules before it is handed on, so nothing rests on the proposals being
//! sound.

use crate::board::{is_board_grid, is_square, Board};
use crate::field::Field;
use crate::rules::{board_full, board_valid, is_board_full, is_board_valid};
use crate::select::{advance, next_state, start_state};
use crate::source::{
    candidate_cells, candidate_clear, candidate_get, candidate_new, candidate_next_move,
    candidate_set, candidate_size, Candidate, MAX_SEARCH_SIDE,
};
use vstd::prelude::*;

verus! {

/// How many of `placed` moves are taken back at a dead end, when the
/// generator is in `state`: at least one, and not the first move unless it
/// is the only one.
pub open spec fn moves_back(state: u64, placed: nat) -> nat {
    if placed <= 1 {
        placed
    } else {
        1 + (state as nat) % ((placed - 1) as nat)
    }
}

/// How many of `placed` moves are taken back at a dead end.
pub fn take_back(state: u64, placed: usize) -> (back: usize)
    ensures
        back == moves_back(state, placed as nat),
        back <= placed,
        placed > 0 ==> back >= 1,
{
    if placed <= 1 {
        placed
    } else {
        let among: u64 = (placed - 1) as u64;
        1 + (state % among) as usize
    }
}

/// What one step of the search does.
#[derive(Clone, Copy, Debug, PartialEq, Eq, Structural)]
pub enum SearchAction {
    /// Write the mark into the cell in the given column and row.
    Place(usize, usize, Field),
    /// Take back the given number of the latest moves.
    TakeBack(usize),
}

/// What the search does with a proposal, and the state in which it leaves
/// the generator, when `placed` moves stand and the generator is in
/// `state`.  A proposed move is placed as it came.  Without a proposal the
/// search is at a dead end: the generator draws once, unless no move
/// stands, and as many of the latest moves are taken back as
/// [`moves_back`] says for the drawn state.
pub open spec fn action_for(next: Option<(usize, usize, Field)>, state: u64, placed: nat) -> (
    SearchAction,
    u64,
) {
    match next {
        Some(m) => (SearchAction::Place(m.0, m.1, m.2), state),
        None => {
            let drawn = if placed > 0 {
                next_state(state)
            } else {
                state
            };
            (SearchAction::TakeBack(moves_back(drawn, placed) as usize), drawn)
        },
    }
}

/// What the search does with a proposal, and the state in which it leaves
/// the generator.
pub fn decide(next: Option<(usize, usize, Field)>, state: u64, placed: usize) -> (r: (
    SearchAction,
    u64,
))
    ensures
        r == action_for(next, state, placed as nat),
{
    match next {
        Some((col, row, field)) => (SearchAction::Place(col, row, field), state),
        None => {
            let drawn = if placed > 0 {
                advance(state)
            } else {
                state
            };
            (SearchAction::TakeBack(take_back(drawn, placed)), drawn)
        },
    }
}

/// Hands a finished board on where it is full and valid, and nothing where
/// it is not.
pub fn solved_or_none(board: Board) -> (r: Option<Board>)
    requires
        board.wf(),
    ensures
        r is Some <==> board_full(board@) && board_valid(board@),
        r matches Some(kept) ==> kept@ == board@,
{
    if is_board_full(&board) && is_board_valid(&board) {
        Some(board)
    } else {
        None
    }
}

/// Every move names a cell of the grid that is filled, and no two moves
/// name the same cell.
pub open spec fn moves_stand(moves: Seq<(usize, usize)>, cells: Seq<Seq<Field>>) -> bool {
    &&& forall|i: int|
        0 <= i < moves.len() ==> (#[trigger] moves[i]).0 < cells.len() && moves[i].1 < cells.len()
            && cells[moves[i].1 as int][moves[i].0 as int] != Field::Empty
    &&& forall|i: int, j: int| 0 <= i < j < moves.len() ==> #[trigger] moves[i] != #[trigger] moves[j]
}

/// Copies a candidate cell by cell, where a board of the library can have
/// its side.
pub(crate) fn import_board(candidate: &Candidate) -> (r: Option<Board>)
    ensures
        r is Some <==> is_board_grid(candidate_cells(*candidate)),
        r matches Some(board) ==> board@ == candidate_cells(*candidate),
{
    let ghost cells = candidate_cells(*candidate);
    let n = candidate_size(candidate);
    match Board::new(n) {
        Err(_) => None,
        Ok(empty) => {
            let mut board = empty;
            let mut row: usize = 0;
            while row < n
                invariant
                    cells == candidate_cells(*candidate),
                    is_square(cells),
                    n == cells.len(),
                    board.wf(),
                    n == board.side(),
                    row <= n,
                    forall|r: int| 0 <= r < row ==> #[trigger] board@[r] == cells[r],
                decreases n - row,
            {
                let mut col: usize = 0;
                while col < n
                    invariant
                        cells == candidate_cells(*candidate),
                        is_square(cells),
                        n == cells.len(),
                        board.wf(),
                        n == board.side(),
                        row < n,
                        col <= n,
                        forall|r: int| 0 <= r < row ==> #[trigger] board@[r] == cells[r],
                        forall|c: int|
                            0 <= c < col ==> #[trigger] board@[row as int][c] == cells[row as int][c],
                    decreases n - col,
                {
                    let field = candidate_get(candidate, col, row);
                    board.set(col, row, field);
                    col += 1;
                }
                assert(board@[row as int] =~= cells[row as int]);
                row += 1;
            }
            assert(board@ =~= cells);
            Some(board)
        },
    }
}

/// Searches for a solved board of side `size` in at most `max_steps` steps,
/// a step being one move or one dead end.  `seed` starts the generator that
/// draws how many moves are taken back at a dead end.
///
/// A board that is handed out is full and valid.  There is none for a side
/// that is odd, below two or above [`MAX_SEARCH_SIDE`], nor in fewer steps
/// than the board has cells.
pub fn search_solution(size: usize, seed: u64, max_steps: usize) -> (r: Option<Board>)
    ensures
        r matches Some(board) ==> board.wf() && board.side() == size && board_full(board@)
            && board_valid(board@),
        size % 2 == 1 || size < 2 || size > MAX_SEARCH_SIDE ==> r is None,
        max_steps < size * size ==> r is None,
{
    if size % 2 == 1 || size < 2 || size > MAX_SEARCH_SIDE {
        return None;
    }
    assert(size * size <= 62 * 62) by (nonlinear_arith)
        requires
            size <= 62,
    ;
    let total: usize = size * size;
    let mut candidate = candidate_new(size);
    let mut moves: Vec<(usize, usize)> = Vec::new();
    let mut state: u64 = start_state(seed);
    let mut step: usize = 0;
    while step < max_steps && moves.len() < total
        invariant
            2 <= size <= MAX_SEARCH_SIDE,
            total == size * size,
            candidate_cells(candidate).len() == size,
            is_square(candidate_cells(candidate)),
            moves_stand(moves@, candidate_cells(candidate)),
            moves@.len() <= step <= max_steps,
        decreases max_steps - step,
    {
        let next = candidate_next_move(&mut candidate);
        let (action, drawn) = decide(next, state, moves.len());
        state = drawn;
        match action {
            SearchAction::Place(col, row, field) => {
                let ghost before = candidate_cells(candidate);
                candidate_set(&mut candidate, col, row, field);
                moves.push((col, row));
                proof {
                    let after = candidate_cells(candidate);
                    assert(is_square(after)) by {
                        assert forall|r: int| 0 <= r < after.len() implies (#[trigger] after[r]).len()
                            == after.len() by {
                            assert(before[r].len() == before.len());
                        }
                    }
                    assert forall|i: int| 0 <= i < moves@.len() implies (#[trigger] moves@[i]).0
                        < after.len() && moves@[i].1 < after.len() && after[moves@[i].1 as int][moves@[i].0 as int]
                        != Field::Empty by {
                        if i < moves@.len() - 1 {
                            assert(before[moves@[i].1 as int].len() == before.len());
                        }
                    }
                }
            },
            SearchAction::TakeBack(back) => {
                let placed = moves.len();
                let mut undone: usize = 0;
                while undone < back
                    invariant
                        2 <= size <= MAX_SEARCH_SIDE,
                        candidate_cells(candidate).len() == size,
                        is_square(candidate_cells(candidate)),
                        moves_stand(moves@, candidate_cells(candidate)),
                        undone <= back <= placed,
                        moves@.len() + undone == placed,
                    decreases back - undone,
                {
                    let ghost before = candidate_cells(candidate);
                    let ghost listed = moves@;
                    match moves.pop() {
                        Some((col, row)) => {
                            assert(listed[listed.len() - 1] == (col, row));
                            candidate_clear(&mut candidate, col, row);
                            proof {
                                let after = candidate_cells(candidate);
                                assert(is_square(after)) by {
                                    assert forall|r: int| 0 <= r < after.len() implies (
                                    #[trigger] after[r]).len() == after.len() by {
                                        assert(before[r].len() == before.len());
                                    }
                                }
                                assert forall|i: int| 0 <= i < moves@.len() implies (
                                #[trigger] moves@[i]).0 < after.len() && moves@[i].1 < after.len()
                                    && after[moves@[i].1 as int][moves@[i].0 as int]
                                    != Field::Empty by {
                                    assert(moves@[i] == listed[i]);
                                    assert(listed[i] != listed[listed.len() - 1]);
                                    assert(before[listed[i].1 as int].len() == before.len());
                                }
                                assert forall|i: int, j: int|
                                    0 <= i < j < moves@.len() implies #[trigger] moves@[i]
                                    != #[trigger] moves@[j] by {
                                    assert(moves@[i] == listed[i] && moves@[j] == listed[j]);
                                }
                            }
                        },
                        None => {},
                    }
                    undone += 1;
                }
            },
        }
        step += 1;
    }
    if moves.len() < total {
        return None;
    }
    match import_board(&candidate) {
        Some(board) => solved_or_none(board),
        None => None,
    }
}

} // verus!
