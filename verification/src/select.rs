//! Choosing which cells of a solved board a puzzle shows.
//!
//! One cell of every row is shown for certain, each in another column, so
//! that no row and no column of a puzzle is left without a hint.  The
//! columns come from a shuffle.  The other cells are taken row by row, and
//! each is shown with the chance that is needed to end with exactly the
//! asked number of shown cells: when `needed` cells are still to be shown
//! among the `free` ones, the next cell is shown when a drawn number,
//! reduced modulo `free`, is below `needed`.  The numbers come from a small
//! generator that a seed starts, so the same seed always makes the same
//! choice.

use crate::board::{columns, line_views, Board};
use crate::count::{
    count_of, grid_count, lemma_count_present, lemma_count_push, lemma_grid_count_push,
};
use crate::field::Field;
use crate::mask::EditableMask;
use vstd::prelude::*;

verus! {

/// The state with which every seed is mixed before its first draw, so that
/// seeds that differ in a few low bits do not start alike.
pub const FIRST_STATE: u64 = 0x9E37_79B9_7F4A_7C15;

/// The state that follows `state` (a xorshift step).
pub open spec fn next_state(state: u64) -> u64 {
    let a = state ^ (state << 13);
    let b = a ^ (a >> 7);
    b ^ (b << 17)
}

/// The state in which the generator starts for `seed`.  It is never zero,
/// the one state that the generator could not leave.
pub open spec fn first_state(seed: u64) -> u64 {
    if seed == FIRST_STATE {
        FIRST_STATE
    } else {
        seed ^ FIRST_STATE
    }
}

/// The columns `0`, `1`, ... in their natural order.
pub open spec fn natural_order(n: nat) -> Seq<usize> {
    Seq::new(n, |i: int| i as usize)
}

/// The order of `n` columns, and the state of the generator, after the
/// first `steps` places of the natural order were each exchanged with a
/// place drawn from those not before it.
pub open spec fn shuffle(seed: u64, n: nat, steps: nat) -> (Seq<usize>, u64)
    decreases steps,
{
    if steps == 0 {
        (natural_order(n), first_state(seed))
    } else {
        let before = shuffle(seed, n, (steps - 1) as nat);
        let drawn = next_state(before.1);
        let i = steps - 1;
        let j = i + (drawn as nat) % ((n - i) as nat);
        (before.0.update(i, before.0[j]).update(j, before.0[i]), drawn)
    }
}

/// Some place of `order` holds the column `column`.
pub open spec fn holds_column(order: Seq<usize>, column: int) -> bool {
    exists|i: int| 0 <= i < order.len() && #[trigger] order[i] == column
}

/// `order` names every column below its length, and no other.
pub open spec fn is_arrangement(order: Seq<usize>) -> bool {
    &&& forall|i: int| 0 <= i < order.len() ==> (#[trigger] order[i]) < order.len()
    &&& forall|column: int| 0 <= column < order.len() ==> #[trigger] holds_column(order, column)
}

/// Whether the number `drawn` shows the next free cell, when `needed` cells
/// are still to be shown among the `free` ones.
pub open spec fn shows(drawn: u64, free: nat, needed: nat) -> bool {
    free > 0 && (drawn as nat) % free < needed
}

/// How far the walk over the cells has come: the state of the generator,
/// the number of cells still to be shown by a draw, and the number of cells
/// still to be decided by a draw.
pub struct Walk {
    pub state: u64,
    pub needed: nat,
    pub free: nat,
}

/// The walk after the cell in column `col` of row `row` was decided.  The
/// cell that `fixed` names for the row is shown without a draw.
pub open spec fn step(walk: Walk, fixed: Seq<usize>, row: int, col: int) -> Walk {
    if fixed[row] == col {
        walk
    } else {
        let drawn = next_state(walk.state);
        Walk {
            state: drawn,
            needed: if shows(drawn, walk.free, walk.needed) {
                (walk.needed - 1) as nat
            } else {
                walk.needed
            },
            free: (walk.free - 1) as nat,
        }
    }
}

/// The walk before the cell in column `col` of row `row` is decided, when
/// the cells are taken row by row and each row from the left.
pub open spec fn walk_before(start: Walk, fixed: Seq<usize>, row: nat, col: nat) -> Walk
    decreases row, col,
{
    if col > 0 {
        step(walk_before(start, fixed, row, (col - 1) as nat), fixed, row as int, col - 1)
    } else if row > 0 {
        walk_before(start, fixed, (row - 1) as nat, fixed.len())
    } else {
        start
    }
}

/// Whether the cell in column `col` of row `row` is shown.
pub open spec fn shown_at(start: Walk, fixed: Seq<usize>, row: nat, col: nat) -> bool {
    let walk = walk_before(start, fixed, row, col);
    fixed[row as int] == col || shows(next_state(walk.state), walk.free, walk.needed)
}

/// The mask of side `side` that hides all but `givens` cells, as `seed`
/// chooses them: one cell of every row and of every column is shown for
/// certain, in a shuffled order of the columns, and the others are drawn.
pub open spec fn selection(side: nat, givens: nat, seed: u64) -> Seq<Seq<bool>> {
    let shuffled = shuffle(seed, side, side);
    let start = Walk {
        state: shuffled.1,
        needed: (givens - side) as nat,
        free: (side * side - side) as nat,
    };
    Seq::new(
        side,
        |r: int| Seq::new(side, |c: int| !shown_at(start, shuffled.0, r as nat, c as nat)),
    )
}

/// Every line of `mask` and every column of it has a cell that is shown.
pub open spec fn shows_every_line(mask: Seq<Seq<bool>>) -> bool {
    &&& forall|r: int| 0 <= r < mask.len() ==> #[trigger] count_of(mask[r], false) > 0
    &&& forall|c: int| 0 <= c < mask.len() ==> #[trigger] count_of(columns(mask)[c], false) > 0
}

/// The number that stands for a cell when a board is digested.
pub open spec fn field_code(field: Field) -> u64 {
    match field {
        Field::Empty => 0,
        Field::X => 1,
        Field::O => 2,
    }
}

/// The digest `start` after the cells of `line` went into it, one by one.
pub open spec fn line_digest(line: Seq<Field>, start: u64) -> u64
    decreases line.len(),
{
    if line.len() == 0 {
        start
    } else {
        next_state(line_digest(line.drop_last(), start) ^ field_code(line.last()))
    }
}

/// The digest `start` after the rows of `grid` went into it, one by one.
pub open spec fn rows_digest(grid: Seq<Seq<Field>>, start: u64) -> u64
    decreases grid.len(),
{
    if grid.len() == 0 {
        start
    } else {
        line_digest(grid.last(), rows_digest(grid.drop_last(), start))
    }
}

/// A number that depends on every cell of `grid`.
pub open spec fn grid_digest(grid: Seq<Seq<Field>>) -> u64 {
    rows_digest(grid, FIRST_STATE)
}

/// The state in which the generator starts for `seed`.
pub fn start_state(seed: u64) -> (state: u64)
    ensures
        state == first_state(seed),
{
    if seed == FIRST_STATE {
        FIRST_STATE
    } else {
        seed ^ FIRST_STATE
    }
}

/// The state that follows `state`.
pub fn advance(state: u64) -> (next: u64)
    ensures
        next == next_state(state),
{
    let a = state ^ (state << 13);
    let b = a ^ (a >> 7);
    b ^ (b << 17)
}

/// A number that depends on every cell of the board: boards that differ in
/// one cell rarely share it.
pub fn board_digest(board: &Board) -> (digest: u64)
    requires
        board.wf(),
    ensures
        digest == grid_digest(board@),
{
    let n = board.size();
    let mut digest: u64 = FIRST_STATE;
    let mut r: usize = 0;
    while r < n
        invariant
            board.wf(),
            n == board.side(),
            r <= n,
            digest == rows_digest(board@.take(r as int), FIRST_STATE),
        decreases n - r,
    {
        let ghost before = digest;
        let mut c: usize = 0;
        while c < n
            invariant
                board.wf(),
                n == board.side(),
                r < n,
                c <= n,
                digest == line_digest(board@[r as int].take(c as int), before),
            decreases n - c,
        {
            let code: u64 = match board.get(c, r) {
                Field::Empty => 0,
                Field::X => 1,
                Field::O => 2,
            };
            assert(board@[r as int].take(c + 1).drop_last() =~= board@[r as int].take(c as int));
            digest = advance(digest ^ code);
            c += 1;
        }
        assert(board@[r as int].take(c as int) =~= board@[r as int]);
        assert(board@.take(r + 1).drop_last() =~= board@.take(r as int));
        r += 1;
    }
    assert(board@.take(r as int) =~= board@);
    digest
}

/// Exchanging places keeps an arrangement an arrangement; so every shuffle
/// of the natural order is one.
pub proof fn lemma_shuffle_arrangement(seed: u64, n: nat, steps: nat)
    requires
        steps <= n <= usize::MAX,
    ensures
        shuffle(seed, n, steps).0.len() == n,
        is_arrangement(shuffle(seed, n, steps).0),
    decreases steps,
{
    let order = shuffle(seed, n, steps).0;
    if steps == 0 {
        assert forall|column: int| 0 <= column < order.len() implies #[trigger] holds_column(
            order,
            column,
        ) by {
            assert(order[column] == column);
        }
    } else {
        lemma_shuffle_arrangement(seed, n, (steps - 1) as nat);
        let before = shuffle(seed, n, (steps - 1) as nat);
        let drawn = next_state(before.1);
        let i = steps - 1;
        let j = i + (drawn as nat) % ((n - i) as nat);
        assert(0 <= i <= j < n);
        assert(order == before.0.update(i, before.0[j]).update(j, before.0[i]));
        assert forall|column: int| 0 <= column < order.len() implies #[trigger] holds_column(
            order,
            column,
        ) by {
            assert(holds_column(before.0, column));
            let w = choose|w: int| 0 <= w < before.0.len() && #[trigger] before.0[w] == column;
            if w == i {
                assert(order[j] == column);
            } else if w == j {
                assert(order[i] == column);
            } else {
                assert(order[w] == column);
            }
        }
    }
}

/// A shuffled order of the columns `0` to `side - 1`, and the state in which
/// it leaves the generator.
pub fn shuffled_columns(side: usize, seed: u64) -> (r: (Vec<usize>, u64))
    ensures
        (r.0@, r.1) == shuffle(seed, side as nat, side as nat),
        is_arrangement(r.0@),
        r.0@.len() == side,
{
    let mut order: Vec<usize> = Vec::new();
    let mut i: usize = 0;
    while i < side
        invariant
            i <= side,
            order@.len() == i,
            forall|k: int| 0 <= k < i ==> order@[k] == k,
        decreases side - i,
    {
        order.push(i);
        i += 1;
    }
    assert(order@ =~= natural_order(side as nat));
    let mut state: u64 = start_state(seed);
    let mut i: usize = 0;
    while i < side
        invariant
            i <= side,
            order@.len() == side,
            (order@, state) == shuffle(seed, side as nat, i as nat),
        decreases side - i,
    {
        state = advance(state);
        let offset: u64 = state % ((side - i) as u64);
        let j: usize = i + offset as usize;
        let a = order[i];
        let b = order[j];
        order.set(i, b);
        order.set(j, a);
        i += 1;
    }
    proof {
        lemma_shuffle_arrangement(seed, side as nat, side as nat);
    }
    (order, state)
}

/// Chooses the cells that a puzzle of side `side` shows, `givens` of them,
/// among them one of every row and of every column.  There is no such
/// choice of fewer cells than the board has rows, nor of more than it has
/// cells, nor for a board with more cells than a `usize` can count.
pub fn choose_editable(side: usize, givens: usize, seed: u64) -> (r: Option<EditableMask>)
    ensures
        r is Some <==> side <= givens <= side * side <= usize::MAX,
        r matches Some(mask) ==> mask.wf() && mask@ == selection(side as nat, givens as nat, seed)
            && grid_count(mask@, false) == givens && shows_every_line(mask@),
{
    match side.checked_mul(side) {
        Some(total) => {
            if side <= givens && givens <= total {
                Some(draw_editable(side, givens, seed))
            } else {
                None
            }
        },
        None => None,
    }
}

/// Chooses the cells that a puzzle of side `side` shows, `givens` of them,
/// among them one of every row and of every column.
pub fn draw_editable(side: usize, givens: usize, seed: u64) -> (mask: EditableMask)
    requires
        side <= givens <= side * side <= usize::MAX,
    ensures
        mask.wf(),
        mask@ == selection(side as nat, givens as nat, seed),
        grid_count(mask@, false) == givens,
        shows_every_line(mask@),
{
    let total: usize = side * side;
    let (fixed, start_state) = shuffled_columns(side, seed);
    let ghost start = Walk {
        state: start_state,
        needed: (givens - side) as nat,
        free: (side * side - side) as nat,
    };
    let ghost chosen = selection(side as nat, givens as nat, seed);
    let mut state: u64 = start_state;
    let mut needed: usize = givens - side;
    let mut free: usize = total - side;
    let mut rows: Vec<Vec<bool>> = Vec::new();
    let mut r: usize = 0;
    assert(side * side - side == side * (side - 1)) by (nonlinear_arith);
    assert(0 * (side - 1) == 0) by (nonlinear_arith);
    while r < side
        invariant
            side <= givens <= side * side <= usize::MAX,
            fixed@.len() == side,
            is_arrangement(fixed@),
            (fixed@, start_state) == shuffle(seed, side as nat, side as nat),
            start == (Walk {
                state: start_state,
                needed: (givens - side) as nat,
                free: (side * side - side) as nat,
            }),
            chosen == selection(side as nat, givens as nat, seed),
            r <= side,
            walk_before(start, fixed@, r as nat, 0) == (Walk {
                state,
                needed: needed as nat,
                free: free as nat,
            }),
            needed <= free,
            free + r * (side - 1) == side * (side - 1),
            rows@.len() == r,
            forall|i: int| 0 <= i < r ==> (#[trigger] rows@[i])@ == chosen[i],
            grid_count(line_views(rows@), false) + needed == givens - side + r,
        decreases side - r,
    {
        let mut line: Vec<bool> = Vec::new();
        let mut c: usize = 0;
        let at: usize = fixed[r];
        assert((r + 1) * (side - 1) == r * (side - 1) + (side - 1)) by (nonlinear_arith);
        assert((r + 1) * (side - 1) <= side * (side - 1)) by (nonlinear_arith)
            requires
                r + 1 <= side,
                1 <= side,
        ;
        while c < side
            invariant
                side <= givens <= side * side <= usize::MAX,
                fixed@.len() == side,
                start == (Walk {
                    state: start_state,
                    needed: (givens - side) as nat,
                    free: (side * side - side) as nat,
                }),
                (fixed@, start_state) == shuffle(seed, side as nat, side as nat),
                chosen == selection(side as nat, givens as nat, seed),
                r < side,
                c <= side,
                at == fixed@[r as int],
                at < side,
                walk_before(start, fixed@, r as nat, c as nat) == (Walk {
                    state,
                    needed: needed as nat,
                    free: free as nat,
                }),
                needed <= free,
                (r + 1) * (side - 1) == r * (side - 1) + (side - 1),
                (r + 1) * (side - 1) <= side * (side - 1),
                free + r * (side - 1) + c - (if at < c {
                    1int
                } else {
                    0int
                }) == side * (side - 1),
                line@.len() == c,
                forall|j: int|
                    0 <= j < c ==> line@[j] == !shown_at(start, fixed@, r as nat, j as nat),
                grid_count(line_views(rows@), false) + count_of(line@, false) + needed == givens
                    - side + r + (if at < c {
                    1int
                } else {
                    0int
                }),
            decreases side - c,
        {
            let ghost before = walk_before(start, fixed@, r as nat, c as nat);
            let show: bool;
            if c == at {
                show = true;
            } else {
                state = advance(state);
                show = state % (free as u64) < needed as u64;
                if show {
                    needed -= 1;
                }
                free -= 1;
            }
            proof {
                assert(show == shown_at(start, fixed@, r as nat, c as nat));
                assert(walk_before(start, fixed@, r as nat, (c + 1) as nat) == step(
                    before,
                    fixed@,
                    r as int,
                    c as int,
                ));
                lemma_count_push(line@, !show, false);
            }
            line.push(!show);
            c += 1;
        }
        proof {
            assert(line@ =~= chosen[r as int]);
            lemma_grid_count_push(line_views(rows@), line@, false);
            assert(line_views(rows@).push(line@) =~= line_views(rows@.push(line)));
            assert(walk_before(start, fixed@, (r + 1) as nat, 0) == walk_before(
                start,
                fixed@,
                r as nat,
                side as nat,
            ));
        }
        rows.push(line);
        r += 1;
    }
    assert(line_views(rows@) =~= chosen);
    proof {
        lemma_selection_shows_every_line(side as nat, givens as nat, seed);
    }
    EditableMask::from_square(rows)
}

/// The chosen mask shows a cell of every row and of every column.
pub proof fn lemma_selection_shows_every_line(side: nat, givens: nat, seed: u64)
    requires
        side <= usize::MAX,
    ensures
        shows_every_line(selection(side, givens, seed)),
{
    let mask = selection(side, givens, seed);
    let fixed = shuffle(seed, side, side).0;
    lemma_shuffle_arrangement(seed, side, side);
    assert forall|r: int| 0 <= r < mask.len() implies #[trigger] count_of(mask[r], false) > 0 by {
        assert(fixed[r] < side);
        assert(!mask[r][fixed[r] as int]);
        lemma_count_present(mask[r], false, fixed[r] as int);
    }
    assert forall|c: int| 0 <= c < mask.len() implies #[trigger] count_of(columns(mask)[c], false)
        > 0 by {
        assert(holds_column(fixed, c));
        let r = choose|r: int| 0 <= r < fixed.len() && #[trigger] fixed[r] == c;
        assert(!mask[r][c]);
        assert(!columns(mask)[c][r]);
        lemma_count_present(columns(mask)[c], false, r);
    }
}

} // verus!
