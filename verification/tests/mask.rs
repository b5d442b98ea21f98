use binoxxo_game::{
    clear_editable, edit_cell, toggle_cell, Board, EditError, EditableMask, Field,
};

const X: Field = Field::X;
const O: Field = Field::O;
const E: Field = Field::Empty;

fn sample_board() -> Board {
    Board::from_rows(vec![
        vec![X, E, E, O],
        vec![E, E, X, E],
        vec![O, X, E, E],
        vec![E, E, E, E],
    ])
    .unwrap()
}

#[test]
fn mask_of_a_board_marks_its_empty_cells() {
    let board = sample_board();
    let mask = EditableMask::from_board(&board);
    assert_eq!(mask.size(), 4);
    for row in 0..4 {
        for col in 0..4 {
            assert_eq!(mask.is_editable(col, row), board.get(col, row) == E);
        }
    }
    assert!(!mask.is_editable(0, 0));
    assert!(mask.is_editable(1, 0));
    assert!(!mask.is_editable(3, 0));
    assert!(!mask.is_editable(0, 2));
    assert!(mask.is_editable(0, 3));
}

#[test]
fn nothing_outside_the_mask_is_editable() {
    let mask = EditableMask::from_board(&Board::new(4).unwrap());
    assert!(mask.is_editable(3, 3));
    assert!(!mask.is_editable(4, 0));
    assert!(!mask.is_editable(0, 4));
    assert!(!mask.is_editable(4, 4));
    assert!(!mask.is_editable(usize::MAX, usize::MAX));
}

#[test]
fn mask_counts_both_kinds_of_cells() {
    let mask = EditableMask::from_board(&sample_board());
    assert_eq!(mask.given_count(), 5);
    assert_eq!(mask.editable_count(), 11);
    let all = EditableMask::from_board(&Board::new(6).unwrap());
    assert_eq!(all.given_count(), 0);
    assert_eq!(all.editable_count(), 36);
}

#[test]
fn mask_from_rows_wants_a_square() {
    let mask = EditableMask::from_rows(vec![vec![true, false], vec![false, true]]).unwrap();
    assert!(mask.is_editable(0, 0));
    assert!(!mask.is_editable(1, 0));
    assert!(!mask.is_editable(0, 1));
    assert!(mask.is_editable(1, 1));
    assert_eq!(EditableMask::from_rows(vec![vec![true, false], vec![false]]), None);
    assert_eq!(EditableMask::from_rows(vec![vec![true, false]]), None);
    let none = EditableMask::from_rows(vec![]).unwrap();
    assert_eq!(none.size(), 0);
    assert_eq!(none.editable_count(), 0);
}

#[test]
fn mask_stays_as_it_was_made_when_the_board_changes() {
    let mut board = sample_board();
    let mask = EditableMask::from_board(&board);
    let before = mask.clone();
    board.set(1, 0, X);
    board.set(0, 0, E);
    assert_eq!(mask, before);
    assert!(mask.is_editable(1, 0));
    assert!(!mask.is_editable(0, 0));
}

#[test]
fn editing_an_editable_cell_writes_it() {
    let mut board = sample_board();
    let mask = EditableMask::from_board(&board);
    assert_eq!(edit_cell(&mut board, &mask, 1, 0, O), Ok(()));
    assert_eq!(board.get(1, 0), O);
    assert_eq!(edit_cell(&mut board, &mask, 1, 0, X), Ok(()));
    assert_eq!(board.get(1, 0), X);
    assert_eq!(edit_cell(&mut board, &mask, 1, 0, E), Ok(()));
    assert_eq!(board.get(1, 0), E);
}

#[test]
fn editing_a_given_cell_is_refused() {
    let mut board = sample_board();
    let mask = EditableMask::from_board(&board);
    let before = board.clone();
    assert_eq!(edit_cell(&mut board, &mask, 0, 0, O), Err(EditError::NotEditable));
    assert_eq!(edit_cell(&mut board, &mask, 2, 1, E), Err(EditError::NotEditable));
    assert_eq!(board, before);
}

#[test]
fn editing_outside_the_board_is_refused() {
    let mut board = sample_board();
    let mask = EditableMask::from_board(&board);
    let before = board.clone();
    assert_eq!(edit_cell(&mut board, &mask, 4, 0, O), Err(EditError::OutOfRange));
    assert_eq!(edit_cell(&mut board, &mask, 0, 4, O), Err(EditError::OutOfRange));
    assert_eq!(edit_cell(&mut board, &mask, 9, 9, O), Err(EditError::OutOfRange));
    assert_eq!(board, before);
}

#[test]
fn editing_beyond_a_smaller_mask_is_refused() {
    let mut board = Board::new(4).unwrap();
    let mask = EditableMask::from_board(&Board::new(2).unwrap());
    assert_eq!(edit_cell(&mut board, &mask, 1, 1, X), Ok(()));
    assert_eq!(edit_cell(&mut board, &mask, 2, 1, X), Err(EditError::NotEditable));
    assert_eq!(edit_cell(&mut board, &mask, 4, 1, X), Err(EditError::OutOfRange));
}

#[test]
fn clearing_empties_the_editable_cells_only() {
    let start = sample_board();
    let mask = EditableMask::from_board(&start);
    let mut board = start.clone();
    for (col, row, field) in [(1, 0, X), (2, 0, O), (3, 3, X), (0, 1, O)] {
        assert_eq!(edit_cell(&mut board, &mask, col, row, field), Ok(()));
    }
    assert_ne!(board, start);
    clear_editable(&mut board, &mask);
    assert_eq!(board, start);
    clear_editable(&mut board, &mask);
    assert_eq!(board, start);
}

#[test]
fn click_walks_through_empty_x_and_o() {
    assert_eq!(E.toggled(), X);
    assert_eq!(X.toggled(), O);
    assert_eq!(O.toggled(), E);
    let mut board = sample_board();
    let mask = EditableMask::from_board(&board);
    assert_eq!(toggle_cell(&mut board, &mask, 1, 0), Ok(()));
    assert_eq!(board.get(1, 0), X);
    assert_eq!(toggle_cell(&mut board, &mask, 1, 0), Ok(()));
    assert_eq!(board.get(1, 0), O);
    assert_eq!(toggle_cell(&mut board, &mask, 1, 0), Ok(()));
    assert_eq!(board.get(1, 0), E);
}

#[test]
fn click_on_a_given_cell_or_beside_the_board_changes_nothing() {
    let mut board = sample_board();
    let mask = EditableMask::from_board(&board);
    let before = board.clone();
    assert_eq!(toggle_cell(&mut board, &mask, 0, 0), Err(EditError::NotEditable));
    assert_eq!(toggle_cell(&mut board, &mask, 3, 0), Err(EditError::NotEditable));
    assert_eq!(toggle_cell(&mut board, &mask, 4, 0), Err(EditError::OutOfRange));
    assert_eq!(toggle_cell(&mut board, &mask, 0, 7), Err(EditError::OutOfRange));
    assert_eq!(board, before);
}
