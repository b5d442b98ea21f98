use binoxxo_game::select::{advance, board_digest, choose_editable, shuffled_columns, FIRST_STATE};
use binoxxo_game::{Board, EditableMask, Field};

fn mask_of(text: &str) -> EditableMask {
    let rows: Vec<Vec<bool>> = text
        .split_whitespace()
        .map(|line| line.chars().map(|cell| cell == 'e').collect())
        .collect();
    EditableMask::from_rows(rows).unwrap()
}

fn board_of(text: &str) -> Board {
    let rows: Vec<Vec<Field>> = text
        .split_whitespace()
        .map(|line| {
            line.chars()
                .map(|cell| match cell {
                    'X' => Field::X,
                    'O' => Field::O,
                    _ => Field::Empty,
                })
                .collect()
        })
        .collect();
    Board::from_rows(rows).unwrap()
}

#[test]
fn generator_steps_as_xorshift_does() {
    assert_eq!(advance(1), 0x4082_2041);
    assert_eq!(advance(0x4082_2041), 0x1000_4106_0c01_1441);
    assert_eq!(advance(FIRST_STATE), 0xdc1b_77ae_0bf3_4dad);
    assert_eq!(advance(0), 0);
}

#[test]
fn shuffle_is_fixed_by_the_seed() {
    assert_eq!(shuffled_columns(4, 42), (vec![3, 1, 2, 0], 1757685826869934364));
    assert_eq!(shuffled_columns(6, 0), (vec![3, 5, 4, 0, 2, 1], 10885233071271705465));
    assert_eq!(shuffled_columns(0, 5).0, Vec::<usize>::new());
    assert_eq!(shuffled_columns(1, 5).0, vec![0]);
}

#[test]
fn shuffle_names_every_column_once() {
    for side in [2usize, 6, 8, 10] {
        for seed in 0..50u64 {
            let (mut order, _) = shuffled_columns(side, seed);
            order.sort();
            assert_eq!(order, (0..side).collect::<Vec<usize>>());
        }
    }
}

#[test]
fn choice_is_fixed_by_the_seed() {
    assert_eq!(
        choose_editable(4, 6, 42),
        Some(mask_of(
            "egeg
             egee
             eege
             gege"
        ))
    );
    assert_eq!(
        choose_editable(6, 24, 7),
        Some(mask_of(
            "eeeggg
             gegggg
             geggge
             geegeg
             gggegg
             geggge"
        ))
    );
    assert_eq!(
        choose_editable(2, 2, 1),
        Some(mask_of(
            "ge
             eg"
        ))
    );
    assert_eq!(choose_editable(4, 6, 42), choose_editable(4, 6, 42));
    assert_ne!(choose_editable(4, 6, 42), choose_editable(4, 6, 43));
}

#[test]
fn choice_shows_the_asked_number_of_cells() {
    for (side, givens) in [(6usize, 24usize), (8, 20), (10, 16), (4, 4), (4, 16), (2, 3)] {
        for seed in 0..40u64 {
            let mask = choose_editable(side, givens, seed).unwrap();
            assert_eq!(mask.size(), side);
            assert_eq!(mask.given_count(), givens);
            assert_eq!(mask.editable_count(), side * side - givens);
        }
    }
}

#[test]
fn choice_shows_a_cell_of_every_row_and_column() {
    for (side, givens) in [(6usize, 24usize), (8, 20), (10, 16), (10, 10), (4, 4)] {
        for seed in 0..40u64 {
            let mask = choose_editable(side, givens, seed).unwrap();
            for line in 0..side {
                assert!((0..side).any(|col| !mask.is_editable(col, line)));
                assert!((0..side).any(|row| !mask.is_editable(line, row)));
            }
        }
    }
}

#[test]
fn choice_of_every_cell_and_of_one_per_row() {
    let all = choose_editable(4, 16, 9).unwrap();
    assert_eq!(all.editable_count(), 0);
    let few = choose_editable(4, 4, 9).unwrap();
    for row in 0..4 {
        assert_eq!((0..4).filter(|col| !few.is_editable(*col, row)).count(), 1);
    }
    for col in 0..4 {
        assert_eq!((0..4).filter(|row| !few.is_editable(col, *row)).count(), 1);
    }
}

#[test]
fn no_choice_of_too_few_or_too_many_cells() {
    assert_eq!(choose_editable(4, 3, 1), None);
    assert_eq!(choose_editable(4, 0, 1), None);
    assert_eq!(choose_editable(4, 17, 1), None);
    assert_eq!(choose_editable(10, 9, 1), None);
    assert!(choose_editable(4, 4, 1).is_some());
    assert!(choose_editable(4, 16, 1).is_some());
    assert_eq!(choose_editable(0, 0, 1).map(|mask| mask.size()), Some(0));
}

#[test]
fn digest_depends_on_the_cells() {
    let board = board_of(
        "XOXO
         OXOX
         XXOO
         OOXX",
    );
    assert_eq!(board_digest(&board), 0xe5c2_1a4c_db1c_1aa0);
    assert_eq!(board_digest(&Board::new(2).unwrap()), 0x305f_050c_368d_cc74);
    let other = board_of(
        "XOXO
         OXOX
         XXOO
         OOX_",
    );
    assert_ne!(board_digest(&board), board_digest(&other));
    assert_eq!(board_digest(&board), board_digest(&board.clone()));
}
