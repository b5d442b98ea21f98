use binoxxo_game::generator::MAX_ATTEMPTS;
use binoxxo_game::select::board_digest;
use binoxxo_game::{
    edit_cell, generate, generate_puzzle, generate_within, is_board_full, is_board_valid,
    puzzle_from_solution, Board, Difficulty, EditableMask, Field, GenerateError,
};

const LEVELS: [Difficulty; 3] = [Difficulty::Easy, Difficulty::Medium, Difficulty::Hard];

fn board_of(text: &str) -> Board {
    let rows: Vec<Vec<Field>> = text
        .split_whitespace()
        .map(|line| {
            line.chars()
                .map(|cell| match cell {
                    'X' => Field::X,
                    'O' => Field::O,
                    _ => Field::Empty,
                })
                .collect()
        })
        .collect();
    Board::from_rows(rows).unwrap()
}

fn solved_six() -> Board {
    board_of(
        "OXOOXX
         XXOXOO
         OOXOXX
         OXOXOX
         XOXOXO
         XOXXOO",
    )
}

fn solved_eight() -> Board {
    board_of(
        "XOXOOXOX
         OOXXOOXX
         XXOOXXOO
         OXOOXOXX
         XOXXOXOO
         OXXOXXOO
         OXOXOOXX
         XOOXXOXO",
    )
}

fn solved_ten() -> Board {
    board_of(
        "XXOXOOXXOO
         XOOXOXXOOX
         OOXOXXOXXO
         OXOXXOOXXO
         XOXOOXXOOX
         XOXXOOXOXO
         OXOOXXOXOX
         OXOXOOXOXX
         XOXOXXOOXO
         OXXOXOOXOX",
    )
}

fn filled_cells(board: &Board) -> usize {
    let size = board.size();
    (0..size)
        .map(|row| (0..size).filter(|col| board.get(*col, row) != Field::Empty).count())
        .sum()
}

#[test]
fn generated_board_is_valid_and_shows_the_asked_cells() {
    for level in LEVELS {
        for _ in 0..5 {
            let (board, mask) = generate(level).unwrap();
            assert_eq!(board.size(), level.board_size());
            assert_eq!(mask.size(), level.board_size());
            assert!(is_board_valid(&board));
            assert!(!is_board_full(&board));
            assert_eq!(filled_cells(&board), level.given_count());
            assert_eq!(mask.given_count(), level.given_count());
        }
    }
}

#[test]
fn generated_mask_is_the_complement_of_the_given_cells() {
    for level in LEVELS {
        let (board, mask) = generate(level).unwrap();
        let size = board.size();
        assert_eq!(mask, EditableMask::from_board(&board));
        for row in 0..size {
            for col in 0..size {
                assert_eq!(mask.is_editable(col, row), board.get(col, row) == Field::Empty);
            }
        }
        assert!(mask.editable_count() > 0);
        assert!(mask.editable_count() < size * size);
        assert_eq!(mask.editable_count() + mask.given_count(), size * size);
    }
}

#[test]
fn generated_board_shows_a_cell_of_every_row_and_column() {
    for level in LEVELS {
        for _ in 0..5 {
            let (board, _) = generate(level).unwrap();
            let size = board.size();
            for line in 0..size {
                assert!((0..size).any(|col| board.get(col, line) != Field::Empty));
                assert!((0..size).any(|row| board.get(line, row) != Field::Empty));
            }
        }
    }
}

#[test]
fn generated_solution_is_full_and_valid() {
    for level in LEVELS {
        let puzzle = generate_puzzle(level).unwrap();
        assert_eq!(puzzle.solution.size(), level.board_size());
        assert!(is_board_full(&puzzle.solution));
        assert!(is_board_valid(&puzzle.solution));
        let size = puzzle.board.size();
        for row in 0..size {
            for col in 0..size {
                let shown = puzzle.board.get(col, row);
                if puzzle.editable.is_editable(col, row) {
                    assert_eq!(shown, Field::Empty);
                } else {
                    assert_eq!(shown, puzzle.solution.get(col, row));
                }
            }
        }
    }
}

#[test]
fn writing_the_solution_back_wins_the_game() {
    for level in LEVELS {
        let puzzle = generate_puzzle(level).unwrap();
        let mut board = puzzle.board.clone();
        let size = board.size();
        for row in 0..size {
            for col in 0..size {
                if puzzle.editable.is_editable(col, row) {
                    board.set(col, row, puzzle.solution.get(col, row));
                }
            }
        }
        assert!(is_board_full(&board));
        assert!(is_board_valid(&board));
        assert_eq!(board, puzzle.solution);
    }
}

#[test]
fn writing_the_solution_back_through_the_mask_wins_the_game() {
    let puzzle = generate_puzzle(Difficulty::Easy).unwrap();
    let mut board = puzzle.board.clone();
    for row in 0..6 {
        for col in 0..6 {
            let field = puzzle.solution.get(col, row);
            let done = edit_cell(&mut board, &puzzle.editable, col, row, field);
            assert_eq!(done.is_ok(), puzzle.editable.is_editable(col, row));
        }
    }
    assert!(is_board_full(&board) && is_board_valid(&board));
}

#[test]
fn generated_puzzle_is_the_one_that_its_solution_chooses() {
    for level in LEVELS {
        let puzzle = generate_puzzle(level).unwrap();
        let seed = board_digest(&puzzle.solution);
        let again = puzzle_from_solution(puzzle.solution.clone(), level, seed).unwrap();
        assert_eq!(again, puzzle);
    }
}

#[test]
fn generated_puzzles_differ() {
    let first = generate_puzzle(Difficulty::Hard).unwrap();
    let differs = (0..MAX_ATTEMPTS + 4)
        .any(|_| generate_puzzle(Difficulty::Hard).unwrap().solution != first.solution);
    assert!(differs);
}

#[test]
fn puzzle_from_a_solution_hides_the_chosen_cells() {
    let puzzle = puzzle_from_solution(solved_six(), Difficulty::Easy, 5).unwrap();
    assert_eq!(puzzle.solution, solved_six());
    assert_eq!(
        puzzle.board,
        board_of(
            "OXOOXX
             XX_XOO
             OO_OXX
             O_O_OX
             ___O_O
             X_X___"
        )
    );
    assert_eq!(puzzle.editable, EditableMask::from_board(&puzzle.board));
    assert_eq!(puzzle.editable.given_count(), 24);
}

#[test]
fn puzzle_from_a_solution_and_its_digest() {
    let seed = board_digest(&solved_six());
    assert_eq!(seed, 0x1031_5ec2_0ec8_fa80);
    let puzzle = puzzle_from_solution(solved_six(), Difficulty::Easy, seed).unwrap();
    assert_eq!(
        puzzle.board,
        board_of(
            "O_OOXX
             __OX_O
             ___OXX
             O_OXOX
             _O_OXO
             _OXX_O"
        )
    );
}

#[test]
fn puzzle_from_a_solution_for_every_level() {
    let solved = [
        (Difficulty::Easy, solved_six()),
        (Difficulty::Medium, solved_eight()),
        (Difficulty::Hard, solved_ten()),
    ];
    for (level, solution) in solved {
        for seed in 0..20u64 {
            let puzzle = puzzle_from_solution(solution.clone(), level, seed).unwrap();
            assert!(is_board_valid(&puzzle.board));
            assert_eq!(filled_cells(&puzzle.board), level.given_count());
            assert_eq!(puzzle.editable, EditableMask::from_board(&puzzle.board));
            assert_eq!(puzzle.solution, solution);
        }
    }
}

#[test]
fn puzzle_wants_a_solution_of_the_side_of_the_level() {
    assert_eq!(
        puzzle_from_solution(solved_six(), Difficulty::Medium, 1),
        Err(GenerateError::WrongSize)
    );
    assert_eq!(
        puzzle_from_solution(solved_eight(), Difficulty::Easy, 1),
        Err(GenerateError::WrongSize)
    );
    assert_eq!(
        puzzle_from_solution(Board::new(4).unwrap(), Difficulty::Hard, 1),
        Err(GenerateError::WrongSize)
    );
}

#[test]
fn puzzle_wants_a_full_and_valid_solution() {
    assert_eq!(
        puzzle_from_solution(Board::new(6).unwrap(), Difficulty::Easy, 1),
        Err(GenerateError::NotSolved)
    );
    let mut open = solved_six();
    open.set(3, 3, Field::Empty);
    assert_eq!(puzzle_from_solution(open, Difficulty::Easy, 1), Err(GenerateError::NotSolved));
    let mut broken = solved_six();
    broken.set(0, 0, Field::X);
    assert_eq!(puzzle_from_solution(broken, Difficulty::Easy, 1), Err(GenerateError::NotSolved));
}

#[test]
fn no_attempt_gives_no_puzzle() {
    for level in LEVELS {
        assert_eq!(generate_within(level, 7, 0), Err(GenerateError::Exhausted));
    }
}

#[test]
fn a_seed_and_a_few_attempts_give_a_puzzle() {
    for level in LEVELS {
        let puzzle = generate_within(level, 7, MAX_ATTEMPTS).unwrap();
        assert!(is_board_full(&puzzle.solution) && is_board_valid(&puzzle.solution));
        assert_eq!(puzzle.editable.given_count(), level.given_count());
    }
}
