use binoxxo_game::Difficulty;

#[test]
fn levels_have_sides_six_eight_and_ten() {
    assert_eq!(Difficulty::Easy.board_size(), 6);
    assert_eq!(Difficulty::Medium.board_size(), 8);
    assert_eq!(Difficulty::Hard.board_size(), 10);
}

#[test]
fn harder_levels_show_fewer_cells() {
    assert_eq!(Difficulty::Easy.given_count(), 24);
    assert_eq!(Difficulty::Medium.given_count(), 20);
    assert_eq!(Difficulty::Hard.given_count(), 16);
    for level in [Difficulty::Easy, Difficulty::Medium, Difficulty::Hard] {
        let side = level.board_size();
        assert_eq!(side % 2, 0);
        assert!(level.given_count() >= side);
        assert!(level.given_count() < side * side);
    }
}

#[test]
fn levels_have_names() {
    assert_eq!(Difficulty::Easy.name(), "Easy");
    assert_eq!(Difficulty::Medium.name(), "Medium");
    assert_eq!(Difficulty::Hard.name(), "Hard");
    assert_eq!(format!("difficulty-{}", Difficulty::Hard.name()), "difficulty-Hard");
}
