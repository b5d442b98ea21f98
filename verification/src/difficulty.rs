//! The three levels of difficulty and what each asks of a puzzle.

use vstd::prelude::*;

verus! {

/// How hard a puzzle is meant to be.  A harder puzzle is larger and shows
/// fewer of its cells.
#[derive(Clone, Copy, Debug, PartialEq, Eq, Hash, Structural)]
pub enum Difficulty {
    Easy,
    Medium,
    Hard,
}

impl Difficulty {
    /// The side of the board of a puzzle of this difficulty.
    pub open spec fn side(self) -> nat {
        match self {
            Difficulty::Easy => 6,
            Difficulty::Medium => 8,
            Difficulty::Hard => 10,
        }
    }

    /// How many cells a puzzle of this difficulty shows.
    pub open spec fn givens(self) -> nat {
        match self {
            Difficulty::Easy => 24,
            Difficulty::Medium => 20,
            Difficulty::Hard => 16,
        }
    }

    /// The side of the board of a puzzle of this difficulty: 6, 8 or 10.
    pub fn board_size(self) -> (n: usize)
        ensures
            n == self.side(),
    {
        match self {
            Difficulty::Easy => 6,
            Difficulty::Medium => 8,
            Difficulty::Hard => 10,
        }
    }

    /// How many cells a puzzle of this difficulty shows: 24, 20 or 16.
    pub fn given_count(self) -> (n: usize)
        ensures
            n == self.givens(),
    {
        match self {
            Difficulty::Easy => 24,
            Difficulty::Medium => 20,
            Difficulty::Hard => 16,
        }
    }

    /// The name of the level, as it is written in message keys.
    pub fn name(self) -> (s: &'static str)
        ensures
            s@ == match self {
                Difficulty::Easy => "Easy"@,
                Difficulty::Medium => "Medium"@,
                Difficulty::Hard => "Hard"@,
            },
    {
        match self {
            Difficulty::Easy => "Easy",
            Difficulty::Medium => "Medium",
            Difficulty::Hard => "Hard",
        }
    }
}

/// Every level asks for an even side, shows at least one cell of each row
/// and hides at least one cell of the board; and the harder the level, the
/// fewer cells it shows.
pub proof fn lemma_difficulty_levels(level: Difficulty)
    ensures
        level.side() % 2 == 0,
        level.side() <= level.givens() < level.side() * level.side(),
        Difficulty::Easy.givens() > Difficulty::Medium.givens() > Difficulty::Hard.givens(),
{
}

} // verus!
