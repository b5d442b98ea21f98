//! Where a game stands: still open, won, or lost.

use crate::board::Board;
use crate::rules::{board_full, board_valid, is_board_full, is_board_valid};
use vstd::prelude::*;

verus! {

/// What the two checks say of a board.  It is computed when asked for and
/// never stored with the board.
#[derive(Clone, Copy, Debug, PartialEq, Eq, Structural)]
pub struct ValidityResult {
    /// No cell is empty.
    pub is_full: bool,
    /// No rule is broken.
    pub is_valid: bool,
}

/// Where a game stands.
#[derive(Clone, Copy, Debug, PartialEq, Eq, Structural)]
pub enum GameState {
    /// Some cell is still empty.
    InProgress,
    /// The board is full and breaks no rule.
    Won,
    /// The board is full and breaks a rule.
    Failed,
}

impl ValidityResult {
    /// Where a game with these two answers stands.
    pub open spec fn state(self) -> GameState {
        if !self.is_full {
            GameState::InProgress
        } else if self.is_valid {
            GameState::Won
        } else {
            GameState::Failed
        }
    }

    /// Where a game with these two answers stands.
    pub fn game_state(self) -> (s: GameState)
        ensures
            s == self.state(),
    {
        if !self.is_full {
            GameState::InProgress
        } else if self.is_valid {
            GameState::Won
        } else {
            GameState::Failed
        }
    }

    /// Whether the player has won: the board is full and breaks no rule.
    pub fn is_won(self) -> (r: bool)
        ensures
            r == (self.is_full && self.is_valid),
            r == (self.state() == GameState::Won),
    {
        self.is_full && self.is_valid
    }

    /// Whether the player has failed: the board is full and breaks a rule.
    pub fn is_failed(self) -> (r: bool)
        ensures
            r == (self.is_full && !self.is_valid),
            r == (self.state() == GameState::Failed),
    {
        self.is_full && !self.is_valid
    }
}

/// Runs both checks on the board.
pub fn check_board(board: &Board) -> (r: ValidityResult)
    requires
        board.wf(),
    ensures
        r.is_full == board_full(board@),
        r.is_valid == board_valid(board@),
{
    ValidityResult { is_full: is_board_full(board), is_valid: is_board_valid(board) }
}

} // verus!
