//! The two states of a grid cell.

use vstd::prelude::*;

verus! {

/// Whether a grid cell holds life.
#[derive(Clone, Copy, Debug, PartialEq, Eq, Structural)]
pub enum CellState {
    Alive,
    Dead,
}

/// The record that the board keeps for a cell.
#[derive(Clone, Copy, Debug, PartialEq, Eq, Structural)]
pub struct Cell {
    pub state: CellState,
}

/// The character that stands for a cell of the given state in a text frame.
pub open spec fn glyph(state: CellState) -> char {
    match state {
        CellState::Alive => '█',
        CellState::Dead => ' ',
    }
}

impl Cell {
    /// The cell as text: a full block when alive, a blank when dead.
    pub fn text(&self) -> (s: &'static str)
        ensures
            s@ == seq![glyph(self.state)],
    {
        match self.state {
            CellState::Alive => {
                proof {
                    reveal_strlit("█");
                }
                "█"
            },
            CellState::Dead => {
                proof {
                    reveal_strlit(" ");
                }
                " "
            },
        }
    }
}

} // verus!
