//! The glider, a pattern of five cells that travels over the board.

use vstd::prelude::*;

use crate::board::Board;
use crate::cell::Cell;

verus! {

/// The way a glider travels.
#[derive(Debug, Clone, Copy, PartialEq, Eq, Structural)]
pub enum Heading {
    SouthEast,
    SouthWest,
    NorthEast,
    NorthWest,
}

impl Heading {
    pub open spec fn westward(self) -> bool {
        self is SouthWest || self is NorthWest
    }

    pub open spec fn northward(self) -> bool {
        self is NorthEast || self is NorthWest
    }

    /// The heading that one of four numbers stands for.
    pub fn from_index(index: u8) -> (heading: Heading)
        ensures
            heading == Self::spec_from_index(index),
    {
        match index % 4 {
            0 => Heading::SouthEast,
            1 => Heading::SouthWest,
            2 => Heading::NorthEast,
            _ => Heading::NorthWest,
        }
    }

    pub open spec fn spec_from_index(index: u8) -> Heading {
        match index % 4 {
            0 => Heading::SouthEast,
            1 => Heading::SouthWest,
            2 => Heading::NorthEast,
            _ => Heading::NorthWest,
        }
    }
}

impl Board {
    /// The board with one cell of a glider alive: the one `dx` columns and
    /// `dy` rows from the first of its three by three square, the square being
    /// mirrored as the heading asks.
    pub open spec fn with_glider_cell(
        self,
        x: int,
        y: int,
        dx: int,
        dy: int,
        heading: Heading,
    ) -> Board {
        self.put(
            x + (if heading.westward() { 2 - dx } else { dx }),
            y + (if heading.northward() { 2 - dy } else { dy }),
            Cell::Alive,
        )
    }

    /// The board with a glider in the square that starts at `(x, y)`.
    pub open spec fn with_glider(self, x: int, y: int, heading: Heading) -> Board {
        self.with_glider_cell(x, y, 0, 0, heading)
            .with_glider_cell(x, y, 1, 1, heading)
            .with_glider_cell(x, y, 2, 1, heading)
            .with_glider_cell(x, y, 0, 2, heading)
            .with_glider_cell(x, y, 1, 2, heading)
    }
}

} // verus!
