use vstd::prelude::*;

verus! {

/// One square of the grid.
#[derive(Debug, Clone, Copy, PartialEq, Eq, Structural)]
pub enum Cell {
    Alive,
    Dead,
}

impl Cell {
    pub open spec fn alive(self) -> bool {
        self is Alive
    }

    pub fn is_alive(&self) -> (alive: bool)
        ensures
            alive == self.alive(),
    {
        *self == Cell::Alive
    }

    /// What `flip` makes of a cell.
    pub open spec fn flipped(self) -> Cell {
        if self.alive() {
            Cell::Dead
        } else {
            Cell::Alive
        }
    }
}

pub open spec fn cell_of(value: bool) -> Cell {
    if value {
        Cell::Alive
    } else {
        Cell::Dead
    }
}

impl From<bool> for Cell {
    fn from(value: bool) -> (cell: Self) {
        if value {
            Cell::Alive
        } else {
            Cell::Dead
        }
    }
}

impl vstd::std_specs::convert::FromSpecImpl<bool> for Cell {
    open spec fn obeys_from_spec() -> bool {
        true
    }

    open spec fn from_spec(value: bool) -> Self {
        cell_of(value)
    }
}

} // verus!
