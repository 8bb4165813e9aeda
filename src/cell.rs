//! The two states a position of the board can be in, and the rule that
//! decides a position's next state.
use vstd::prelude::*;

verus! {

/// The state of one position of the board.
#[derive(Clone, Copy, Debug, PartialEq, Eq, Structural)]
pub enum Cell {
    Dead,
    Alive,
}

impl Cell {
    /// The other state.
    pub open spec fn flipped(self) -> Cell {
        match self {
            Cell::Dead => Cell::Alive,
            Cell::Alive => Cell::Dead,
        }
    }

    /// 1 for a live cell, 0 for a dead one.
    pub open spec fn weight(self) -> nat {
        match self {
            Cell::Dead => 0,
            Cell::Alive => 1,
        }
    }

    /// Flips the cell between `Dead` and `Alive`.
    pub fn toggle(&mut self)
        ensures
            *final(self) == old(self).flipped(),
    {
        *self = match *self {
            Cell::Dead => Cell::Alive,
            Cell::Alive => Cell::Dead,
        };
    }

    /// 1 for a live cell, 0 for a dead one.
    pub fn as_u8(self) -> (r: u8)
        ensures
            r as nat == self.weight(),
    {
        match self {
            Cell::Dead => 0,
            Cell::Alive => 1,
        }
    }
}

/// The state that a cell in state `cell` with `live_neighbors` live
/// neighbours takes in the next generation.
pub open spec fn next_state(cell: Cell, live_neighbors: nat) -> Cell {
    match cell {
        Cell::Alive => if live_neighbors == 2 || live_neighbors == 3 {
            Cell::Alive
        } else {
            Cell::Dead
        },
        Cell::Dead => if live_neighbors == 3 {
            Cell::Alive
        } else {
            Cell::Dead
        },
    }
}

/// Applies the birth and survival rule to one cell.
pub fn next_cell(cell: Cell, live_neighbors: u8) -> (r: Cell)
    ensures
        r == next_state(cell, live_neighbors as nat),
{
    match cell {
        Cell::Alive => {
            if live_neighbors < 2 {
                // underpopulation
                Cell::Dead
            } else if live_neighbors == 2 || live_neighbors == 3 {
                Cell::Alive
            } else {
                // overpopulation
                Cell::Dead
            }
        },
        Cell::Dead => {
            if live_neighbors == 3 {
                // reproduction
                Cell::Alive
            } else {
                Cell::Dead
            }
        },
    }
}

/// Flipping a cell twice gives back the cell.
pub proof fn lemma_flip_twice(c: Cell)
    ensures
        c.flipped().flipped() == c,
{
}

} // verus!
