use vstd::prelude::*;

verus! {

/// The state of one grid cell: dead or alive.
///
/// Neighbor counting relies on a live cell counting as `1` and a dead cell as
/// `0`; that numeric reading is given by [`cell_value`].
#[derive(Clone, Copy, Debug, PartialEq, Eq, Structural)]
pub enum Cell {
    Dead,
    Alive,
}

/// The numeric value a cell contributes to a neighbor count: alive is 1,
/// dead is 0.
pub open spec fn cell_value(c: Cell) -> int {
    match c {
        Cell::Dead => 0,
        Cell::Alive => 1,
    }
}

/// The opposite state: alive becomes dead and dead becomes alive.
pub open spec fn flipped(c: Cell) -> Cell {
    match c {
        Cell::Dead => Cell::Alive,
        Cell::Alive => Cell::Dead,
    }
}

impl Cell {
    /// Flips this cell in place between `Alive` and `Dead`.
    pub fn toggle(&mut self)
        ensures
            *final(self) == flipped(*old(self)),
    {
        *self = match *self {
            Cell::Alive => Cell::Dead,
            Cell::Dead => Cell::Alive,
        };
    }
}

} // verus!
