//! The food that the snake grows by eating.
use vstd::prelude::*;

use crate::cell::Cell;

verus! {

/// A single target cell.
#[derive(Clone, Copy, Debug, PartialEq, Eq, Structural)]
pub struct Food {
    pub cell: Cell,
}

impl Food {
    /// Food in the grid's corner, at (0, 0).
    pub fn new() -> (f: Food)
        ensures
            f.cell == (Cell { x: 0, y: 0 }),
    {
        Food { cell: Cell::new(0, 0) }
    }
}

} // verus!
