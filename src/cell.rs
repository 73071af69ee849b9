//! Cells of the toroidal grid.
use vstd::prelude::*;

use crate::direction::{step, Direction};

verus! {

/// Number of columns of the grid.
pub const GRID_WIDTH: u8 = 5;

/// Number of rows of the grid.
pub const GRID_HEIGHT: u8 = 5;

/// Floored remainder of `a` by a positive `m`: always in `[0, m)`.
pub open spec fn wrap(a: int, m: int) -> int {
    a % m
}

/// A cell of the grid. Every cell that this library builds lies on the grid.
#[derive(Clone, Copy, Debug, PartialEq, Eq, Structural)]
pub struct Cell {
    pub x: u8,
    pub y: u8,
}

/// The cell that the signed position `(x, y)` stands for on the torus.
pub open spec fn cell_at(x: int, y: int) -> Cell {
    Cell { x: wrap(x, GRID_WIDTH as int) as u8, y: wrap(y, GRID_HEIGHT as int) as u8 }
}

impl Cell {
    /// The cell lies on the grid.
    pub open spec fn wf(self) -> bool {
        self.x < GRID_WIDTH && self.y < GRID_HEIGHT
    }

    /// The cell at `(x, y)`, each coordinate reduced modulo the grid's size, so
    /// that a negative offset wraps to the opposite edge.
    pub fn new(x: i8, y: i8) -> (c: Cell)
        ensures
            c == cell_at(x as int, y as int),
            c.wf(),
    {
        // 130 is a multiple of both dimensions and makes every i8 non-negative.
        let xs: u16 = (x as i16 + 130) as u16;
        let ys: u16 = (y as i16 + 130) as u16;
        let cx: u16 = xs % (GRID_WIDTH as u16);
        let cy: u16 = ys % (GRID_HEIGHT as u16);
        proof {
            lemma_shift_mod(x as int, 26, GRID_WIDTH as int);
            lemma_shift_mod(y as int, 26, GRID_HEIGHT as int);
        }
        Cell { x: cx as u8, y: cy as u8 }
    }

    /// The neighbouring cell one step in `direction`, wrapping at the edges.
    pub fn with_direction(self, direction: Direction) -> (c: Cell)
        requires
            self.wf(),
        ensures
            c == cell_at(self.x + step(direction).0, self.y + step(direction).1),
            c.wf(),
    {
        let x: i8 = self.x as i8;
        let y: i8 = self.y as i8;
        match direction {
            Direction::North => Cell::new(x, y - 1),
            Direction::South => Cell::new(x, y + 1),
            Direction::East => Cell::new(x + 1, y),
            Direction::West => Cell::new(x - 1, y),
        }
    }
}

/// Every signed position lands on the grid, and shifting it by a whole number
/// of grid sizes gives the same cell.
pub proof fn lemma_cell_at_periodic(x: int, y: int, k: int)
    ensures
        cell_at(x, y).wf(),
        cell_at(x, y) == cell_at(x + k * GRID_WIDTH, y + k * GRID_HEIGHT),
{
    lemma_shift_mod(x, k, GRID_WIDTH as int);
    lemma_shift_mod(y, k, GRID_HEIGHT as int);
}

/// Adding a multiple of `m` leaves the remainder unchanged.
pub proof fn lemma_shift_mod(a: int, k: int, m: int)
    requires
        m > 0,
    ensures
        (a + k * m) % m == a % m,
        0 <= a % m < m,
{
    assert(a + k * m == m * k + a) by (nonlinear_arith);
    vstd::arithmetic::div_mod::lemma_mod_multiples_vanish(k, a, m);
    vstd::arithmetic::div_mod::lemma_mod_bound(a, m);
}

} // verus!
