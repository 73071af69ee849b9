//! On/off pixel grids, one per rendered frame.
use vstd::prelude::*;

use crate::cell::{Cell, GRID_HEIGHT, GRID_WIDTH};

verus! {

/// A grid of pixels, row by row: `data[y][x]` is 1 where the pixel is on and
/// 0 where it is off.
#[derive(Clone, Copy, Debug)]
pub struct Pixels {
    pub data: [[u8; 5]; 5],
}

/// The value of a pixel: 1 if it is on, 0 if it is off.
pub open spec fn on_off(on: bool) -> u8 {
    if on {
        1
    } else {
        0
    }
}

impl Pixels {
    /// The value at column `x` of row `y`.
    pub open spec fn at(self, x: int, y: int) -> u8 {
        self.data@[y]@[x]
    }

    /// Exactly the cells of `cells` are on.
    pub open spec fn shows(self, cells: Set<Cell>) -> bool {
        forall|x: int, y: int|
            0 <= x < GRID_WIDTH && 0 <= y < GRID_HEIGHT ==> #[trigger] self.at(x, y) == on_off(
                cells.contains(Cell { x: x as u8, y: y as u8 }),
            )
    }

    /// A grid with every pixel off.
    pub fn new() -> (p: Pixels)
        ensures
            p.shows(Set::empty()),
    {
        Pixels::with_array([
            [0, 0, 0, 0, 0],
            [0, 0, 0, 0, 0],
            [0, 0, 0, 0, 0],
            [0, 0, 0, 0, 0],
            [0, 0, 0, 0, 0],
        ])
    }

    /// A grid holding `data`.
    pub fn with_array(data: [[u8; 5]; 5]) -> (p: Pixels)
        ensures
            p.data == data,
    {
        Pixels { data }
    }

    /// Turns on the pixel of `c`, leaving every other pixel as it was.
    pub fn light(&mut self, c: Cell)
        requires
            c.wf(),
        ensures
            forall|x: int, y: int|
                0 <= x < GRID_WIDTH && 0 <= y < GRID_HEIGHT ==> #[trigger] final(self).at(x, y) == if x
                    == c.x && y == c.y {
                    1
                } else {
                    old(self).at(x, y)
                },
    {
        let mut row = self.data[c.y as usize];
        row[c.x as usize] = 1;
        self.data[c.y as usize] = row;
    }

    /// This grid with every pixel that is on in `other` turned on as well.
    pub fn merge(&self, other: &Pixels) -> (r: Pixels)
        ensures
            forall|x: int, y: int|
                0 <= x < GRID_WIDTH && 0 <= y < GRID_HEIGHT ==> #[trigger] r.at(x, y) == if other.at(
                    x,
                    y,
                ) == 1 {
                    1
                } else {
                    self.at(x, y)
                },
    {
        let mut result = *self;
        let mut i: usize = 0;
        while i < 5
            invariant
                i <= 5,
                forall|x: int, y: int|
                    0 <= x < GRID_WIDTH && 0 <= y < GRID_HEIGHT ==> #[trigger] result.at(x, y)
                        == if y < i && other.at(x, y) == 1 {
                        1
                    } else {
                        self.at(x, y)
                    },
            decreases 5 - i,
        {
            let mut j: usize = 0;
            while j < 5
                invariant
                    i < 5,
                    j <= 5,
                    forall|x: int, y: int|
                        0 <= x < GRID_WIDTH && 0 <= y < GRID_HEIGHT ==> #[trigger] result.at(x, y)
                            == if (y < i || (y == i && x < j)) && other.at(x, y) == 1 {
                            1
                        } else {
                            self.at(x, y)
                        },
                decreases 5 - j,
            {
                if other.data[i][j] == 1 {
                    result.light(Cell { x: j as u8, y: i as u8 });
                }
                j = j + 1;
            }
            i = i + 1;
        }
        result
    }
}

} // verus!
