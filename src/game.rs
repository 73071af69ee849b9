//! One game: a snake and its food, advanced a tick at a time and rendered as a
//! short run of frames.
use vstd::prelude::*;

use crate::cell::{Cell, GRID_HEIGHT, GRID_WIDTH};
use crate::direction::Turn;
use crate::food::Food;
use crate::pixels::{on_off, Pixels};
use crate::snake::{initial_snake, Snake, SnakeModel};

verus! {

/// Duration of one tick, in milliseconds.
pub const TICK_TIME_MS: u32 = 500;

/// Duration for which each frame is shown, in milliseconds.
pub const FRAME_TIME_MS: u32 = 100;

/// Number of frame pairs shown in one tick; time left over is dropped.
pub open spec fn frame_pairs() -> int {
    (TICK_TIME_MS / FRAME_TIME_MS) as int / 2
}

/// The turn that a tick's button presses ask for: A alone turns left, B alone
/// turns right, neither or both do not turn.
pub open spec fn turn_of(a_pressed: bool, b_pressed: bool) -> Option<Turn> {
    if a_pressed && !b_pressed {
        Some(Turn::Left)
    } else if b_pressed && !a_pressed {
        Some(Turn::Right)
    } else {
        None
    }
}

/// The snake after one tick: the turn that the presses ask for, then a move.
pub open spec fn ticked(s: SnakeModel, a_pressed: bool, b_pressed: bool, food: Cell) -> SnakeModel {
    let turned = match turn_of(a_pressed, b_pressed) {
        Some(t) => s.turned(t),
        None => s,
    };
    turned.slithered(food)
}

/// The snake after one tick for each pair of presses (A, B), in order.
pub open spec fn run(s: SnakeModel, presses: Seq<(bool, bool)>, food: Cell) -> SnakeModel
    decreases presses.len(),
{
    if presses.len() == 0 {
        s
    } else {
        run(ticked(s, presses[0].0, presses[0].1, food), presses.drop_first(), food)
    }
}

/// Once dead, a snake stays exactly as it is, whatever the ticks that follow.
pub proof fn lemma_dead_snake_unchanged(s: SnakeModel, presses: Seq<(bool, bool)>, food: Cell)
    requires
        s.dead,
    ensures
        run(s, presses, food) == s,
    decreases presses.len(),
{
    if presses.len() > 0 {
        assert(ticked(s, presses[0].0, presses[0].1, food) == s);
        lemma_dead_snake_unchanged(s, presses.drop_first(), food);
    }
}

/// The cells that a snake covers: its head and every tail cell.
pub open spec fn snake_cells(s: SnakeModel) -> Set<Cell> {
    s.tail.to_set().insert(s.head)
}

/// The cells lit in frame `k` of a tick. A dead snake flashes: blank, then the
/// snake. A live one pulses: the snake, then the snake and the food.
pub open spec fn frame_cells(s: SnakeModel, food: Cell, k: int) -> Set<Cell> {
    if s.dead {
        if k % 2 == 0 {
            Set::empty()
        } else {
            snake_cells(s)
        }
    } else {
        if k % 2 == 0 {
            snake_cells(s)
        } else {
            snake_cells(s).insert(food)
        }
    }
}

/// The turn that a tick's button presses ask for.
pub fn turn_for(a_pressed: bool, b_pressed: bool) -> (r: Option<Turn>)
    ensures
        r == turn_of(a_pressed, b_pressed),
{
    match (a_pressed, b_pressed) {
        (false, false) => None,
        (true, false) => Some(Turn::Left),
        (false, true) => Some(Turn::Right),
        (true, true) => None,
    }
}

/// Lighting one more cell of a grid that shows `cells` shows `cells` and it.
proof fn lemma_light_shows(before: Pixels, after: Pixels, cells: Set<Cell>, c: Cell)
    requires
        before.shows(cells),
        c.wf(),
        forall|x: int, y: int|
            0 <= x < GRID_WIDTH && 0 <= y < GRID_HEIGHT ==> #[trigger] after.at(x, y) == if x
                == c.x && y == c.y {
                1
            } else {
                before.at(x, y)
            },
    ensures
        after.shows(cells.insert(c)),
{
    assert forall|x: int, y: int| 0 <= x < GRID_WIDTH && 0 <= y < GRID_HEIGHT implies #[trigger] after.at(
        x,
        y,
    ) == on_off(cells.insert(c).contains(Cell { x: x as u8, y: y as u8 })) by {
        assert(before.at(x, y) == on_off(cells.contains(Cell { x: x as u8, y: y as u8 })));
        if x == c.x && y == c.y {
            assert(Cell { x: x as u8, y: y as u8 } == c);
        } else {
            assert(Cell { x: x as u8, y: y as u8 } != c);
        }
    }
}

/// A snake and the food that it is after.
pub struct Game {
    pub snake: Snake,
    pub food: Food,
}

impl Game {
    /// The snake is well formed and the food lies on the grid.
    pub open spec fn wf(&self) -> bool {
        self.snake.wf() && self.food.cell.wf()
    }

    /// A new game: the snake of `Snake::new` and the food of `Food::new`.
    pub fn new() -> (g: Game)
        ensures
            g.wf(),
            g.snake@ == initial_snake(),
            g.food.cell == (Cell { x: 0, y: 0 }),
    {
        Game { snake: Snake::new(), food: Food::new() }
    }

    /// One tick, given whether buttons A and B were pressed since the last one.
    pub fn update(&mut self, a_pressed: bool, b_pressed: bool)
        requires
            old(self).wf(),
        ensures
            final(self).wf(),
            final(self).food == old(self).food,
            final(self).snake@ == ticked(old(self).snake@, a_pressed, b_pressed, old(self).food.cell),
    {
        if let Some(turn) = turn_for(a_pressed, b_pressed) {
            self.snake.turn(turn);
        }
        self.snake.slither(&self.food);
    }

    /// A grid with the snake's cells on.
    pub fn snake_pixels(&self) -> (p: Pixels)
        requires
            self.wf(),
        ensures
            p.shows(snake_cells(self.snake@)),
    {
        let ghost s = self.snake@;
        let mut p = Pixels::new();
        let ghost before = p;
        p.light(self.snake.head);
        proof {
            lemma_light_shows(before, p, Set::empty(), s.head);
        }
        let cells = self.snake.tail_cells();
        let mut i: usize = 0;
        while i < cells.len()
            invariant
                s == self.snake@,
                s.wf(),
                cells@ == s.tail,
                i <= cells@.len(),
                p.shows(cells@.subrange(0, i as int).to_set().insert(s.head)),
            decreases cells.len() - i,
        {
            let ghost before = p;
            let c = cells[i];
            assert(c == s.tail[i as int]);
            assert(c.wf());
            p.light(c);
            proof {
                let old_set = cells@.subrange(0, i as int).to_set().insert(s.head);
                lemma_light_shows(before, p, old_set, c);
                assert(cells@.subrange(0, i + 1) =~= cells@.subrange(0, i as int).push(c));
                cells@.subrange(0, i as int).lemma_push_to_set_commute(c);
                assert(cells@.subrange(0, i + 1).to_set() =~= cells@.subrange(
                    0,
                    i as int,
                ).to_set().insert(c));
                assert(old_set.insert(c) =~= cells@.subrange(0, i + 1).to_set().insert(s.head));
            }
            i = i + 1;
        }
        assert(cells@.subrange(0, cells@.len() as int) =~= cells@);
        p
    }

    /// The frames of one tick, each to be shown for `FRAME_TIME_MS`.
    pub fn frames(&self) -> (r: Vec<Pixels>)
        requires
            self.wf(),
        ensures
            r@.len() == 2 * frame_pairs(),
            forall|k: int|
                0 <= k < r@.len() ==> (#[trigger] r@[k]).shows(
                    frame_cells(self.snake@, self.food.cell, k),
                ),
    {
        let pixels_blank = Pixels::new();
        let pixels_snake = self.snake_pixels();
        let mut pixels_snake_food = pixels_snake;
        let ghost before = pixels_snake_food;
        pixels_snake_food.light(self.food.cell);
        proof {
            lemma_light_shows(before, pixels_snake_food, snake_cells(self.snake@), self.food.cell);
        }
        let (first, second) = if self.snake.dead {
            (pixels_blank, pixels_snake)
        } else {
            (pixels_snake, pixels_snake_food)
        };
        let pairs: u32 = (TICK_TIME_MS / FRAME_TIME_MS) / 2;
        let mut r: Vec<Pixels> = Vec::new();
        let mut n: u32 = 0;
        while n < pairs
            invariant
                pairs == frame_pairs(),
                n <= pairs,
                r@.len() == 2 * n,
                first.shows(frame_cells(self.snake@, self.food.cell, 0)),
                second.shows(frame_cells(self.snake@, self.food.cell, 1)),
                forall|k: int|
                    0 <= k < r@.len() ==> (#[trigger] r@[k]) == if k % 2 == 0 {
                        first
                    } else {
                        second
                    },
            decreases pairs - n,
        {
            r.push(first);
            r.push(second);
            n = n + 1;
        }
        assert forall|k: int| 0 <= k < r@.len() implies (#[trigger] r@[k]).shows(
            frame_cells(self.snake@, self.food.cell, k),
        ) by {
            if k % 2 == 0 {
                assert(frame_cells(self.snake@, self.food.cell, k) == frame_cells(
                    self.snake@,
                    self.food.cell,
                    0,
                ));
            } else {
                assert(frame_cells(self.snake@, self.food.cell, k) == frame_cells(
                    self.snake@,
                    self.food.cell,
                    1,
                ));
            }
        }
        r
    }
}

} // verus!
