//! Compass directions and the relative turns that rotate them.
use vstd::prelude::*;

verus! {

/// A compass direction on the grid; North is towards row 0.
#[derive(Clone, Copy, Debug, PartialEq, Eq, Structural)]
pub enum Direction {
    North,
    South,
    East,
    West,
}

/// A relative turn: Left is a quarter turn counter-clockwise, Right clockwise.
#[derive(Clone, Copy, Debug, PartialEq, Eq, Structural)]
pub enum Turn {
    Left,
    Right,
}

/// Position of a direction in clockwise order, starting at North.
pub open spec fn clockwise_index(d: Direction) -> int {
    match d {
        Direction::North => 0,
        Direction::East => 1,
        Direction::South => 2,
        Direction::West => 3,
    }
}

/// The direction at a position of the clockwise order (taken modulo 4).
pub open spec fn direction_at(i: int) -> Direction {
    let k = i % 4;
    if k == 0 {
        Direction::North
    } else if k == 1 {
        Direction::East
    } else if k == 2 {
        Direction::South
    } else {
        Direction::West
    }
}

/// Number of clockwise quarter turns that a turn amounts to.
pub open spec fn quarter_turns(t: Turn) -> int {
    match t {
        Turn::Left => 3,
        Turn::Right => 1,
    }
}

/// The direction faced after turning `t` from `d`.
pub open spec fn turned(d: Direction, t: Turn) -> Direction {
    direction_at(clockwise_index(d) + quarter_turns(t))
}

/// The step that moving one cell in a direction takes, as (dx, dy).
pub open spec fn step(d: Direction) -> (int, int) {
    match d {
        Direction::North => (0, -1),
        Direction::South => (0, 1),
        Direction::East => (1, 0),
        Direction::West => (-1, 0),
    }
}

impl Direction {
    /// The direction faced after the turn `turn`.
    pub fn with_turn(self, turn: Turn) -> (r: Direction)
        ensures
            r == turned(self, turn),
    {
        match self {
            Direction::North => match turn {
                Turn::Left => Direction::West,
                Turn::Right => Direction::East,
            },
            Direction::South => match turn {
                Turn::Left => Direction::East,
                Turn::Right => Direction::West,
            },
            Direction::East => match turn {
                Turn::Left => Direction::North,
                Turn::Right => Direction::South,
            },
            Direction::West => match turn {
                Turn::Left => Direction::South,
                Turn::Right => Direction::North,
            },
        }
    }
}

/// For a fixed turn, turning is a bijection on the four directions: no two
/// directions turn into the same one, and every direction is reached, from the
/// direction that the opposite turn gives.
pub proof fn lemma_turn_bijective(t: Turn)
    ensures
        forall|a: Direction, b: Direction| #[trigger] turned(a, t) == #[trigger] turned(b, t) ==> a == b,
        forall|d: Direction| #[trigger] turned(turned(d, opposite_turn(t)), t) == d,
{
}

/// The turn that undoes `t`.
pub open spec fn opposite_turn(t: Turn) -> Turn {
    match t {
        Turn::Left => Turn::Right,
        Turn::Right => Turn::Left,
    }
}

/// Turning one way and then the other faces the original direction again.
pub proof fn lemma_turn_undone(d: Direction, t: Turn)
    ensures
        turned(turned(d, t), opposite_turn(t)) == d,
{
}

} // verus!
