//! The game-state engine of a snake game on a small toroidal LED grid.
//!
//! The grid, the compass directions, the snake and its food are plain values
//! with verified operations; the game turns button edges into turns, advances
//! the snake one tick at a time and composes the frames that a display shows.
pub mod cell;
pub mod direction;
pub mod food;
pub mod game;
pub mod pixels;
pub mod snake;
pub mod tail_queue;

pub use cell::{Cell, GRID_HEIGHT, GRID_WIDTH};
pub use direction::{Direction, Turn};
pub use food::Food;
pub use game::{turn_for, Game, FRAME_TIME_MS, TICK_TIME_MS};
pub use pixels::Pixels;
pub use snake::Snake;
