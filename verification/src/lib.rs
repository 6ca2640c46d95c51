//! A grid-based snake game: the playing field, the snake, the fruit it eats,
//! and the update performed on every tick.
//!
//! The crate holds the rules only. Drawing, key capture and the tick source
//! belong to the program that drives it.

pub mod fruit;
pub mod game;
pub mod grid;
pub mod screen;
pub mod snake;
pub mod trajectory;

pub use fruit::{free_positions, new_random_fruit, put_fruit, randomize_fruits, Fruit};
pub use game::{Game, UPDATES_PER_SECOND};
pub use grid::{first_at, is_out_of_bounds, Position, GRID_SIZE};
pub use screen::{square_of, window_side, Square, CELL_PIXELS};
pub use snake::{Collision, Snake, SnakePart, Turn};
