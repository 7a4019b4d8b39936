//! A grid-based snake game engine: level parsing, snake movement and growth,
//! collision and feeding detection, and food placement.

pub mod coord;
pub mod error;
pub mod field;
pub mod game;
mod random;
pub mod snake;
mod text;

pub use coord::{to_coord_u32, Coord, BLOCK_SIZE};
pub use error::MyError;
pub use field::{Cell, CellType, Field};
pub use game::{Game, GameModel, Key, MOVING_PERIOD};
pub use snake::{Direction, Snake, SnakeModel};
