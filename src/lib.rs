//! A grid-based Snake game: points on a square board, a snake that moves,
//! grows and collides, food that is relocated when eaten, and the per-frame
//! rules of the game loop. Drawing, input polling and timing are left to the
//! host program.

pub mod point;
pub mod snake;
pub mod game;

pub use point::{
    Direction, GamePoint, FONT_SIZE, GAME_SIZE, INITIAL_PERIOD_NS, SQUARE_SIZE,
};
pub use snake::{Food, Snake};
pub use game::{GameState, Keys};
