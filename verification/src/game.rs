//! The rules of a round: difficulty, food, the snake and the round itself.

pub mod food;
pub mod game;
pub mod laws;
pub mod slide;
pub mod snake;
pub mod trail;
