//! Arithmetic and geometry shared by the game.

pub mod fixed;
pub mod keys;
pub(crate) mod random;
pub mod vec2d;
