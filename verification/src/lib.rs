//! A continuous-coordinate snake game: a head that moves along the four axis
//! directions, trails a body of a target length, and must avoid the border and
//! its own trail while it eats food to grow and speed up.
//!
//! All quantities are fixed-point integers (see [`utils::fixed`]), so every
//! rule of the game is stated and proved exactly.

pub mod app;
pub mod game;
pub mod utils;
