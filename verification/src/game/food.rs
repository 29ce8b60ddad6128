//! The food that the snake eats.

use vstd::prelude::*;
use crate::utils::random::random_below;
use crate::utils::vec2d::Vec2D;

verus! {

/// The distance that respawned food keeps from the border of the field.
pub const FOOD_MARGIN: i64 = 10_000_000;

/// The radius of the food.
pub const FOOD_SIZE: i64 = 2_000_000;

/// The first position of the food, from left to right.
pub const FOOD_START_X: i64 = 150_000_000;

/// The first position of the food, from bottom to top.
pub const FOOD_START_Y: i64 = 50_000_000;

/// A piece of food: a disc of radius `size` around `pos`.
#[derive(Copy, Clone, Debug, PartialEq, Eq, Structural)]
pub struct Food {
    pub pos: Vec2D,
    pub size: i64,
}

impl Food {
    /// `p` keeps the margin from every side of the field that reaches from
    /// the origin to `boundaries`.
    pub open spec fn within_margin(p: Vec2D, boundaries: Vec2D) -> bool {
        &&& FOOD_MARGIN <= p.x < boundaries.x - FOOD_MARGIN
        &&& FOOD_MARGIN <= p.y < boundaries.y - FOOD_MARGIN
    }

    /// The food as it lies when the game starts.
    pub open spec fn initial() -> Food {
        Food { pos: Vec2D { x: FOOD_START_X, y: FOOD_START_Y }, size: FOOD_SIZE }
    }

    /// The food at its first position.
    pub fn new() -> (f: Food)
        ensures
            f == Self::initial(),
    {
        Food { pos: Vec2D::new(FOOD_START_X, FOOD_START_Y), size: FOOD_SIZE }
    }

    /// Puts the food at `p`.
    pub fn place(&mut self, p: Vec2D)
        ensures
            final(self).pos == p,
            final(self).size == old(self).size,
    {
        self.pos = p;
    }

    /// Moves the food to a random position that keeps the margin from the
    /// border. The field must be wider and higher than two margins.
    pub fn respawn(&mut self, boundaries: Vec2D)
        requires
            boundaries.x > 2 * FOOD_MARGIN,
            boundaries.y > 2 * FOOD_MARGIN,
        ensures
            Self::within_margin(final(self).pos, boundaries),
            final(self).size == old(self).size,
    {
        let width: u64 = (boundaries.x - 2 * FOOD_MARGIN) as u64;
        let height: u64 = (boundaries.y - 2 * FOOD_MARGIN) as u64;
        let x: i64 = FOOD_MARGIN + random_below(width) as i64;
        let y: i64 = FOOD_MARGIN + random_below(height) as i64;
        self.place(Vec2D::new(x, y));
    }
}

} // verus!
