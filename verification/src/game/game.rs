//! A round of the game and its difficulty levels.

use vstd::prelude::*;
use crate::game::food::Food;
use crate::game::snake::{key_direction, LoseCondition, Snake, SnakeView, SPEED_MAX};
use crate::utils::fixed::{UNIT, COORD_MAX};
use crate::utils::keys::KeyCode;
use crate::utils::random::random_below;
use crate::utils::vec2d::Vec2D;

verus! {

/// How hard a round is. The level sets what happens at the border and how
/// fast the snake grows and accelerates.
#[derive(Copy, Clone, Debug, PartialEq, Eq, Structural)]
pub enum GameDifficulty {
    Easy,
    Normal,
    Hard,
}

impl GameDifficulty {
    /// The position of the level in the order `Easy`, `Normal`, `Hard`.
    pub open spec fn index(self) -> nat {
        match self {
            GameDifficulty::Easy => 0,
            GameDifficulty::Normal => 1,
            GameDifficulty::Hard => 2,
        }
    }

    /// The level at position `idx`; `Easy` where there is none.
    pub open spec fn at(idx: nat) -> GameDifficulty {
        if idx == 1 {
            GameDifficulty::Normal
        } else if idx == 2 {
            GameDifficulty::Hard
        } else {
            GameDifficulty::Easy
        }
    }

    /// The next level; after the highest comes the lowest again.
    pub open spec fn raised(self) -> GameDifficulty {
        Self::at((self.index() + 1) % 3)
    }

    /// The previous level; the lowest stays.
    pub open spec fn lowered(self) -> GameDifficulty {
        if self.index() == 0 {
            self
        } else {
            Self::at((self.index() - 1) as nat)
        }
    }

    /// The position of the level in the order of the levels.
    pub fn to_idx(&self) -> (idx: usize)
        ensures
            idx == self.index(),
            idx < 3,
    {
        match self {
            GameDifficulty::Easy => 0,
            GameDifficulty::Normal => 1,
            GameDifficulty::Hard => 2,
        }
    }

    /// An index out of range gives the lowest level.
    pub fn from_idx(idx: usize) -> (d: GameDifficulty)
        ensures
            d == Self::at(idx as nat),
            idx < 3 ==> d.index() == idx,
            idx >= 3 ==> d == GameDifficulty::Easy,
    {
        match idx {
            0 => GameDifficulty::Easy,
            1 => GameDifficulty::Normal,
            2 => GameDifficulty::Hard,
            _ => GameDifficulty::Easy,
        }
    }

    /// The number of levels.
    pub fn size() -> (n: usize)
        ensures
            n == 3,
    {
        3
    }

    /// Steps to the next level; after the highest comes the lowest again.
    pub fn increase(&mut self)
        ensures
            *final(self) == old(self).raised(),
    {
        let next_idx: usize = (self.to_idx() + 1) % GameDifficulty::size();
        *self = Self::from_idx(next_idx);
    }

    /// Steps to the previous level; the lowest stays.
    pub fn decrease(&mut self)
        ensures
            *final(self) == old(self).lowered(),
    {
        let prev_idx: usize = self.to_idx().saturating_sub(1);
        *self = Self::from_idx(prev_idx);
    }
}

/// Whether a round is running or over.
#[derive(Copy, Clone, Debug, PartialEq, Eq, Structural)]
pub enum GameState {
    Playing,
    GameOver,
}

/// What the head of the snake adds to the reach of the food.
pub const HEAD_REACH: i64 = 5_000_000;

/// The coordinate, on both axes, that the food returns to when a round is
/// reset.
pub const FOOD_RESET_COORD: i64 = 70_000_000;

/// A round: the snake, the food, the score and the field they live on.
pub struct Game {
    pub game_state: GameState,
    pub difficulty: GameDifficulty,
    pub snake: Snake,
    pub food: Food,
    pub score: usize,
    pub screen_size: Vec2D,
}

/// The state of a round as a mathematical value.
pub struct GameView {
    pub game_state: GameState,
    pub difficulty: GameDifficulty,
    pub snake: SnakeView,
    pub food: Food,
    pub score: usize,
    pub screen_size: Vec2D,
}

/// By how much the target length of the snake grows with each piece of food.
pub open spec fn growth(difficulty: GameDifficulty) -> int {
    5 * UNIT + 3 * UNIT * difficulty.index()
}

/// By how much the snake speeds up with each piece of food: `1.25` times the
/// level, divided by what the speed exceeds a threshold by, but by no less
/// than `1.0`. The faster the snake, the smaller the gain.
pub open spec fn speed_gain(speed: int, difficulty: GameDifficulty) -> int {
    let idx = difficulty.index() as int;
    let over = speed - 32 * UNIT - 10 * UNIT * idx;
    let damping = if over > UNIT {
        over
    } else {
        UNIT as int
    };
    (1_250_000 * (idx + 1) * UNIT) / damping
}

/// The sum of `a` and `b`, but not more than `limit`.
pub open spec fn capped_sum(a: int, b: int, limit: int) -> int {
    if a + b > limit {
        limit
    } else {
        a + b
    }
}

impl GameView {
    /// The state at the start of the first round.
    pub open spec fn initial(difficulty: GameDifficulty, screen_size: Vec2D) -> GameView {
        GameView {
            game_state: GameState::Playing,
            difficulty,
            snake: SnakeView::initial(difficulty, screen_size),
            food: Food::initial(),
            score: 0,
            screen_size,
        }
    }

    /// The snake is well-formed, the food lies in the coordinate range, and
    /// the field is at least one unit wide and high.
    pub open spec fn wf(self) -> bool {
        &&& self.snake.wf()
        &&& self.food.pos.in_range()
        &&& UNIT <= self.screen_size.x <= COORD_MAX
        &&& UNIT <= self.screen_size.y <= COORD_MAX
    }

    /// The head of the snake reaches the food.
    pub open spec fn food_hit(self) -> bool {
        Vec2D::spec_dist(self.snake.pos, self.food.pos) - HEAD_REACH < self.food.size
    }

    /// `p` is a place where new food can appear: a point of the field with
    /// whole-numbered coordinates.
    pub open spec fn spawn_point(self, p: Vec2D) -> bool {
        &&& p.x % UNIT == 0
        &&& p.y % UNIT == 0
        &&& 0 <= p.x / UNIT < self.screen_size.x / UNIT
        &&& 0 <= p.y / UNIT < self.screen_size.y / UNIT
    }

    /// The round after the snake has eaten the food and new food has
    /// appeared at `spawn`: the score counts one more, the target length
    /// and the speed of the snake grow. Each of the three stops at the
    /// greatest value it can hold.
    pub open spec fn fed(self, spawn: Vec2D) -> GameView {
        GameView {
            score: capped_sum(self.score as int, 1, usize::MAX as int) as usize,
            food: Food { pos: spawn, size: self.food.size },
            snake: SnakeView {
                snake_len: capped_sum(
                    self.snake.snake_len as int,
                    growth(self.difficulty),
                    i64::MAX as int,
                ) as i64,
                snake_speed: capped_sum(
                    self.snake.snake_speed as int,
                    speed_gain(self.snake.snake_speed as int, self.difficulty),
                    SPEED_MAX as int,
                ) as i64,
                ..self.snake
            },
            ..self
        }
    }

    /// The round after the check for food: `fed` if the head reaches the
    /// food, unchanged if not.
    pub open spec fn food_checked(self, spawn: Vec2D) -> GameView {
        if self.food_hit() {
            self.fed(spawn)
        } else {
            self
        }
    }

    /// A running round after the snake has moved for `delta_micros`
    /// microseconds: the round is over if the snake lost.
    pub open spec fn advanced(self, delta_micros: u64) -> GameView {
        let snake = self.snake.updated(delta_micros);
        GameView {
            snake,
            game_state: if snake.lose_condition != LoseCondition::Alive {
                GameState::GameOver
            } else {
                self.game_state
            },
            ..self
        }
    }

    /// The round one tick later, where `spawn` is the place of the new food
    /// if the food is eaten in this tick. A round that is over stays as it
    /// is.
    pub open spec fn ticked(self, delta_micros: u64, spawn: Vec2D) -> GameView {
        if self.game_state == GameState::GameOver {
            self
        } else {
            self.advanced(delta_micros).food_checked(spawn)
        }
    }

    /// The round set back to its start; the difficulty and the field stay.
    pub open spec fn restarted(self) -> GameView {
        GameView {
            snake: SnakeView::initial(self.snake.difficulty, self.snake.boundaries),
            game_state: GameState::Playing,
            score: 0,
            food: Food {
                pos: Vec2D { x: FOOD_RESET_COORD, y: FOOD_RESET_COORD },
                size: self.food.size,
            },
            ..self
        }
    }

    /// The round after a key, which goes to the snake.
    pub open spec fn keyed(self, code: KeyCode) -> GameView {
        GameView {
            snake: match key_direction(code) {
                Some(m_dir) => self.snake.turned(m_dir),
                None => self.snake,
            },
            ..self
        }
    }

    /// The round at difficulty `d`, which the snake takes over.
    pub open spec fn with_difficulty(self, d: GameDifficulty) -> GameView {
        GameView { difficulty: d, snake: SnakeView { difficulty: d, ..self.snake }, ..self }
    }
}

impl View for Game {
    type V = GameView;

    open spec fn view(&self) -> GameView {
        GameView {
            game_state: self.game_state,
            difficulty: self.difficulty,
            snake: self.snake@,
            food: self.food,
            score: self.score,
            screen_size: self.screen_size,
        }
    }
}

impl Game {
    /// A round at its start, on a field that reaches from the origin to
    /// `screen_size`.
    pub fn new(difficulty: GameDifficulty, screen_size: Vec2D) -> (g: Game)
        ensures
            g@ == GameView::initial(difficulty, screen_size),
    {
        Game {
            game_state: GameState::Playing,
            difficulty,
            snake: Snake::new(difficulty, screen_size),
            food: Food::new(),
            score: 0,
            screen_size,
        }
    }

    /// Tells whether the round is well-formed, as a tick requires. A round
    /// made by `new` with a field of at least one unit and at most
    /// `COORD_MAX` on each side is, and the operations keep it so.
    pub fn is_valid(&self) -> (r: bool)
        ensures
            r == self@.wf(),
    {
        self.snake.is_valid() && self.food.pos.is_in_range() && UNIT <= self.screen_size.x
            && self.screen_size.x <= COORD_MAX && UNIT <= self.screen_size.y
            && self.screen_size.y <= COORD_MAX
    }

    /// Starts a new round.
    pub fn reset(&mut self)
        ensures
            final(self)@ == old(self)@.restarted(),
    {
        self.snake.reset();
        self.game_state = GameState::Playing;
        self.score = 0;
        self.food.pos = Vec2D::new(FOOD_RESET_COORD, FOOD_RESET_COORD);
    }

    /// Hands a key to the snake.
    pub fn handle_event(&mut self, code: KeyCode)
        ensures
            final(self)@ == old(self)@.keyed(code),
            old(self)@.wf() ==> final(self)@.wf(),
    {
        self.snake.handle_event(code);
    }

    /// Advances a running round by one tick of `delta_micros` microseconds:
    /// the snake moves, the round ends if the snake lost, and the snake
    /// eats the food if its head reaches it. Where new food appears is left
    /// to chance.
    pub fn update(&mut self, delta_micros: u64)
        requires
            old(self)@.wf(),
        ensures
            final(self)@ == old(self)@.ticked(delta_micros, final(self).food.pos),
            old(self)@.game_state == GameState::Playing && old(self)@.advanced(
                delta_micros,
            ).food_hit() ==> old(self)@.spawn_point(final(self).food.pos),
            final(self)@.wf(),
    {
        if self.game_state == GameState::GameOver {
            return ;
        }
        self.snake.update(delta_micros);

        if self.snake.lose_condition != LoseCondition::Alive {
            self.game_state = GameState::GameOver;
        }
        self.check_snake_food_coll();
    }

    /// Lets the snake eat the food, with new food at `spawn`.
    pub fn consume_food(&mut self, spawn: Vec2D)
        requires
            old(self)@.wf(),
            spawn.in_range(),
        ensures
            final(self)@ == old(self)@.fed(spawn),
            final(self)@.wf(),
    {
        self.score = self.score.saturating_add(1);
        self.food.place(spawn);
        let idx: i64 = self.difficulty.to_idx() as i64;
        let grow: i64 = 5 * UNIT + 3 * UNIT * idx;
        self.snake.snake_len = if self.snake.snake_len > i64::MAX - grow {
            i64::MAX
        } else {
            self.snake.snake_len + grow
        };
        let over: i64 = self.snake.snake_speed - 32 * UNIT - 10 * UNIT * idx;
        let damping: i64 = if over > UNIT {
            over
        } else {
            UNIT
        };
        let gain: i64 = (1_250_000 * (idx + 1) * UNIT) / damping;
        self.snake.snake_speed = if self.snake.snake_speed + gain > SPEED_MAX {
            SPEED_MAX
        } else {
            self.snake.snake_speed + gain
        };
    }

    /// Lets the snake eat the food if its head reaches it. The new food
    /// appears at a random point of the field with whole-numbered
    /// coordinates.
    pub fn check_snake_food_coll(&mut self)
        requires
            old(self)@.wf(),
        ensures
            final(self)@ == old(self)@.food_checked(final(self).food.pos),
            old(self)@.food_hit() ==> old(self)@.spawn_point(final(self).food.pos),
            final(self)@.wf(),
    {
        if Vec2D::dist(self.snake.pos, self.food.pos) - HEAD_REACH < self.food.size {
            let columns: u64 = (self.screen_size.x / UNIT) as u64;
            let rows: u64 = (self.screen_size.y / UNIT) as u64;
            let x: i64 = random_below(columns) as i64 * UNIT;
            let y: i64 = random_below(rows) as i64 * UNIT;
            self.consume_food(Vec2D::new(x, y));
        }
    }

    /// Raises the difficulty by one level, from the highest back to the
    /// lowest, and tells the snake.
    pub fn increase_difficulty(&mut self)
        ensures
            final(self)@ == old(self)@.with_difficulty(old(self).difficulty.raised()),
    {
        self.difficulty.increase();
        self.snake.difficulty = self.difficulty;
    }

    /// Lowers the difficulty by one level, but not below the lowest, and
    /// tells the snake.
    pub fn decrease_difficulty(&mut self)
        ensures
            final(self)@ == old(self)@.with_difficulty(old(self).difficulty.lowered()),
    {
        self.difficulty.decrease();
        self.snake.difficulty = self.difficulty;
    }
}

} // verus!
