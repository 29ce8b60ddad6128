use snake_game::game::food::{Food, FOOD_MARGIN, FOOD_SIZE};
use snake_game::game::game::{Game, GameDifficulty, GameState, FOOD_RESET_COORD, HEAD_REACH};
use snake_game::game::snake::{LoseCondition, MovementDir, SPEED_MAX};
use snake_game::utils::fixed::{COORD_MAX, UNIT};
use snake_game::utils::keys::KeyCode;
use snake_game::utils::vec2d::Vec2D;

fn at(x: i64, y: i64) -> Vec2D {
    Vec2D::new(x * UNIT, y * UNIT)
}

fn screen() -> Vec2D {
    at(150, 75)
}

#[test]
fn difficulty_indices() {
    assert_eq!(GameDifficulty::Easy.to_idx(), 0);
    assert_eq!(GameDifficulty::Normal.to_idx(), 1);
    assert_eq!(GameDifficulty::Hard.to_idx(), 2);
    assert_eq!(GameDifficulty::size(), 3);
}

#[test]
fn difficulty_from_index() {
    assert_eq!(GameDifficulty::from_idx(0), GameDifficulty::Easy);
    assert_eq!(GameDifficulty::from_idx(1), GameDifficulty::Normal);
    assert_eq!(GameDifficulty::from_idx(2), GameDifficulty::Hard);
}

#[test]
fn difficulty_from_an_index_out_of_range_is_easy() {
    assert_eq!(GameDifficulty::from_idx(3), GameDifficulty::Easy);
    assert_eq!(GameDifficulty::from_idx(usize::MAX), GameDifficulty::Easy);
}

#[test]
fn difficulty_round_trip() {
    for d in [GameDifficulty::Easy, GameDifficulty::Normal, GameDifficulty::Hard] {
        assert_eq!(GameDifficulty::from_idx(d.to_idx()), d);
    }
}

#[test]
fn increase_wraps_around() {
    let mut d = GameDifficulty::Easy;
    d.increase();
    assert_eq!(d, GameDifficulty::Normal);
    d.increase();
    assert_eq!(d, GameDifficulty::Hard);
    d.increase();
    assert_eq!(d, GameDifficulty::Easy);
}

#[test]
fn decrease_stops_at_the_lowest() {
    let mut d = GameDifficulty::Hard;
    d.decrease();
    assert_eq!(d, GameDifficulty::Normal);
    d.decrease();
    assert_eq!(d, GameDifficulty::Easy);
    d.decrease();
    assert_eq!(d, GameDifficulty::Easy);
}

#[test]
fn new_food_is_at_its_first_place() {
    let f = Food::new();
    assert_eq!(f.pos, at(150, 50));
    assert_eq!(f.size, 2 * UNIT);
    assert_eq!(f.size, FOOD_SIZE);
}

#[test]
fn place_moves_the_food() {
    let mut f = Food::new();
    f.place(at(3, 4));
    assert_eq!(f.pos, at(3, 4));
    assert_eq!(f.size, FOOD_SIZE);
}

#[test]
fn respawn_keeps_the_margin() {
    let mut f = Food::new();
    for _ in 0..200 {
        f.respawn(screen());
        assert!(10 * UNIT <= f.pos.x && f.pos.x < 140 * UNIT);
        assert!(10 * UNIT <= f.pos.y && f.pos.y < 65 * UNIT);
        assert_eq!(f.size, FOOD_SIZE);
    }
}

#[test]
fn respawn_on_the_smallest_field() {
    let mut f = Food::new();
    f.respawn(Vec2D::new(2 * FOOD_MARGIN + 1, 2 * FOOD_MARGIN + 1));
    assert_eq!(f.pos, Vec2D::new(FOOD_MARGIN, FOOD_MARGIN));
}

#[test]
fn new_game_starts_at_its_defaults() {
    let g = Game::new(GameDifficulty::Hard, screen());
    assert_eq!(g.game_state, GameState::Playing);
    assert_eq!(g.difficulty, GameDifficulty::Hard);
    assert_eq!(g.snake.difficulty, GameDifficulty::Hard);
    assert_eq!(g.snake.boundaries, screen());
    assert_eq!(g.snake.pos, at(50, 50));
    assert_eq!(g.food, Food::new());
    assert_eq!(g.score, 0);
    assert_eq!(g.screen_size, screen());
    assert!(g.is_valid());
}

#[test]
fn game_needs_a_field_of_one_unit() {
    assert!(Game::new(GameDifficulty::Easy, Vec2D::new(UNIT, UNIT)).is_valid());
    assert!(!Game::new(GameDifficulty::Easy, Vec2D::new(UNIT - 1, UNIT)).is_valid());
    assert!(!Game::new(GameDifficulty::Easy, Vec2D::new(UNIT, COORD_MAX + 1)).is_valid());
    assert!(Game::new(GameDifficulty::Easy, Vec2D::new(COORD_MAX, COORD_MAX)).is_valid());
}

#[test]
fn growth_on_easy() {
    let mut g = Game::new(GameDifficulty::Easy, screen());
    g.consume_food(at(7, 8));
    assert_eq!(g.score, 1);
    assert_eq!(g.food.pos, at(7, 8));
    assert_eq!(g.food.size, FOOD_SIZE);
    assert_eq!(g.snake.snake_len, 5 * UNIT);
    assert_eq!(g.snake.snake_speed, 26_250_000);
    assert_eq!(g.game_state, GameState::Playing);
}

#[test]
fn growth_on_normal() {
    let mut g = Game::new(GameDifficulty::Normal, screen());
    g.consume_food(at(7, 8));
    assert_eq!(g.snake.snake_len, 8 * UNIT);
    assert_eq!(g.snake.snake_speed, 27_500_000);
    g.consume_food(at(7, 8));
    assert_eq!(g.score, 2);
    assert_eq!(g.snake.snake_len, 16 * UNIT);
    assert_eq!(g.snake.snake_speed, 30_000_000);
}

#[test]
fn growth_on_hard() {
    let mut g = Game::new(GameDifficulty::Hard, screen());
    g.consume_food(at(7, 8));
    assert_eq!(g.snake.snake_len, 11 * UNIT);
    assert_eq!(g.snake.snake_speed, 28_750_000);
}

#[test]
fn speed_gain_is_damped_above_the_threshold() {
    let mut g = Game::new(GameDifficulty::Easy, screen());
    g.snake.snake_speed = 50 * UNIT;
    g.consume_food(at(1, 1));
    // 1.25 / (50 - 32) = 0.069444...
    assert_eq!(g.snake.snake_speed, 50 * UNIT + 69_444);
    let mut h = Game::new(GameDifficulty::Hard, screen());
    h.snake.snake_speed = 62 * UNIT;
    h.consume_food(at(1, 1));
    // 3.75 / (62 - 32 - 20) = 0.375
    assert_eq!(h.snake.snake_speed, 62 * UNIT + 375_000);
}

#[test]
fn speed_gain_is_whole_up_to_the_threshold() {
    let mut g = Game::new(GameDifficulty::Normal, screen());
    g.snake.snake_speed = 43 * UNIT;
    g.consume_food(at(1, 1));
    assert_eq!(g.snake.snake_speed, 43 * UNIT + 2_500_000);
    g.snake.snake_speed = 43 * UNIT + 1;
    g.consume_food(at(1, 1));
    // 2.5 / 1.000001 = 2.4999975...
    assert_eq!(g.snake.snake_speed, 43 * UNIT + 1 + 2_499_997);
    g.snake.snake_speed = -SPEED_MAX;
    g.consume_food(at(1, 1));
    assert_eq!(g.snake.snake_speed, -SPEED_MAX + 2_500_000);
}

#[test]
fn growth_stops_at_the_greatest_values() {
    let mut g = Game::new(GameDifficulty::Hard, screen());
    g.score = usize::MAX;
    g.snake.snake_len = i64::MAX - 11 * UNIT + 1;
    g.snake.snake_speed = SPEED_MAX;
    g.consume_food(at(1, 1));
    assert_eq!(g.score, usize::MAX);
    assert_eq!(g.snake.snake_len, i64::MAX);
    assert_eq!(g.snake.snake_speed, SPEED_MAX);
    g.snake.snake_len = i64::MAX - 11 * UNIT;
    g.snake.snake_speed = SPEED_MAX - 3;
    g.consume_food(at(1, 1));
    assert_eq!(g.snake.snake_len, i64::MAX);
    // 3.75 / (1_000_000 - 0.000003 - 52) rounds down to 3 steps
    assert_eq!(g.snake.snake_speed, SPEED_MAX);
    g.snake.snake_speed = SPEED_MAX - 4;
    g.consume_food(at(1, 1));
    assert_eq!(g.snake.snake_speed, SPEED_MAX - 1);
}

#[test]
fn food_out_of_reach_is_not_eaten() {
    let mut g = Game::new(GameDifficulty::Normal, screen());
    g.food.pos = at(57, 50);
    g.check_snake_food_coll();
    assert_eq!(g.score, 0);
    assert_eq!(g.food.pos, at(57, 50));
    assert_eq!(g.snake.snake_len, 0);
    assert_eq!(g.snake.snake_speed, 25 * UNIT);
}

#[test]
fn food_in_reach_is_eaten() {
    let mut g = Game::new(GameDifficulty::Normal, screen());
    g.food.pos = Vec2D::new(57 * UNIT - 1, 50 * UNIT);
    g.check_snake_food_coll();
    assert_eq!(g.score, 1);
    assert_eq!(g.snake.snake_len, 8 * UNIT);
    assert_eq!(g.snake.snake_speed, 27_500_000);
    assert_eq!(HEAD_REACH, 5 * UNIT);
}

#[test]
fn new_food_appears_on_the_field_at_whole_coordinates() {
    for _ in 0..200 {
        let mut g = Game::new(GameDifficulty::Normal, Vec2D::new(3 * UNIT + 999_999, 2 * UNIT));
        g.food.pos = g.snake.pos;
        g.check_snake_food_coll();
        assert_eq!(g.score, 1);
        assert_eq!(g.food.pos.x % UNIT, 0);
        assert_eq!(g.food.pos.y % UNIT, 0);
        assert!(0 <= g.food.pos.x && g.food.pos.x < 3 * UNIT);
        assert!(0 <= g.food.pos.y && g.food.pos.y < 2 * UNIT);
        assert_eq!(g.food.size, FOOD_SIZE);
    }
}

#[test]
fn new_food_on_a_field_of_one_unit() {
    let mut g = Game::new(GameDifficulty::Normal, Vec2D::new(UNIT, UNIT));
    g.food.pos = g.snake.pos;
    g.check_snake_food_coll();
    assert_eq!(g.food.pos, at(0, 0));
}

#[test]
fn update_moves_the_snake() {
    let mut g = Game::new(GameDifficulty::Normal, screen());
    g.update(1_000_000);
    assert_eq!(g.snake.pos, at(75, 50));
    assert_eq!(g.game_state, GameState::Playing);
    assert_eq!(g.score, 0);
    assert_eq!(g.food, Food::new());
}

#[test]
fn update_eats_food_on_the_way() {
    let mut g = Game::new(GameDifficulty::Easy, screen());
    g.food.pos = at(80, 50);
    g.update(1_000_000);
    assert_eq!(g.score, 1);
    assert_eq!(g.snake.pos, at(75, 50));
    assert_eq!(g.snake.snake_len, 5 * UNIT);
    assert_eq!(g.snake.snake_speed, 26_250_000);
    assert!(g.food.pos.x % UNIT == 0 && 0 <= g.food.pos.x && g.food.pos.x < 150 * UNIT);
    assert!(g.food.pos.y % UNIT == 0 && 0 <= g.food.pos.y && g.food.pos.y < 75 * UNIT);
}

#[test]
fn update_ends_the_round_at_the_border() {
    let mut g = Game::new(GameDifficulty::Normal, screen());
    g.update(5_000_000);
    assert_eq!(g.snake.pos, at(175, 50));
    assert_eq!(g.snake.lose_condition, LoseCondition::Border);
    assert_eq!(g.game_state, GameState::GameOver);
}

#[test]
fn update_does_nothing_once_the_round_is_over() {
    let mut g = Game::new(GameDifficulty::Normal, screen());
    g.update(5_000_000);
    g.food.pos = g.snake.pos;
    g.update(1_000_000);
    assert_eq!(g.snake.pos, at(175, 50));
    assert_eq!(g.score, 0);
    assert_eq!(g.game_state, GameState::GameOver);
}

#[test]
fn snake_eats_in_the_tick_it_dies() {
    let mut g = Game::new(GameDifficulty::Normal, screen());
    g.food.pos = at(175, 50);
    g.update(5_000_000);
    assert_eq!(g.game_state, GameState::GameOver);
    assert_eq!(g.score, 1);
}

#[test]
fn easy_round_goes_on_across_the_border() {
    let mut g = Game::new(GameDifficulty::Easy, screen());
    g.update(5_000_000);
    assert_eq!(g.snake.pos, at(0, 50));
    assert_eq!(g.game_state, GameState::Playing);
}

#[test]
fn game_hands_keys_to_the_snake() {
    let mut g = Game::new(GameDifficulty::Normal, screen());
    g.handle_event(KeyCode::Char('w'));
    assert_eq!(g.snake.dir, MovementDir::Up.to_vec2d());
    assert_eq!(g.snake.corners, vec![at(50, 50)]);
    g.handle_event(KeyCode::Enter);
    assert_eq!(g.snake.dir, MovementDir::Up.to_vec2d());
}

#[test]
fn turns_after_the_end_of_the_round_are_ignored() {
    let mut g = Game::new(GameDifficulty::Normal, screen());
    g.update(5_000_000);
    g.handle_event(KeyCode::Char('w'));
    assert_eq!(g.snake.dir, MovementDir::Right.to_vec2d());
    assert!(g.snake.corners.is_empty());
}

#[test]
fn reset_starts_a_new_round() {
    let mut g = Game::new(GameDifficulty::Hard, screen());
    g.consume_food(at(3, 3));
    g.handle_event(KeyCode::Char('w'));
    g.update(5_000_000);
    assert_eq!(g.game_state, GameState::GameOver);
    g.reset();
    assert_eq!(g.game_state, GameState::Playing);
    assert_eq!(g.score, 0);
    assert_eq!(g.food.pos, at(70, 70));
    assert_eq!(g.food.pos, Vec2D::new(FOOD_RESET_COORD, FOOD_RESET_COORD));
    assert_eq!(g.snake.pos, at(50, 50));
    assert_eq!(g.snake.dir, MovementDir::Right.to_vec2d());
    assert_eq!(g.snake.snake_len, 0);
    assert_eq!(g.snake.snake_speed, 25 * UNIT);
    assert_eq!(g.snake.lose_condition, LoseCondition::Alive);
    assert!(g.snake.corners.is_empty());
    assert_eq!(g.difficulty, GameDifficulty::Hard);
    assert_eq!(g.snake.difficulty, GameDifficulty::Hard);
    assert_eq!(g.screen_size, screen());
}

#[test]
fn difficulty_reaches_the_snake() {
    let mut g = Game::new(GameDifficulty::Normal, screen());
    g.increase_difficulty();
    assert_eq!(g.difficulty, GameDifficulty::Hard);
    assert_eq!(g.snake.difficulty, GameDifficulty::Hard);
    g.increase_difficulty();
    assert_eq!(g.difficulty, GameDifficulty::Easy);
    assert_eq!(g.snake.difficulty, GameDifficulty::Easy);
    g.decrease_difficulty();
    assert_eq!(g.difficulty, GameDifficulty::Easy);
    assert_eq!(g.snake.difficulty, GameDifficulty::Easy);
    g.increase_difficulty();
    g.increase_difficulty();
    g.decrease_difficulty();
    assert_eq!(g.difficulty, GameDifficulty::Normal);
    assert_eq!(g.snake.difficulty, GameDifficulty::Normal);
}
