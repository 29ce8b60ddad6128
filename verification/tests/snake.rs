use snake_game::game::game::GameDifficulty;
use snake_game::game::snake::{
    ccw, intersect, LoseCondition, MovementDir, Snake, SPEED_MAX, START_COORD, START_SPEED,
};
use snake_game::utils::fixed::{COORD_MAX, UNIT};
use snake_game::utils::keys::KeyCode;
use snake_game::utils::vec2d::Vec2D;

fn p(x: i64, y: i64) -> Vec2D {
    Vec2D::new(x * UNIT, y * UNIT)
}

fn field() -> Vec2D {
    p(150, 75)
}

#[test]
fn new_snake_starts_at_its_defaults() {
    let s = Snake::new(GameDifficulty::Normal, field());
    assert_eq!(s.pos, p(50, 50));
    assert_eq!(s.pos, Vec2D::new(START_COORD, START_COORD));
    assert_eq!(s.dir, Vec2D::new(UNIT, 0));
    assert_eq!(s.snake_speed, 25 * UNIT);
    assert_eq!(s.snake_speed, START_SPEED);
    assert_eq!(s.snake_len, 0);
    assert_eq!(s.lose_condition, LoseCondition::Alive);
    assert_eq!(s.difficulty, GameDifficulty::Normal);
    assert_eq!(s.boundaries, field());
    assert!(s.corners.is_empty());
    assert!(s.is_valid());
}

#[test]
fn reset_restores_the_defaults() {
    let mut s = Snake::new(GameDifficulty::Hard, field());
    s.snake_len = 30 * UNIT;
    s.snake_speed = 40 * UNIT;
    s.change_movement_dir(MovementDir::Up);
    s.update(3_000_000);
    assert_eq!(s.lose_condition, LoseCondition::Border);
    s.reset();
    assert_eq!(s.pos, p(50, 50));
    assert_eq!(s.dir, Vec2D::new(UNIT, 0));
    assert_eq!(s.snake_speed, 25 * UNIT);
    assert_eq!(s.snake_len, 0);
    assert_eq!(s.lose_condition, LoseCondition::Alive);
    assert!(s.corners.is_empty());
    assert_eq!(s.difficulty, GameDifficulty::Hard);
    assert_eq!(s.boundaries, field());
}

#[test]
fn directions_have_indices_and_vectors() {
    assert_eq!(MovementDir::Up.as_idx(), 0);
    assert_eq!(MovementDir::Left.as_idx(), 1);
    assert_eq!(MovementDir::Down.as_idx(), 2);
    assert_eq!(MovementDir::Right.as_idx(), 3);
    assert_eq!(MovementDir::Up.to_vec2d(), Vec2D::new(0, UNIT));
    assert_eq!(MovementDir::Down.to_vec2d(), Vec2D::new(0, -UNIT));
    assert_eq!(MovementDir::Left.to_vec2d(), Vec2D::new(-UNIT, 0));
    assert_eq!(MovementDir::Right.to_vec2d(), Vec2D::new(UNIT, 0));
}

#[test]
fn from_vec2d_reads_back_every_direction() {
    for m in [MovementDir::Up, MovementDir::Left, MovementDir::Down, MovementDir::Right] {
        assert_eq!(MovementDir::from_vec2d(&m.to_vec2d()), m);
    }
}

#[test]
fn from_vec2d_takes_other_vectors_for_up() {
    assert_eq!(MovementDir::from_vec2d(&Vec2D::new(0, 0)), MovementDir::Up);
    assert_eq!(MovementDir::from_vec2d(&Vec2D::new(UNIT, UNIT)), MovementDir::Up);
    assert_eq!(MovementDir::from_vec2d(&Vec2D::new(1, 0)), MovementDir::Up);
}

#[test]
fn directions_on_one_axis_oppose_each_other() {
    assert!(MovementDir::opposing_directions(MovementDir::Up, MovementDir::Down));
    assert!(MovementDir::opposing_directions(MovementDir::Left, MovementDir::Right));
    assert!(MovementDir::opposing_directions(MovementDir::Up, MovementDir::Up));
    assert!(!MovementDir::opposing_directions(MovementDir::Up, MovementDir::Left));
    assert!(!MovementDir::opposing_directions(MovementDir::Right, MovementDir::Down));
}

#[test]
fn straight_line_integration() {
    let mut s = Snake::new(GameDifficulty::Normal, field());
    for _ in 0..10 {
        s.update(100_000);
    }
    assert_eq!(s.pos, p(75, 50));
    assert_eq!(s.dir, Vec2D::new(UNIT, 0));
    assert!(s.corners.is_empty());
    assert_eq!(s.lose_condition, LoseCondition::Alive);
}

#[test]
fn straight_line_integration_upward() {
    let mut s = Snake::new(GameDifficulty::Normal, field());
    s.change_movement_dir(MovementDir::Up);
    for _ in 0..4 {
        s.update(40_000);
    }
    assert_eq!(s.pos, p(50, 54));
}

#[test]
fn one_step_rounds_toward_zero() {
    let mut s = Snake::new(GameDifficulty::Normal, field());
    s.snake_speed = 3;
    s.update(999_999);
    assert_eq!(s.pos, Vec2D::new(50 * UNIT + 2, 50 * UNIT));
    s.snake_speed = -3;
    s.update(999_999);
    assert_eq!(s.pos, p(50, 50));
}

#[test]
fn reversal_is_rejected() {
    let mut s = Snake::new(GameDifficulty::Normal, field());
    s.change_movement_dir(MovementDir::Left);
    assert_eq!(s.dir, Vec2D::new(UNIT, 0));
    assert!(s.corners.is_empty());
    s.change_movement_dir(MovementDir::Up);
    s.change_movement_dir(MovementDir::Down);
    assert_eq!(s.dir, Vec2D::new(0, UNIT));
    assert_eq!(s.corners.len(), 1);
}

#[test]
fn turn_into_the_current_direction_changes_nothing() {
    let mut s = Snake::new(GameDifficulty::Normal, field());
    s.change_movement_dir(MovementDir::Right);
    assert_eq!(s.dir, Vec2D::new(UNIT, 0));
    assert!(s.corners.is_empty());
}

#[test]
fn turn_records_the_head_as_newest_corner() {
    let mut s = Snake::new(GameDifficulty::Normal, field());
    s.snake_len = 100 * UNIT;
    s.update(400_000);
    s.change_movement_dir(MovementDir::Up);
    assert_eq!(s.dir, Vec2D::new(0, UNIT));
    assert_eq!(s.corners, vec![p(60, 50)]);
    s.update(400_000);
    s.change_movement_dir(MovementDir::Left);
    assert_eq!(s.dir, Vec2D::new(-UNIT, 0));
    assert_eq!(s.corners, vec![p(60, 60), p(60, 50)]);
    assert_eq!(s.pos, p(60, 60));
}

#[test]
fn dead_snake_ignores_turns() {
    let mut s = Snake::new(GameDifficulty::Normal, field());
    s.lose_condition = LoseCondition::Border;
    s.change_movement_dir(MovementDir::Up);
    assert_eq!(s.dir, Vec2D::new(UNIT, 0));
    assert!(s.corners.is_empty());
    s.lose_condition = LoseCondition::SelfIntersect;
    s.handle_event(KeyCode::Char('s'));
    assert_eq!(s.dir, Vec2D::new(UNIT, 0));
    assert!(s.corners.is_empty());
}

#[test]
fn keys_steer_the_snake() {
    let mut s = Snake::new(GameDifficulty::Normal, field());
    s.handle_event(KeyCode::Char('w'));
    assert_eq!(s.dir, Vec2D::new(0, UNIT));
    s.handle_event(KeyCode::Char('a'));
    assert_eq!(s.dir, Vec2D::new(-UNIT, 0));
    s.handle_event(KeyCode::Char('s'));
    assert_eq!(s.dir, Vec2D::new(0, -UNIT));
    s.handle_event(KeyCode::Char('d'));
    assert_eq!(s.dir, Vec2D::new(UNIT, 0));
    assert_eq!(s.corners.len(), 4);
}

#[test]
fn other_keys_do_nothing() {
    let mut s = Snake::new(GameDifficulty::Normal, field());
    s.handle_event(KeyCode::Char('x'));
    s.handle_event(KeyCode::Char('W'));
    s.handle_event(KeyCode::Enter);
    s.handle_event(KeyCode::Esc);
    s.handle_event(KeyCode::Other);
    assert_eq!(s.dir, Vec2D::new(UNIT, 0));
    assert!(s.corners.is_empty());
}

#[test]
fn measured_length_follows_the_corners() {
    let mut s = Snake::new(GameDifficulty::Normal, field());
    assert_eq!(s.calc_snake_length(), 0);
    s.pos = p(10, 10);
    s.corners = vec![p(10, 14), p(13, 18), p(13, 20)];
    assert_eq!(s.calc_snake_length(), (4 + 5 + 2) as i128 * UNIT as i128);
}

#[test]
fn length_converges_to_the_target() {
    let mut s = Snake::new(GameDifficulty::Normal, field());
    s.snake_len = 10 * UNIT;
    s.update(1_000_000);
    assert_eq!(s.pos, p(75, 50));
    assert_eq!(s.calc_snake_length(), 0);
    s.change_movement_dir(MovementDir::Up);
    s.update(200_000);
    assert_eq!(s.pos, p(75, 55));
    assert_eq!(s.corners, vec![p(75, 50)]);
    assert_eq!(s.calc_snake_length(), 5 * UNIT as i128);
    s.update(400_000);
    assert_eq!(s.pos, p(75, 65));
    assert_eq!(s.corners, vec![p(75, 55)]);
    assert_eq!(s.calc_snake_length(), 10 * UNIT as i128);
    s.change_movement_dir(MovementDir::Left);
    assert_eq!(s.calc_snake_length(), 10 * UNIT as i128);
    s.update(200_000);
    assert_eq!(s.pos, p(70, 65));
    assert_eq!(s.corners, vec![p(75, 65), p(75, 60)]);
    assert_eq!(s.calc_snake_length(), 10 * UNIT as i128);
    s.update(400_000);
    assert_eq!(s.pos, p(60, 65));
    assert_eq!(s.corners, vec![p(70, 65)]);
    assert_eq!(s.calc_snake_length(), 10 * UNIT as i128);
    assert_eq!(s.lose_condition, LoseCondition::Alive);
}

#[test]
fn segment_as_long_as_the_excess_is_dropped() {
    let mut s = Snake::new(GameDifficulty::Normal, field());
    s.pos = p(70, 65);
    s.dir = Vec2D::new(-UNIT, 0);
    s.corners = vec![p(75, 65), p(75, 60)];
    s.snake_len = 5 * UNIT;
    s.move_snake(0);
    assert_eq!(s.pos, p(70, 65));
    assert_eq!(s.corners, vec![p(75, 65)]);
    assert_eq!(s.calc_snake_length(), 5 * UNIT as i128);
}

#[test]
fn trail_shorter_than_the_target_stays() {
    let mut s = Snake::new(GameDifficulty::Normal, field());
    s.pos = p(70, 65);
    s.dir = Vec2D::new(-UNIT, 0);
    s.corners = vec![p(75, 65), p(75, 60)];
    s.snake_len = 11 * UNIT;
    s.move_snake(0);
    assert_eq!(s.corners, vec![p(75, 65), p(75, 60)]);
    s.snake_len = 10 * UNIT;
    s.move_snake(0);
    assert_eq!(s.corners, vec![p(75, 65), p(75, 60)]);
}

#[test]
fn zero_target_leaves_no_trail_behind() {
    let mut s = Snake::new(GameDifficulty::Normal, field());
    s.change_movement_dir(MovementDir::Up);
    assert_eq!(s.corners.len(), 1);
    s.update(0);
    assert_eq!(s.corners, vec![p(50, 50)]);
    s.update(1_000);
    assert!(s.corners.is_empty());
    assert_eq!(s.pos, Vec2D::new(50 * UNIT, 50 * UNIT + 25_000));
}

#[test]
fn negative_target_clears_the_trail() {
    let mut s = Snake::new(GameDifficulty::Normal, field());
    s.corners = vec![p(50, 50), p(50, 50)];
    s.snake_len = -1;
    s.move_snake(0);
    assert!(s.corners.is_empty());
}

#[test]
fn diagonal_segment_slides_along_its_direction() {
    let mut s = Snake::new(GameDifficulty::Normal, field());
    s.pos = p(10, 10);
    s.corners = vec![p(13, 14)];
    s.snake_len = 3 * UNIT;
    s.move_snake(0);
    // toward the head by 2.0 along (-0.6, -0.8)
    assert_eq!(s.corners, vec![Vec2D::new(11_800_000, 12_400_000)]);
    assert_eq!(s.calc_snake_length(), 3 * UNIT as i128);
}

#[test]
fn easy_wraps_at_the_far_side() {
    let mut s = Snake::new(GameDifficulty::Easy, field());
    s.pos = p(151, 50);
    s.update(1_000);
    assert_eq!(s.pos, p(0, 50));
    assert_eq!(s.lose_condition, LoseCondition::Alive);
}

#[test]
fn normal_dies_at_the_far_side() {
    let mut s = Snake::new(GameDifficulty::Normal, field());
    s.pos = p(151, 50);
    s.update(1_000);
    assert_eq!(s.pos, Vec2D::new(151 * UNIT + 25_000, 50 * UNIT));
    assert_eq!(s.lose_condition, LoseCondition::Border);
}

#[test]
fn hard_dies_at_every_side() {
    for (pos, dir) in [
        (Vec2D::new(-1, 10 * UNIT), MovementDir::Left),
        (Vec2D::new(10 * UNIT, -1), MovementDir::Down),
        (Vec2D::new(150 * UNIT + 1, 10 * UNIT), MovementDir::Right),
        (Vec2D::new(10 * UNIT, 75 * UNIT + 1), MovementDir::Up),
    ] {
        let mut s = Snake::new(GameDifficulty::Hard, field());
        s.pos = pos;
        s.dir = dir.to_vec2d();
        s.check_border();
        assert_eq!(s.lose_condition, LoseCondition::Border);
        assert_eq!(s.pos, pos);
    }
}

#[test]
fn border_itself_is_inside_the_field() {
    for pos in [p(0, 0), p(150, 75), p(0, 75), p(150, 0)] {
        let mut s = Snake::new(GameDifficulty::Normal, field());
        s.pos = pos;
        s.check_border();
        assert_eq!(s.lose_condition, LoseCondition::Alive);
        let mut e = Snake::new(GameDifficulty::Easy, field());
        e.pos = pos;
        e.check_border();
        assert_eq!(e.pos, pos);
    }
}

#[test]
fn easy_wraps_on_every_side() {
    let mut s = Snake::new(GameDifficulty::Easy, field());
    s.pos = Vec2D::new(-1, 75 * UNIT + 1);
    s.check_border();
    assert_eq!(s.pos, p(150, 0));
    s.pos = Vec2D::new(150 * UNIT + 1, -1);
    s.clip_border();
    assert_eq!(s.pos, p(0, 75));
    assert_eq!(s.lose_condition, LoseCondition::Alive);
}

#[test]
fn clip_border_is_for_easy_only() {
    let mut s = Snake::new(GameDifficulty::Normal, field());
    s.pos = p(151, -3);
    s.clip_border();
    assert_eq!(s.pos, p(151, -3));
    assert_eq!(s.lose_condition, LoseCondition::Alive);
}

#[test]
fn dead_snake_keeps_moving() {
    let mut s = Snake::new(GameDifficulty::Normal, field());
    s.pos = p(149, 50);
    s.update(1_000_000);
    assert_eq!(s.lose_condition, LoseCondition::Border);
    assert_eq!(s.pos, p(174, 50));
    s.update(1_000_000);
    assert_eq!(s.pos, p(199, 50));
    assert_eq!(s.lose_condition, LoseCondition::Border);
}

#[test]
fn head_stops_at_the_end_of_the_coordinate_range() {
    let mut s = Snake::new(GameDifficulty::Normal, Vec2D::new(COORD_MAX, COORD_MAX));
    s.pos = Vec2D::new(COORD_MAX - 10, 50 * UNIT);
    s.snake_speed = SPEED_MAX;
    s.update(u64::MAX);
    assert_eq!(s.pos, Vec2D::new(COORD_MAX, 50 * UNIT));
    assert_eq!(s.lose_condition, LoseCondition::Alive);
    s.dir = Vec2D::new(0, -UNIT);
    s.update(u64::MAX);
    assert_eq!(s.pos, Vec2D::new(COORD_MAX, -COORD_MAX));
    assert_eq!(s.lose_condition, LoseCondition::Border);
    assert!(s.is_valid());
}

#[test]
fn self_intersection_is_detected() {
    let mut s = Snake::new(GameDifficulty::Normal, field());
    s.snake_len = 1_000 * UNIT;
    s.update(400_000);
    s.change_movement_dir(MovementDir::Up);
    s.update(400_000);
    s.change_movement_dir(MovementDir::Right);
    s.update(400_000);
    s.change_movement_dir(MovementDir::Down);
    s.update(200_000);
    s.change_movement_dir(MovementDir::Left);
    assert_eq!(s.corners, vec![p(70, 55), p(70, 60), p(60, 60), p(60, 50)]);
    s.update(200_000);
    assert_eq!(s.pos, p(65, 55));
    assert_eq!(s.lose_condition, LoseCondition::Alive);
    s.update(400_000);
    assert_eq!(s.pos, p(55, 55));
    assert_eq!(s.lose_condition, LoseCondition::SelfIntersect);
}

#[test]
fn next_segment_is_not_a_crossing() {
    let mut s = Snake::new(GameDifficulty::Normal, field());
    s.pos = p(10, 10);
    s.corners = vec![p(20, 10), p(20, 20)];
    s.snake_len = 1_000 * UNIT;
    s.snake_self_intersect();
    assert_eq!(s.lose_condition, LoseCondition::Alive);
    s.corners = vec![p(20, 10), p(15, 10), p(15, 0)];
    s.snake_self_intersect();
    assert_eq!(s.lose_condition, LoseCondition::Alive);
}

#[test]
fn crossing_overrides_the_border() {
    let mut s = Snake::new(GameDifficulty::Normal, p(62, 75));
    s.snake_len = 1_000 * UNIT;
    s.pos = p(55, 55);
    s.dir = Vec2D::new(-UNIT, 0);
    s.corners = vec![p(70, 55), p(70, 60), p(60, 60), p(60, 50)];
    s.lose_condition = LoseCondition::Border;
    s.snake_self_intersect();
    assert_eq!(s.lose_condition, LoseCondition::SelfIntersect);
}

#[test]
fn ccw_tells_the_side() {
    assert!(ccw(p(0, 0), p(1, 0), p(1, 1)));
    assert!(!ccw(p(0, 0), p(1, 0), p(1, -1)));
    assert!(!ccw(p(0, 0), p(1, 0), p(2, 0)));
}

#[test]
fn intersect_tells_crossing_segments() {
    assert!(intersect(p(0, 0), p(2, 2), p(0, 2), p(2, 0)));
    assert!(!intersect(p(0, 0), p(1, 1), p(2, 0), p(2, 2)));
    assert!(!intersect(p(0, 0), p(2, 0), p(0, 1), p(2, 1)));
    assert!(intersect(
        Vec2D::new(-COORD_MAX, -COORD_MAX),
        Vec2D::new(COORD_MAX, COORD_MAX),
        Vec2D::new(-COORD_MAX, COORD_MAX),
        Vec2D::new(COORD_MAX, -COORD_MAX),
    ));
}

#[test]
fn is_valid_tells_what_update_requires() {
    let mut s = Snake::new(GameDifficulty::Normal, field());
    assert!(s.is_valid());
    s.dir = Vec2D::new(UNIT, UNIT);
    assert!(!s.is_valid());
    s.dir = Vec2D::new(0, -UNIT);
    assert!(s.is_valid());
    s.snake_speed = SPEED_MAX + 1;
    assert!(!s.is_valid());
    s.snake_speed = -SPEED_MAX;
    assert!(s.is_valid());
    s.corners = vec![p(1, 1), Vec2D::new(COORD_MAX + 1, 0)];
    assert!(!s.is_valid());
    s.corners = vec![p(1, 1)];
    s.pos = Vec2D::new(0, -COORD_MAX - 1);
    assert!(!s.is_valid());
    let t = Snake::new(GameDifficulty::Normal, Vec2D::new(COORD_MAX + 1, 0));
    assert!(!t.is_valid());
}

#[test]
fn wrap_can_stretch_the_trail() {
    let mut s = Snake::new(GameDifficulty::Easy, field());
    s.pos = p(149, 50);
    s.corners = vec![p(100, 50)];
    s.snake_len = 49 * UNIT;
    s.update(100_000);
    assert_eq!(s.pos, p(0, 50));
    assert_eq!(s.corners, vec![Vec2D::new(102_500_000, 50 * UNIT)]);
    assert_eq!(s.calc_snake_length(), 102_500_000);
    s.update(100_000);
    assert_eq!(s.pos, Vec2D::new(2_500_000, 50 * UNIT));
    assert_eq!(s.corners, vec![Vec2D::new(51_500_000, 50 * UNIT)]);
    assert_eq!(s.calc_snake_length(), 49 * UNIT as i128);
}

#[test]
fn slanted_slide_is_rounded_toward_the_corner() {
    let mut s = Snake::new(GameDifficulty::Normal, field());
    s.pos = p(0, 0);
    s.corners = vec![p(1, 1)];
    s.snake_len = UNIT;
    assert_eq!(s.calc_snake_length(), 1_414_213);
    s.move_snake(0);
    assert_eq!(s.corners, vec![Vec2D::new(707_108, 707_108)]);
    assert_eq!(s.calc_snake_length(), 1_000_001);
}

#[test]
fn long_slanted_slide_stays_within_the_tolerance() {
    let mut s = Snake::new(GameDifficulty::Normal, Vec2D::new(COORD_MAX, COORD_MAX));
    s.pos = p(0, 0);
    s.corners = vec![Vec2D::new(3_000 * UNIT + 1, 4_000 * UNIT + 7)];
    s.snake_len = 1_234 * UNIT + 5;
    assert_eq!(s.calc_snake_length(), 5_000_000_006);
    s.move_snake(0);
    assert_eq!(s.corners, vec![Vec2D::new(740_403_767, 987_200_007)]);
    let length = s.calc_snake_length();
    assert_eq!(length, 1_234_002_265);
    let excess: i128 = 5_000_000_006 - (1_234 * UNIT as i128 + 5);
    assert!(length <= s.snake_len as i128 + 2 * (excess / UNIT as i128) + 5);
}

#[test]
fn perpendicular_crossing_is_found_whichever_way_it_is_walked() {
    let (a, b) = (p(0, 5), p(10, 5));
    let (c, d) = (p(4, 0), p(4, 9));
    for (a, b) in [(a, b), (b, a)] {
        for (c, d) in [(c, d), (d, c)] {
            assert!(intersect(a, b, c, d));
            assert!(intersect(c, d, a, b));
        }
    }
    assert!(!intersect(a, b, p(4, 6), p(4, 9)));
    assert!(!intersect(a, b, p(11, 0), p(11, 9)));
}
