//! What holds of the game as a whole, proved from the rules.

use vstd::prelude::*;
use crate::game::game::{growth, speed_gain, GameDifficulty, GameState, GameView};
use crate::game::snake::{
    is_axis_unit, spec_ccw, spec_intersect, Action, LoseCondition, MovementDir, SnakeView,
    SPEED_MAX,
};
use crate::game::slide::tolerance;
use crate::game::trail::{
    follow_target, rectilinear, segment_axis_parallel, lemma_path_len_insert_head,
    lemma_path_len_split, lemma_retracted_in_range, lemma_retracted_length,
    lemma_retracted_no_empty_segment, lemma_retracted_tolerance,
};
use crate::utils::fixed::{abs, UNIT, COORD_MAX, div_trunc};
use crate::utils::keys::KeyCode;
use crate::utils::vec2d::{Vec2D, lemma_dist_after_axis_move};

verus! {

/// A difficulty is read back from its index.
pub proof fn law_difficulty_round_trip(d: GameDifficulty)
    ensures
        GameDifficulty::at(d.index()) == d,
        d.index() < 3,
{
}

/// Raising the difficulty three times, or lowering it at the lowest level,
/// leads back to where it was.
pub proof fn law_difficulty_cycle(d: GameDifficulty)
    ensures
        d.raised().raised().raised() == d,
        GameDifficulty::Easy.lowered() == GameDifficulty::Easy,
        d != GameDifficulty::Hard ==> d.raised().lowered() == d,
{
}

/// A direction is read back from its unit vector.
pub proof fn law_direction_round_trip(m_dir: MovementDir)
    ensures
        MovementDir::of_vector(m_dir.vector()) == m_dir,
        is_axis_unit(m_dir.vector()),
{
}

/// A snake never reverses: a request to turn into the direction opposite to
/// the current one, or into the current one, changes nothing.
pub proof fn law_reversal_rejected(s: SnakeView, m_dir: MovementDir)
    requires
        is_axis_unit(s.dir),
        m_dir == MovementDir::of_vector(s.dir).opposite() || m_dir == MovementDir::of_vector(
            s.dir,
        ),
    ensures
        s.turned(m_dir) == s,
{
}

/// A turn that is accepted changes the axis of the direction and records the
/// position of the head as the newest corner; nothing else changes.
pub proof fn law_turn_accepted(s: SnakeView, m_dir: MovementDir)
    requires
        s.lose_condition == LoseCondition::Alive,
        MovementDir::of_vector(s.dir).index() % 2 != m_dir.index() % 2,
    ensures
        s.turned(m_dir).dir == m_dir.vector(),
        s.turned(m_dir).corners.len() == s.corners.len() + 1,
        s.turned(m_dir).corners[0] == s.pos,
        s.turned(m_dir).pos == s.pos,
        s.turned(m_dir).measured_length() == s.measured_length(),
{
    lemma_path_len_insert_head(s.pos, s.corners);
}

/// Once the round is lost, no request to turn changes the snake.
pub proof fn law_dead_snake_ignores_turns(s: SnakeView, m_dir: MovementDir)
    requires
        s.lose_condition != LoseCondition::Alive,
    ensures
        s.turned(m_dir) == s,
{
}

/// Once the round is lost, no key changes it.
pub proof fn law_lost_round_ignores_keys(g: GameView, code: KeyCode)
    requires
        g.snake.lose_condition != LoseCondition::Alive,
    ensures
        g.keyed(code) == g,
{
}

/// A lost round stays lost: neither a tick nor a turn brings the snake back
/// to life. Only a reset does.
pub proof fn law_loss_is_final(s: SnakeView, delta_micros: u64, m_dir: MovementDir)
    requires
        s.lose_condition != LoseCondition::Alive,
    ensures
        s.updated(delta_micros).lose_condition != LoseCondition::Alive,
        s.turned(m_dir).lose_condition != LoseCondition::Alive,
        SnakeView::initial(s.difficulty, s.boundaries).lose_condition == LoseCondition::Alive,
{
}

/// A running round is over after a tick exactly if the snake has lost by
/// then, and a round that is over is not changed by a tick.
pub proof fn law_round_over(g: GameView, delta_micros: u64, spawn: Vec2D)
    ensures
        g.game_state == GameState::GameOver ==> g.ticked(delta_micros, spawn) == g,
        g.game_state == GameState::Playing ==> (g.ticked(delta_micros, spawn).game_state
            == GameState::GameOver <==> g.ticked(delta_micros, spawn).snake.lose_condition
            != LoseCondition::Alive),
        g.restarted().game_state == GameState::Playing,
        g.restarted().snake.lose_condition == LoseCondition::Alive,
{
}

/// At the border a snake wraps around on `Easy` and dies on the other
/// levels. On `Easy` a tick never loses the round at the border, and a head
/// beyond one side of the field comes back at the opposite side (the field
/// reaching from the origin to a corner with no negative coordinate). On the
/// other levels a head that is outside the field after it has moved loses
/// the round and stays where it is.
pub proof fn law_wrap_or_die(s: SnakeView, delta_micros: u64)
    ensures
        s.difficulty == GameDifficulty::Easy && s.lose_condition != LoseCondition::Border
            ==> s.updated(delta_micros).lose_condition != LoseCondition::Border,
        s.difficulty == GameDifficulty::Easy && s.moved(delta_micros).pos.x > s.boundaries.x
            >= 0 ==> s.updated(delta_micros).pos.x == 0,
        s.difficulty == GameDifficulty::Easy && s.moved(delta_micros).pos.x < 0
            ==> s.updated(delta_micros).pos.x == s.boundaries.x,
        s.difficulty == GameDifficulty::Easy && s.moved(delta_micros).pos.y > s.boundaries.y
            >= 0 ==> s.updated(delta_micros).pos.y == 0,
        s.difficulty == GameDifficulty::Easy && s.moved(delta_micros).pos.y < 0
            ==> s.updated(delta_micros).pos.y == s.boundaries.y,
        s.difficulty != GameDifficulty::Easy && s.moved(delta_micros).out_of_bounds()
            ==> s.updated(delta_micros).lose_condition != LoseCondition::Alive,
        s.difficulty != GameDifficulty::Easy ==> s.updated(delta_micros).pos == s.moved(
            delta_micros,
        ).pos,
{
}

/// A segment along one axis and a segment along the other that cross each
/// other away from their ends are found to cross, whichever way each of them
/// is walked.
pub proof fn law_perpendicular_crossing(a: Vec2D, b: Vec2D, c: Vec2D, d: Vec2D)
    requires
        a.y == b.y,
        c.x == d.x,
        a.x < c.x < b.x || b.x < c.x < a.x,
        c.y < a.y < d.y || d.y < a.y < c.y,
    ensures
        spec_intersect(a, b, c, d),
        spec_intersect(c, d, a, b),
{
    let w = b.x - a.x;
    let h = d.y - c.y;
    let p = c.x - a.x;
    let q = a.y - c.y;
    // `p` lies strictly between zero and `w`, and `q` between zero and `h`
    assert(spec_ccw(a, c, d) == (h * p > 0)) by (nonlinear_arith)
        requires
            spec_ccw(a, c, d) == ((h - q) * p > (-q) * p),
    ;
    assert(spec_ccw(b, c, d) == (h * (p - w) > 0)) by (nonlinear_arith)
        requires
            spec_ccw(b, c, d) == ((h - q) * (p - w) > (-q) * (p - w)),
    ;
    assert(spec_ccw(a, b, c) == ((-q) * w > 0)) by (nonlinear_arith)
        requires
            spec_ccw(a, b, c) == ((-q) * w > 0 * p),
    ;
    assert(spec_ccw(a, b, d) == ((h - q) * w > 0)) by (nonlinear_arith)
        requires
            spec_ccw(a, b, d) == ((h - q) * w > 0 * p),
    ;
    assert(spec_ccw(c, a, b) == (0 > q * w)) by (nonlinear_arith)
        requires
            spec_ccw(c, a, b) == (q * (-p) > q * (w - p)),
    ;
    assert(spec_ccw(d, a, b) == (0 > (q - h) * w)) by (nonlinear_arith)
        requires
            spec_ccw(d, a, b) == ((q - h) * (-p) > (q - h) * (w - p)),
    ;
    assert(spec_ccw(c, d, a) == (0 > h * (-p))) by (nonlinear_arith)
        requires
            spec_ccw(c, d, a) == (q * 0 > h * (-p)),
    ;
    assert(spec_ccw(c, d, b) == (0 > h * (w - p))) by (nonlinear_arith)
        requires
            spec_ccw(c, d, b) == (q * 0 > h * (w - p)),
    ;
    assert((h * p > 0) != (h * (p - w) > 0) && ((-q) * w > 0) != ((h - q) * w > 0) && (0 > q
        * w) != (0 > (q - h) * w) && (0 > h * (-p)) != (0 > h * (w - p))) by (nonlinear_arith)
        requires
            0 < p < w || w < p < 0,
            0 < q < h || h < q < 0,
    ;
}

/// A snake whose head has crossed its trail has lost the round after the
/// tick, whatever happened at the border.
pub proof fn law_crossing_is_lost(s: SnakeView, delta_micros: u64)
    requires
        s.moved(delta_micros).border_checked().crosses_itself(),
    ensures
        s.updated(delta_micros).lose_condition == LoseCondition::SelfIntersect,
{
}

/// Each piece of food lengthens the target of the snake by exactly `5` plus
/// `3` for each level of difficulty, and makes the snake strictly faster, as
/// long as both stay below their greatest values.
pub proof fn law_growth(g: GameView, spawn: Vec2D)
    requires
        -SPEED_MAX <= g.snake.snake_speed <= SPEED_MAX,
        g.snake.snake_len + growth(g.difficulty) <= i64::MAX,
        g.snake.snake_speed + speed_gain(g.snake.snake_speed as int, g.difficulty) <= SPEED_MAX,
    ensures
        g.fed(spawn).snake.snake_len == g.snake.snake_len + 5 * UNIT + 3 * UNIT
            * g.difficulty.index(),
        g.fed(spawn).snake.snake_len > g.snake.snake_len,
        g.fed(spawn).snake.snake_speed == g.snake.snake_speed + speed_gain(
            g.snake.snake_speed as int,
            g.difficulty,
        ),
        g.fed(spawn).snake.snake_speed > g.snake.snake_speed,
        g.fed(spawn).score == g.score + 1 || g.score == usize::MAX,
{
    lemma_speed_gain_positive(g.snake.snake_speed as int, g.difficulty);
}

/// The gain in speed is positive and at most `1.25` times the level.
pub proof fn lemma_speed_gain_positive(speed: int, difficulty: GameDifficulty)
    requires
        speed <= SPEED_MAX,
    ensures
        1 <= speed_gain(speed, difficulty) <= 1_250_000 * (difficulty.index() + 1),
{
    let idx = difficulty.index() as int;
    let over = speed - 32 * UNIT - 10 * UNIT * idx;
    let damping = if over > UNIT {
        over
    } else {
        UNIT as int
    };
    let numerator = 1_250_000 * (idx + 1) * UNIT;
    assert(numerator == 1_250_000_000_000 * (idx + 1));
    assert(1 <= numerator / damping <= 1_250_000 * (idx + 1)) by (nonlinear_arith)
        requires
            1_000_000 <= damping <= 1_000_000_000_000,
            numerator == 1_250_000_000_000 * (idx + 1),
            0 <= idx <= 2,
    ;
}

/// How far the head gets along one axis in one tick, where `d` is the
/// coordinate of the direction on that axis.
pub open spec fn stride(s: SnakeView, delta_micros: u64, d: i64) -> int {
    s.step(delta_micros) * (d / UNIT)
}

/// The head can go `count` ticks straight on without reaching the end of the
/// coordinate range and, on `Easy`, without leaving the field.
pub open spec fn free_run(s: SnakeView, delta_micros: u64, count: nat) -> bool {
    let end_x = s.pos.x + count * stride(s, delta_micros, s.dir.x);
    let end_y = s.pos.y + count * stride(s, delta_micros, s.dir.y);
    &&& s.pos.in_range()
    &&& -COORD_MAX <= end_x <= COORD_MAX
    &&& -COORD_MAX <= end_y <= COORD_MAX
    &&& s.difficulty == GameDifficulty::Easy ==> {
        &&& 0 <= s.pos.x <= s.boundaries.x
        &&& 0 <= s.pos.y <= s.boundaries.y
        &&& 0 <= end_x <= s.boundaries.x
        &&& 0 <= end_y <= s.boundaries.y
    }
}

/// A snake that is not turned moves in a straight line: after `count` ticks
/// of equal length the head has covered `count` times the step of one tick
/// in its direction. This holds as long as the head neither reaches the end
/// of the coordinate range nor, on `Easy`, wraps around the field.
pub proof fn law_straight_line(s: SnakeView, delta_micros: u64, count: nat)
    requires
        is_axis_unit(s.dir),
        free_run(s, delta_micros, count),
    ensures
        s.ticks(delta_micros, count).pos.x == s.pos.x + count * stride(s, delta_micros, s.dir.x),
        s.ticks(delta_micros, count).pos.y == s.pos.y + count * stride(s, delta_micros, s.dir.y),
        s.ticks(delta_micros, count).dir == s.dir,
        s.ticks(delta_micros, count).snake_speed == s.snake_speed,
        s.ticks(delta_micros, count).difficulty == s.difficulty,
        s.ticks(delta_micros, count).boundaries == s.boundaries,
        s.ticks(delta_micros, count).snake_len == s.snake_len,
    decreases count,
{
    if count > 0 {
        let before = (count - 1) as nat;
        let sx = stride(s, delta_micros, s.dir.x);
        let sy = stride(s, delta_micros, s.dir.y);
        lemma_between(before as int, count as int, sx);
        lemma_between(before as int, count as int, sy);
        law_straight_line(s, delta_micros, before);
        let t = s.ticks(delta_micros, before);
        lemma_stride(s, delta_micros, s.dir.x);
        lemma_stride(s, delta_micros, s.dir.y);
        assert(t.step(delta_micros) == s.step(delta_micros));
        assert(count * sx == before * sx + sx) by (nonlinear_arith)
            requires
                count == before + 1,
        ;
        assert(count * sy == before * sy + sy) by (nonlinear_arith)
            requires
                count == before + 1,
        ;
        let m = t.moved(delta_micros);
        assert(m.pos.x == t.pos.x + sx);
        assert(m.pos.y == t.pos.y + sy);
        assert(m.border_checked().pos == m.pos);
    }
}

/// Between no step and `n` steps of `stride` lie `k` steps, for `k` up to
/// `n`.
pub proof fn lemma_between(k: int, n: int, stride: int)
    requires
        0 <= k <= n,
    ensures
        stride >= 0 ==> 0 <= k * stride <= n * stride,
        stride <= 0 ==> n * stride <= k * stride <= 0,
{
    assert(stride >= 0 ==> 0 <= k * stride <= n * stride) by (nonlinear_arith)
        requires
            0 <= k <= n,
    ;
    assert(stride <= 0 ==> n * stride <= k * stride <= 0) by (nonlinear_arith)
        requires
            0 <= k <= n,
    ;
}

/// Along an axis direction the head advances by the whole step, forward or
/// backward, or not at all.
pub proof fn lemma_stride(s: SnakeView, delta_micros: u64, d: i64)
    requires
        d == 0 || d == UNIT || d == -UNIT,
    ensures
        div_trunc(s.step(delta_micros) * d, UNIT as int) == stride(s, delta_micros, d),
        d == 0 ==> stride(s, delta_micros, d) == 0,
        d == UNIT ==> stride(s, delta_micros, d) == s.step(delta_micros),
        d == -UNIT ==> stride(s, delta_micros, d) == -s.step(delta_micros),
{
    let step = s.step(delta_micros);
    if d == 0 {
        assert(step * d == 0) by (nonlinear_arith)
            requires
                d == 0,
        ;
        assert(step * (d / UNIT) == 0) by (nonlinear_arith)
            requires
                d / UNIT == 0,
        ;
    } else if d == UNIT {
        assert(d / UNIT == 1);
        assert(step * (d / UNIT) == step) by (nonlinear_arith)
            requires
                d / UNIT == 1,
        ;
        assert(step * d == step * 1_000_000) by (nonlinear_arith)
            requires
                d == 1_000_000,
        ;
    } else {
        assert(d / UNIT == -1);
        assert(step * (d / UNIT) == -step) by (nonlinear_arith)
            requires
                d / UNIT == -1,
        ;
        assert(step * d == step * (-1_000_000)) by (nonlinear_arith)
            requires
                d == -1_000_000,
        ;
    }
}

/// A tick keeps a snake well-formed. It adds no corner, and shortening the
/// trail never makes it longer.
pub proof fn law_update_keeps_wf(s: SnakeView, delta_micros: u64)
    requires
        s.wf(),
    ensures
        s.moved(delta_micros).wf(),
        s.updated(delta_micros).wf(),
        s.updated(delta_micros).corners.len() <= s.corners.len(),
        s.moved(delta_micros).measured_length() <= s.stretched_length(delta_micros),
{
    lemma_retracted_in_range(s.advanced_head(delta_micros), s.corners, s.snake_len as int);
}

/// Shortening the trail leaves no empty segment behind: if the last corner
/// of the trail was moved, it does not lie on the point it follows. Segments
/// that are used up are removed with their corners.
pub proof fn law_no_empty_segment(s: SnakeView, delta_micros: u64)
    requires
        s.wf(),
    ensures
        ({
            let m = s.moved(delta_micros);
            m.corners.len() > 0 && m.corners.last() != s.corners[m.corners.len() - 1]
                ==> m.corners.last() != follow_target(m.pos, m.corners, m.corners.len() - 1)
        }),
{
    lemma_retracted_no_empty_segment(
        s.advanced_head(delta_micros),
        s.corners,
        s.snake_len as int,
    );
}

/// A tick stretches the trail by no more than the head moves: before the
/// trail is shortened, it exceeds what it measured before the tick by no
/// more than the step of the tick.
pub proof fn law_stretch_is_bounded(s: SnakeView, delta_micros: u64)
    requires
        s.wf(),
    ensures
        s.stretched_length(delta_micros) <= s.measured_length() + abs(s.step(delta_micros)),
{
    let head = s.advanced_head(delta_micros);
    lemma_stride(s, delta_micros, s.dir.x);
    lemma_stride(s, delta_micros, s.dir.y);
    assert(abs(head.x - s.pos.x) + abs(head.y - s.pos.y) <= abs(s.step(delta_micros)));
    if s.corners.len() > 0 {
        lemma_path_len_split(head, s.corners);
        lemma_path_len_split(s.pos, s.corners);
        lemma_dist_after_axis_move(s.pos, head, s.corners[0]);
    }
}

/// The trail of every snake follows its target length, up to the tolerance:
/// after a tick in which the head does not wrap around the field, a trail
/// that was stretched beyond its target is no longer than the target (than
/// zero, if the target is negative) and the tolerance of its excess. Of an
/// aligned snake `law_length_converges` says more.
pub proof fn law_length_is_bounded(s: SnakeView, delta_micros: u64)
    requires
        s.wf(),
        s.keeps_course(delta_micros),
    ensures
        s.updated(delta_micros).measured_length() <= if s.stretched_length(delta_micros)
            <= s.snake_len {
            s.stretched_length(delta_micros)
        } else if s.snake_len < 0 {
            tolerance(s.stretched_length(delta_micros) - s.snake_len)
        } else {
            s.snake_len + tolerance(s.stretched_length(delta_micros) - s.snake_len)
        },
{
    let head = s.advanced_head(delta_micros);
    lemma_retracted_tolerance(head, s.corners, s.snake_len as int);
    let m = s.moved(delta_micros);
    assert(m.border_checked().pos == m.pos);
    assert(m.border_checked().corners == m.corners);
}

/// A turn keeps a snake well-formed and aligned.
pub proof fn law_turn_keeps_aligned(s: SnakeView, m_dir: MovementDir)
    requires
        s.wf(),
        s.aligned(),
    ensures
        s.turned(m_dir).wf(),
        s.turned(m_dir).aligned(),
{
    let t = s.turned(m_dir);
    if !s.ignores_turn(m_dir) {
        assert(rectilinear(t.pos, t.corners)) by {
            assert forall|i: int| 0 <= i < t.corners.len() implies #[trigger] segment_axis_parallel(
                t.pos,
                t.corners,
                i,
            ) by {
                if i == 1 {
                    assert(segment_axis_parallel(s.pos, s.corners, 0));
                } else if i > 1 {
                    assert(segment_axis_parallel(s.pos, s.corners, i - 1));
                }
            }
        }
    }
}

/// The head of an aligned snake advances along the segment that joins it to
/// the newest corner, so that the trail stays one of axis-parallel segments.
pub proof fn lemma_advance_keeps_aligned(s: SnakeView, delta_micros: u64)
    requires
        s.wf(),
        s.aligned(),
    ensures
        rectilinear(s.advanced_head(delta_micros), s.corners),
        s.dir.x == 0 ==> s.advanced_head(delta_micros).x == s.pos.x,
        s.dir.y == 0 ==> s.advanced_head(delta_micros).y == s.pos.y,
{
    let head = s.advanced_head(delta_micros);
    lemma_stride(s, delta_micros, s.dir.x);
    lemma_stride(s, delta_micros, s.dir.y);
    assert forall|i: int| 0 <= i < s.corners.len() implies #[trigger] segment_axis_parallel(
        head,
        s.corners,
        i,
    ) by {
        assert(segment_axis_parallel(s.pos, s.corners, i));
    }
}

/// A tick keeps a snake well-formed and aligned. On `Easy` this holds of a
/// snake whose head is inside a field that reaches from the origin to a
/// corner with no negative coordinate, and the tick leaves the head inside.
pub proof fn law_tick_keeps_aligned(s: SnakeView, delta_micros: u64)
    requires
        s.wf(),
        s.aligned(),
        s.difficulty == GameDifficulty::Easy ==> !s.out_of_bounds() && s.boundaries.x >= 0
            && s.boundaries.y >= 0,
    ensures
        s.updated(delta_micros).wf(),
        s.updated(delta_micros).aligned(),
        s.difficulty == GameDifficulty::Easy ==> !s.updated(delta_micros).out_of_bounds(),
{
    let head = s.advanced_head(delta_micros);
    lemma_advance_keeps_aligned(s, delta_micros);
    lemma_retracted_length(head, s.corners, s.snake_len as int);
    let m = s.moved(delta_micros);
    let b = m.border_checked();
    assert(b.corners == m.corners);
    assert(s.dir.x == 0 ==> b.pos.x == head.x);
    assert(s.dir.y == 0 ==> b.pos.y == head.y);
    assert(rectilinear(b.pos, b.corners)) by {
        assert forall|i: int| 0 <= i < b.corners.len() implies #[trigger] segment_axis_parallel(
            b.pos,
            b.corners,
            i,
        ) by {
            assert(segment_axis_parallel(head, m.corners, i));
        }
    }
}

/// The trail follows its target length. After a tick the trail of an aligned
/// snake is as long as its target, or shorter if it was too short to reach
/// it. The snake stays well-formed and aligned. This holds of ticks in which
/// the head does not wrap around the field, and for a target that is not
/// negative.
pub proof fn law_length_converges(s: SnakeView, delta_micros: u64)
    requires
        s.wf(),
        s.aligned(),
        s.keeps_course(delta_micros),
        s.snake_len >= 0,
    ensures
        s.updated(delta_micros).measured_length() <= s.snake_len,
        s.updated(delta_micros).measured_length() == if s.stretched_length(delta_micros)
            <= s.snake_len {
            s.stretched_length(delta_micros)
        } else {
            s.snake_len as int
        },
        s.updated(delta_micros).wf(),
        s.updated(delta_micros).aligned(),
{
    let head = s.advanced_head(delta_micros);
    lemma_advance_keeps_aligned(s, delta_micros);
    lemma_retracted_length(head, s.corners, s.snake_len as int);
    let m = s.moved(delta_micros);
    assert(m.border_checked().pos == m.pos);
    assert(m.border_checked().corners == m.corners);
}

/// Nothing that happens to a snake changes its difficulty, its boundaries or
/// its target length.
pub proof fn law_play_keeps_settings(s: SnakeView, actions: Seq<Action>)
    ensures
        s.played(actions).difficulty == s.difficulty,
        s.played(actions).boundaries == s.boundaries,
        s.played(actions).snake_len == s.snake_len,
        s.played(actions).snake_speed == s.snake_speed,
    decreases actions.len(),
{
    if actions.len() > 0 {
        law_play_keeps_settings(s, actions.drop_last());
    }
}

/// Only on `Easy` does a head ever wrap around the field.
pub proof fn law_no_wrap_off_easy(s: SnakeView, actions: Seq<Action>)
    requires
        s.difficulty != GameDifficulty::Easy,
    ensures
        s.on_course(actions),
{
    assert forall|k: int| 0 <= k < actions.len() implies match #[trigger] actions[k] {
        Action::Tick(delta_micros) => s.played(actions.take(k)).keeps_course(delta_micros),
        Action::Turn(_) => true,
    } by {
        law_play_keeps_settings(s, actions.take(k));
    }
}

/// Through a whole round the trail stays within its target. A snake that is
/// aligned and not longer than its target stays so under every sequence of
/// ticks and turns in which the head does not wrap around the field: after
/// each of them it is well-formed, aligned and no longer than its target.
pub proof fn law_play_keeps_length(s: SnakeView, actions: Seq<Action>)
    requires
        s.wf(),
        s.aligned(),
        0 <= s.measured_length() <= s.snake_len,
        s.on_course(actions),
    ensures
        s.played(actions).wf(),
        s.played(actions).aligned(),
        s.played(actions).measured_length() <= s.snake_len,
        s.played(actions).snake_len == s.snake_len,
    decreases actions.len(),
{
    if actions.len() > 0 {
        let before = actions.drop_last();
        let n = before.len() as int;
        assert forall|k: int| 0 <= k < before.len() implies match #[trigger] before[k] {
            Action::Tick(delta_micros) => s.played(before.take(k)).keeps_course(delta_micros),
            Action::Turn(_) => true,
        } by {
            assert(before[k] == actions[k]);
            assert(before.take(k) =~= actions.take(k));
        }
        law_play_keeps_length(s, before);
        let t = s.played(before);
        assert(actions.take(n) =~= before);
        match actions[n] {
            Action::Tick(delta_micros) => {
                law_length_converges(t, delta_micros);
            },
            Action::Turn(m_dir) => {
                law_turn_keeps_aligned(t, m_dir);
                if !t.ignores_turn(m_dir) {
                    law_turn_accepted(t, m_dir);
                }
            },
        }
    }
}

/// Whatever happens to a well-formed round leaves it well-formed: a tick,
/// with new food at a point in range, a key, a change of difficulty and a
/// restart.
pub proof fn law_round_keeps_wf(
    g: GameView,
    delta_micros: u64,
    spawn: Vec2D,
    code: KeyCode,
    d: GameDifficulty,
)
    requires
        g.wf(),
        spawn.in_range(),
    ensures
        g.ticked(delta_micros, spawn).wf(),
        g.keyed(code).wf(),
        g.with_difficulty(d).wf(),
        g.restarted().wf(),
{
    law_update_keeps_wf(g.snake, delta_micros);
}

} // verus!
