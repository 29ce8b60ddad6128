//! The snake: a moving head and the trail of corners behind it.

use vstd::prelude::*;
use crate::game::game::GameDifficulty;
use crate::game::slide::lemma_slide_in_range;
use crate::game::trail::{
    all_in_range, follow_target, path_len, rectilinear, retracted, lemma_path_len_step,
    lemma_path_len_bound, lemma_retracted_fits, lemma_retracted_drop, lemma_retracted_slide,
};
use crate::utils::fixed::{UNIT, COORD_MAX, clamp, div_trunc};
use crate::utils::keys::KeyCode;
use crate::utils::vec2d::{
    offset, Vec2D, lemma_dist_bound, lemma_dist_symmetric, lemma_dist_is_offset_len,
};

verus! {

/// Why a round was lost, if it was.
#[derive(Copy, Clone, Debug, PartialEq, Eq, Structural)]
pub enum LoseCondition {
    /// The round is not lost.
    Alive,
    /// The head left the field.
    Border,
    /// The head crossed the trail.
    SelfIntersect,
}

/// One of the four directions the snake can move in.
#[derive(Copy, Clone, Debug, PartialEq, Eq, Structural)]
pub enum MovementDir {
    Up,
    Left,
    Down,
    Right,
}

impl MovementDir {
    /// The position of the direction in the order `Up`, `Left`, `Down`,
    /// `Right`: vertical directions are even, horizontal ones odd.
    pub open spec fn index(self) -> nat {
        match self {
            MovementDir::Up => 0,
            MovementDir::Left => 1,
            MovementDir::Down => 2,
            MovementDir::Right => 3,
        }
    }

    /// The unit vector of the direction.
    pub open spec fn vector(self) -> Vec2D {
        match self {
            MovementDir::Up => Vec2D { x: 0, y: UNIT },
            MovementDir::Down => Vec2D { x: 0, y: (-UNIT) as i64 },
            MovementDir::Left => Vec2D { x: (-UNIT) as i64, y: 0 },
            MovementDir::Right => Vec2D { x: UNIT, y: 0 },
        }
    }

    /// The direction that points the other way.
    pub open spec fn opposite(self) -> MovementDir {
        match self {
            MovementDir::Up => MovementDir::Down,
            MovementDir::Down => MovementDir::Up,
            MovementDir::Left => MovementDir::Right,
            MovementDir::Right => MovementDir::Left,
        }
    }

    /// The direction whose unit vector is `d`; `Up` where there is none.
    pub open spec fn of_vector(d: Vec2D) -> MovementDir {
        if d == MovementDir::Down.vector() {
            MovementDir::Down
        } else if d == MovementDir::Left.vector() {
            MovementDir::Left
        } else if d == MovementDir::Right.vector() {
            MovementDir::Right
        } else {
            MovementDir::Up
        }
    }

    /// Reads a direction from its unit vector. A vector that is none of the
    /// four counts as `Up`.
    pub fn from_vec2d(d: &Vec2D) -> (m: MovementDir)
        ensures
            m == Self::of_vector(*d),
    {
        if d.x == 0 && d.y == UNIT {
            return MovementDir::Up;
        } else if d.x == 0 && d.y == -UNIT {
            return MovementDir::Down;
        } else if d.x == -UNIT && d.y == 0 {
            return MovementDir::Left;
        } else if d.x == UNIT && d.y == 0 {
            return MovementDir::Right;
        }
        MovementDir::Up
    }

    /// The position of the direction in the order of the directions.
    pub fn as_idx(&self) -> (idx: usize)
        ensures
            idx == self.index(),
    {
        match self {
            MovementDir::Up => 0,
            MovementDir::Left => 1,
            MovementDir::Down => 2,
            MovementDir::Right => 3,
        }
    }

    /// Two directions oppose each other when they lie on the same axis.
    pub fn opposing_directions(a: MovementDir, b: MovementDir) -> (r: bool)
        ensures
            r == (a.index() % 2 == b.index() % 2),
    {
        a.as_idx() % 2 == b.as_idx() % 2
    }

    /// The unit vector of the direction.
    pub fn to_vec2d(&self) -> (v: Vec2D)
        ensures
            v == self.vector(),
    {
        match self {
            MovementDir::Up => Vec2D { x: 0, y: UNIT },
            MovementDir::Down => Vec2D { x: 0, y: -UNIT },
            MovementDir::Left => Vec2D { x: -UNIT, y: 0 },
            MovementDir::Right => Vec2D { x: UNIT, y: 0 },
        }
    }
}

/// What can happen to a snake in the course of a round.
#[derive(Copy, Clone, Debug, PartialEq, Eq, Structural)]
pub enum Action {
    /// Time passes: so many microseconds.
    Tick(u64),
    /// A turn is asked for.
    Turn(MovementDir),
}

/// The greatest speed, in either direction, that a snake may have.
pub const SPEED_MAX: i64 = 1_000_000_000_000;

/// The speed of a snake at the start of a round.
pub const START_SPEED: i64 = 25_000_000;

/// The coordinate, on both axes, of the head at the start of a round.
pub const START_COORD: i64 = 50_000_000;

/// The snake. The corners of its trail are ordered newest first: the first is
/// the turn made last, the last is the end of the tail.
pub struct Snake {
    pub difficulty: GameDifficulty,
    pub pos: Vec2D,
    pub dir: Vec2D,
    pub snake_speed: i64,
    pub lose_condition: LoseCondition,
    pub snake_len: i64,
    /// The far corner of the field; the near one is the origin.
    pub boundaries: Vec2D,
    pub corners: Vec<Vec2D>,
}

/// The state of a snake as a mathematical value.
pub struct SnakeView {
    pub difficulty: GameDifficulty,
    pub pos: Vec2D,
    pub dir: Vec2D,
    pub snake_speed: i64,
    pub lose_condition: LoseCondition,
    pub snake_len: i64,
    pub boundaries: Vec2D,
    pub corners: Seq<Vec2D>,
}

/// `d` is the unit vector of one of the four directions.
pub open spec fn is_axis_unit(d: Vec2D) -> bool {
    ||| d == MovementDir::Up.vector()
    ||| d == MovementDir::Down.vector()
    ||| d == MovementDir::Left.vector()
    ||| d == MovementDir::Right.vector()
}

impl SnakeView {
    /// The state at the start of a round.
    pub open spec fn initial(difficulty: GameDifficulty, boundaries: Vec2D) -> SnakeView {
        SnakeView {
            difficulty,
            pos: Vec2D { x: START_COORD, y: START_COORD },
            dir: Vec2D { x: UNIT, y: 0 },
            snake_speed: START_SPEED,
            lose_condition: LoseCondition::Alive,
            snake_len: 0,
            boundaries,
            corners: Seq::empty(),
        }
    }

    /// All points lie in the coordinate range, the direction is one of the
    /// four unit vectors, and the speed is within its limit.
    pub open spec fn wf(self) -> bool {
        &&& self.pos.in_range()
        &&& self.boundaries.in_range()
        &&& all_in_range(self.corners)
        &&& is_axis_unit(self.dir)
        &&& -SPEED_MAX <= self.snake_speed <= SPEED_MAX
    }

    /// The length of the trail as it is: from the head through every corner.
    pub open spec fn measured_length(self) -> int {
        path_len(self.pos, self.corners)
    }

    /// The distance that the head covers in `delta_micros` microseconds.
    pub open spec fn step(self, delta_micros: u64) -> int {
        div_trunc(self.snake_speed * delta_micros, UNIT as int)
    }

    /// Where the head is after `delta_micros` microseconds: one step further
    /// in its direction, but not beyond the coordinate range.
    pub open spec fn advanced_head(self, delta_micros: u64) -> Vec2D {
        let step = self.step(delta_micros);
        Vec2D {
            x: clamp(
                self.pos.x + div_trunc(step * self.dir.x, UNIT as int),
                -COORD_MAX as int,
                COORD_MAX as int,
            ) as i64,
            y: clamp(
                self.pos.y + div_trunc(step * self.dir.y, UNIT as int),
                -COORD_MAX as int,
                COORD_MAX as int,
            ) as i64,
        }
    }

    /// The snake after its head has advanced and its trail has been shortened
    /// to the target length.
    pub open spec fn moved(self, delta_micros: u64) -> SnakeView {
        let head = self.advanced_head(delta_micros);
        SnakeView {
            pos: head,
            corners: retracted(head, self.corners, self.snake_len as int),
            ..self
        }
    }

    /// The head lies outside the field.
    pub open spec fn out_of_bounds(self) -> bool {
        ||| self.pos.x < 0
        ||| self.pos.x > self.boundaries.x
        ||| self.pos.y < 0
        ||| self.pos.y > self.boundaries.y
    }

    /// The snake with a head that left the field on one side put back on the
    /// opposite side.
    pub open spec fn wrapped(self) -> SnakeView {
        SnakeView {
            pos: Vec2D {
                x: wrap_coordinate(self.pos.x, self.boundaries.x),
                y: wrap_coordinate(self.pos.y, self.boundaries.y),
            },
            ..self
        }
    }

    /// The snake after the border rule: on `Easy` the head wraps around, on
    /// the other levels a head outside the field loses the round.
    pub open spec fn border_checked(self) -> SnakeView {
        if self.difficulty == GameDifficulty::Easy {
            self.wrapped()
        } else if self.out_of_bounds() {
            SnakeView { lose_condition: LoseCondition::Border, ..self }
        } else {
            self
        }
    }

    /// The segment from the head to the newest corner crosses a segment of
    /// the trail beyond the next one.
    pub open spec fn crosses_itself(self) -> bool {
        exists|i: int|
            1 <= i < self.corners.len() - 1 && #[trigger] spec_intersect(
                self.pos,
                self.corners[0],
                self.corners[i],
                self.corners[i + 1],
            )
    }

    /// The snake after the rule against crossing its own trail.
    pub open spec fn intersect_checked(self) -> SnakeView {
        if self.crosses_itself() {
            SnakeView { lose_condition: LoseCondition::SelfIntersect, ..self }
        } else {
            self
        }
    }

    /// The snake one tick of `delta_micros` microseconds later.
    pub open spec fn updated(self, delta_micros: u64) -> SnakeView {
        self.moved(delta_micros).border_checked().intersect_checked()
    }

    /// The snake `count` ticks of `delta_micros` microseconds later.
    pub open spec fn ticks(self, delta_micros: u64, count: nat) -> SnakeView
        decreases count,
    {
        if count == 0 {
            self
        } else {
            self.ticks(delta_micros, (count - 1) as nat).updated(delta_micros)
        }
    }

    /// Every segment of the trail runs along an axis, and the segment from
    /// the head to the newest corner runs along the axis the head moves on.
    /// A snake is so at the start of a round, and stays so while it is
    /// turned and moved inside the field.
    pub open spec fn aligned(self) -> bool {
        &&& rectilinear(self.pos, self.corners)
        &&& self.corners.len() > 0 ==> {
            &&& self.dir.x == 0 ==> self.pos.x == self.corners[0].x
            &&& self.dir.y == 0 ==> self.pos.y == self.corners[0].y
        }
    }

    /// The tick of `delta_micros` microseconds does not make the head wrap
    /// around the field.
    pub open spec fn keeps_course(self, delta_micros: u64) -> bool {
        self.difficulty == GameDifficulty::Easy ==> !self.moved(delta_micros).out_of_bounds()
    }

    /// The length of the trail after the head has advanced and before the
    /// trail is shortened.
    pub open spec fn stretched_length(self, delta_micros: u64) -> int {
        path_len(self.advanced_head(delta_micros), self.corners)
    }

    /// The snake after `action`.
    pub open spec fn acted(self, action: Action) -> SnakeView {
        match action {
            Action::Tick(delta_micros) => self.updated(delta_micros),
            Action::Turn(m_dir) => self.turned(m_dir),
        }
    }

    /// The snake after all of `actions`, one after the other.
    pub open spec fn played(self, actions: Seq<Action>) -> SnakeView
        decreases actions.len(),
    {
        if actions.len() == 0 {
            self
        } else {
            self.played(actions.drop_last()).acted(actions.last())
        }
    }

    /// In the course of `actions` no tick makes the head wrap around the
    /// field.
    pub open spec fn on_course(self, actions: Seq<Action>) -> bool {
        forall|k: int|
            0 <= k < actions.len() ==> match #[trigger] actions[k] {
                Action::Tick(delta_micros) => self.played(actions.take(k)).keeps_course(
                    delta_micros,
                ),
                Action::Turn(_) => true,
            }
    }

    /// A request to turn is ignored when the round is lost or when the
    /// requested direction lies on the axis of the current one.
    pub open spec fn ignores_turn(self, m_dir: MovementDir) -> bool {
        ||| self.lose_condition != LoseCondition::Alive
        ||| MovementDir::of_vector(self.dir).index() % 2 == m_dir.index() % 2
    }

    /// The snake after a request to turn: unless the request is ignored, the
    /// head takes the new direction and its position becomes the newest
    /// corner.
    pub open spec fn turned(self, m_dir: MovementDir) -> SnakeView {
        if self.ignores_turn(m_dir) {
            self
        } else {
            SnakeView { dir: m_dir.vector(), corners: self.corners.insert(0, self.pos), ..self }
        }
    }
}

/// A coordinate below zero becomes `bound`, one above `bound` becomes zero.
pub open spec fn wrap_coordinate(c: i64, bound: i64) -> i64 {
    if c < 0 {
        bound
    } else if c > bound {
        0
    } else {
        c
    }
}

/// The turn from `a` over `b` to `c` is counter-clockwise.
pub open spec fn spec_ccw(a: Vec2D, b: Vec2D, c: Vec2D) -> bool {
    (c.y - a.y) * (b.x - a.x) > (b.y - a.y) * (c.x - a.x)
}

/// The segments `a b` and `c d` cross: the ends of each lie on different
/// sides of the other.
pub open spec fn spec_intersect(a: Vec2D, b: Vec2D, c: Vec2D, d: Vec2D) -> bool {
    spec_ccw(a, c, d) != spec_ccw(b, c, d) && spec_ccw(a, b, c) != spec_ccw(a, b, d)
}

/// Tells whether the turn from `a` over `b` to `c` is counter-clockwise, by
/// the sign of a cross product.
pub fn ccw(a: Vec2D, b: Vec2D, c: Vec2D) -> (r: bool)
    requires
        a.in_range(),
        b.in_range(),
        c.in_range(),
    ensures
        r == spec_ccw(a, b, c),
{
    let cy: i128 = (c.y - a.y) as i128;
    let bx: i128 = (b.x - a.x) as i128;
    let by: i128 = (b.y - a.y) as i128;
    let cx: i128 = (c.x - a.x) as i128;
    proof {
        lemma_offset_product(cy as int, bx as int);
        lemma_offset_product(by as int, cx as int);
    }
    cy * bx > by * cx
}

/// Tells whether the segments `a b` and `c d` cross.
pub fn intersect(a: Vec2D, b: Vec2D, c: Vec2D, d: Vec2D) -> (r: bool)
    requires
        a.in_range(),
        b.in_range(),
        c.in_range(),
        d.in_range(),
    ensures
        r == spec_intersect(a, b, c, d),
{
    ccw(a, c, d) != ccw(b, c, d) && ccw(a, b, c) != ccw(a, b, d)
}

/// The product of two coordinates of offsets is bounded.
pub proof fn lemma_offset_product(a: int, b: int)
    requires
        -2 * COORD_MAX <= a <= 2 * COORD_MAX,
        -2 * COORD_MAX <= b <= 2 * COORD_MAX,
    ensures
        -4_000_000_000_000_000_000_000_000 <= a * b <= 4_000_000_000_000_000_000_000_000,
{
    assert(-4_000_000_000_000_000_000_000_000 <= a * b <= 4_000_000_000_000_000_000_000_000)
        by (nonlinear_arith)
        requires
            -2_000_000_000_000 <= a <= 2_000_000_000_000,
            -2_000_000_000_000 <= b <= 2_000_000_000_000,
    ;
}

/// The direction that a key asks for, if any.
pub open spec fn key_direction(code: KeyCode) -> Option<MovementDir> {
    match code {
        KeyCode::Char(c) => if c == 'w' {
            Some(MovementDir::Up)
        } else if c == 's' {
            Some(MovementDir::Down)
        } else if c == 'a' {
            Some(MovementDir::Left)
        } else if c == 'd' {
            Some(MovementDir::Right)
        } else {
            None
        },
        _ => None,
    }
}

/// The product of a speed within its limit and a time is bounded.
pub proof fn lemma_step_fits(speed: int, delta: int)
    requires
        -SPEED_MAX <= speed <= SPEED_MAX,
        0 <= delta <= u64::MAX,
    ensures
        -0x1_0000_0000_0000_0000 * SPEED_MAX <= speed * delta <= 0x1_0000_0000_0000_0000
            * SPEED_MAX,
{
    assert(-0x1_0000_0000_0000_0000 * 1_000_000_000_000 <= speed * delta
        <= 0x1_0000_0000_0000_0000 * 1_000_000_000_000) by (nonlinear_arith)
        requires
            -1_000_000_000_000 <= speed <= 1_000_000_000_000,
            0 <= delta <= 0xffff_ffff_ffff_ffff,
    ;
}

/// A length that came out of a division by `UNIT` can be multiplied by a
/// coordinate of a unit vector.
pub proof fn lemma_displacement_fits(step: int, d: int)
    requires
        -0x1_0000_0000_0000_0000_0000_0000 <= step <= 0x1_0000_0000_0000_0000_0000_0000,
        -UNIT <= d <= UNIT,
    ensures
        i128::MIN <= step * d <= i128::MAX,
{
    assert(i128::MIN <= step * d <= i128::MAX) by (nonlinear_arith)
        requires
            -0x1_0000_0000_0000_0000_0000_0000 <= step <= 0x1_0000_0000_0000_0000_0000_0000,
            -1_000_000 <= d <= 1_000_000,
    ;
}

/// Limits a coordinate to the coordinate range.
fn clamp_coord(v: i128) -> (r: i64)
    ensures
        r == clamp(v as int, -COORD_MAX as int, COORD_MAX as int),
{
    if v < -(COORD_MAX as i128) {
        -COORD_MAX
    } else if v > COORD_MAX as i128 {
        COORD_MAX
    } else {
        v as i64
    }
}

impl View for Snake {
    type V = SnakeView;

    open spec fn view(&self) -> SnakeView {
        SnakeView {
            difficulty: self.difficulty,
            pos: self.pos,
            dir: self.dir,
            snake_speed: self.snake_speed,
            lose_condition: self.lose_condition,
            snake_len: self.snake_len,
            boundaries: self.boundaries,
            corners: self.corners@,
        }
    }
}

impl Snake {
    /// A snake at the start of a round, on a field that reaches from the
    /// origin to `boundaries`.
    pub fn new(difficulty: GameDifficulty, boundaries: Vec2D) -> (s: Snake)
        ensures
            s@ == SnakeView::initial(difficulty, boundaries),
    {
        Snake {
            difficulty,
            pos: Vec2D::new(START_COORD, START_COORD),
            dir: Vec2D::new(UNIT, 0),
            snake_speed: START_SPEED,
            snake_len: 0,
            lose_condition: LoseCondition::Alive,
            boundaries,
            corners: Vec::new(),
        }
    }

    /// Starts a new round: everything but the difficulty and the boundaries
    /// returns to its initial value.
    pub fn reset(&mut self)
        ensures
            final(self)@ == SnakeView::initial(old(self)@.difficulty, old(self)@.boundaries),
    {
        self.pos = Vec2D::new(START_COORD, START_COORD);
        self.dir = Vec2D::new(UNIT, 0);
        self.snake_speed = START_SPEED;
        self.snake_len = 0;
        self.corners = Vec::new();
        self.lose_condition = LoseCondition::Alive;
    }

    /// Applies a key: `w`, `a`, `s` and `d` ask for a turn up, left, down
    /// and right; every other key is ignored.
    pub fn handle_event(&mut self, code: KeyCode)
        ensures
            final(self)@ == match key_direction(code) {
                Some(m_dir) => old(self)@.turned(m_dir),
                None => old(self)@,
            },
            old(self)@.wf() ==> final(self)@.wf(),
    {
        match code {
            KeyCode::Char(c) => {
                if c == 'w' {
                    self.change_movement_dir(MovementDir::Up);
                } else if c == 's' {
                    self.change_movement_dir(MovementDir::Down);
                } else if c == 'a' {
                    self.change_movement_dir(MovementDir::Left);
                } else if c == 'd' {
                    self.change_movement_dir(MovementDir::Right);
                }
            },
            _ => {},
        }
    }

    /// Advances the snake by one tick of `delta_micros` microseconds: the
    /// head moves, the trail is shortened to the target length, then the
    /// border rule and the rule against crossing the trail are applied.
    pub fn update(&mut self, delta_micros: u64)
        requires
            old(self)@.wf(),
        ensures
            final(self)@ == old(self)@.updated(delta_micros),
            final(self)@.wf(),
    {
        self.move_snake(delta_micros);
        self.check_border();
        self.snake_self_intersect();
    }

    /// Asks for a turn into `m_dir`.
    pub fn change_movement_dir(&mut self, m_dir: MovementDir)
        ensures
            final(self)@ == old(self)@.turned(m_dir),
            old(self)@.wf() ==> final(self)@.wf(),
    {
        if self.lose_condition != LoseCondition::Alive {
            return ;
        }
        let current_m_dir: MovementDir = MovementDir::from_vec2d(&self.dir);

        if MovementDir::opposing_directions(current_m_dir, m_dir) {
            return ;
        }
        self.dir = m_dir.to_vec2d();
        self.corners.insert(0, self.pos);
    }

    /// Moves the head and shortens the trail to the target length.
    pub fn move_snake(&mut self, delta_micros: u64)
        requires
            old(self)@.wf(),
        ensures
            final(self)@ == old(self)@.moved(delta_micros),
            final(self)@.wf(),
    {
        let unit: i128 = UNIT as i128;
        proof {
            lemma_step_fits(self.snake_speed as int, delta_micros as int);
        }
        let step: i128 = (self.snake_speed as i128 * delta_micros as i128) / unit;
        proof {
            lemma_displacement_fits(step as int, self.dir.x as int);
            lemma_displacement_fits(step as int, self.dir.y as int);
        }
        let dx: i128 = (step * self.dir.x as i128) / unit;
        let dy: i128 = (step * self.dir.y as i128) / unit;
        self.pos.x = clamp_coord(self.pos.x as i128 + dx);
        self.pos.y = clamp_coord(self.pos.y as i128 + dy);

        let target: i128 = self.snake_len as i128;
        let mut current_len: i128 = self.calc_snake_length();
        let ghost head = self.pos;
        let ghost start = self.corners@;
        loop
            invariant_except_break
                current_len == path_len(head, self.corners@),
                retracted(head, self.corners@, target as int) == retracted(
                    head,
                    start,
                    target as int,
                ),
            invariant
                unit == UNIT,
                self.pos == head,
                head.in_range(),
                all_in_range(self.corners@),
                target == old(self).snake_len,
                self@ == (SnakeView { pos: head, corners: self.corners@, ..old(self)@ }),
            ensures
                self.corners@ == retracted(head, start, target as int),
            decreases self.corners.len(),
        {
            if current_len <= target || self.corners.is_empty() {
                proof {
                    lemma_retracted_fits(head, self.corners@, target as int);
                }
                break ;
            }
            proof {
                lemma_path_len_bound(head, self.corners@);
                assert(self.corners@.len() * (3 * COORD_MAX) <= 0xffff_ffff_ffff_ffff * (3
                    * COORD_MAX)) by (nonlinear_arith)
                    requires
                        0 <= self.corners@.len() <= 0xffff_ffff_ffff_ffff,
                ;
            }
            let excess: i128 = current_len - target;
            let last_idx: usize = self.corners.len() - 1;
            let follow: Vec2D = if last_idx == 0 {
                self.pos
            } else {
                self.corners[last_idx - 1]
            };
            let last_corner: Vec2D = self.corners[last_idx];
            assert(follow == follow_target(head, self.corners@, last_idx as int));
            assert(follow.in_range());
            let dist_to_target: i128 = Vec2D::dist(follow, last_corner) as i128;

            if dist_to_target <= excess {
                proof {
                    lemma_retracted_drop(head, self.corners@, target as int);
                }
                self.corners.pop();
                current_len = current_len - dist_to_target;
            } else {
                proof {
                    lemma_retracted_slide(head, self.corners@, target as int);
                    lemma_dist_symmetric(follow, last_corner);
                    lemma_dist_is_offset_len(last_corner, follow);
                    lemma_slide_in_range(last_corner, follow, excess as int);
                }
                let mut to_target: Vec2D = follow - last_corner;
                assert(to_target == offset(last_corner, follow));
                let dir_to_target: Vec2D = to_target.norm();
                proof {
                    lemma_displacement_fits(excess as int, dir_to_target.x as int);
                    lemma_displacement_fits(excess as int, dir_to_target.y as int);
                    assert(dir_to_target.x * excess == excess * dir_to_target.x)
                        by (nonlinear_arith);
                    assert(dir_to_target.y * excess == excess * dir_to_target.y)
                        by (nonlinear_arith);
                }
                let slid = Vec2D {
                    x: (last_corner.x as i128 + (excess * dir_to_target.x as i128) / unit) as i64,
                    y: (last_corner.y as i128 + (excess * dir_to_target.y as i128) / unit) as i64,
                };
                self.corners.set(last_idx, slid);
                break ;
            }
        }
    }

    /// Applies the border rule of the snake's difficulty.
    pub fn check_border(&mut self)
        requires
            old(self)@.wf(),
        ensures
            final(self)@ == old(self)@.border_checked(),
            final(self)@.wf(),
    {
        if self.difficulty == GameDifficulty::Easy {
            self.clip_border();
            return ;
        }
        if self.pos.x < 0 || self.pos.x > self.boundaries.x || self.pos.y < 0 || self.pos.y
            > self.boundaries.y {
            self.lose_condition = LoseCondition::Border;
        }
    }

    /// Loses the round if the segment from the head to the newest corner
    /// crosses the trail.
    pub fn snake_self_intersect(&mut self)
        requires
            old(self)@.wf(),
        ensures
            final(self)@ == old(self)@.intersect_checked(),
            final(self)@.wf(),
    {
        if self.corners.len() == 0 {
            return ;
        }
        let first_ele: Vec2D = self.corners[0];
        let end: usize = self.corners.len() - 1;
        let mut crossing: bool = false;
        let mut i: usize = 1;
        while i < end
            invariant
                1 <= i,
                i <= end || i == 1,
                end == self.corners.len() - 1,
                first_ele == self.corners@[0],
                self@ == old(self)@,
                self@.wf(),
                crossing == (exists|j: int|
                    1 <= j < i && #[trigger] spec_intersect(
                        self.pos,
                        self.corners@[0],
                        self.corners@[j],
                        self.corners@[j + 1],
                    )),
            decreases end - i,
        {
            if intersect(self.pos, first_ele, self.corners[i], self.corners[i + 1]) {
                crossing = true;
            }
            i += 1;
        }
        if crossing {
            self.lose_condition = LoseCondition::SelfIntersect;
        }
    }

    /// On `Easy`, puts a head that left the field back on the opposite side.
    /// On the other levels nothing happens.
    pub fn clip_border(&mut self)
        requires
            old(self)@.wf(),
        ensures
            final(self)@ == if old(self)@.difficulty == GameDifficulty::Easy {
                old(self)@.wrapped()
            } else {
                old(self)@
            },
            final(self)@.wf(),
    {
        if self.difficulty != GameDifficulty::Easy {
            return ;
        }
        if self.pos.x < 0 {
            self.pos.x = self.boundaries.x;
        } else if self.pos.x > self.boundaries.x {
            self.pos.x = 0;
        }
        if self.pos.y < 0 {
            self.pos.y = self.boundaries.y;
        } else if self.pos.y > self.boundaries.y {
            self.pos.y = 0;
        }
    }

    /// Tells whether the snake is well-formed, as every operation on it
    /// requires. A snake made by `new` with boundaries in the coordinate
    /// range is, and the operations keep it so.
    pub fn is_valid(&self) -> (r: bool)
        ensures
            r == self@.wf(),
    {
        if !self.pos.is_in_range() || !self.boundaries.is_in_range() {
            return false;
        }
        if self.snake_speed < -SPEED_MAX || self.snake_speed > SPEED_MAX {
            return false;
        }
        let d = self.dir;
        let axis_unit: bool = (d.x == 0 && (d.y == UNIT || d.y == -UNIT)) || (d.y == 0 && (d.x
            == UNIT || d.x == -UNIT));
        if !axis_unit {
            return false;
        }
        let mut i: usize = 0;
        while i < self.corners.len()
            invariant
                i <= self.corners.len(),
                forall|j: int| 0 <= j < i ==> (#[trigger] self.corners@[j]).in_range(),
            decreases self.corners.len() - i,
        {
            if !self.corners[i].is_in_range() {
                return false;
            }
            i += 1;
        }
        true
    }

    /// Measures the trail from the head through every corner.
    pub fn calc_snake_length(&self) -> (len: i128)
        requires
            self@.pos.in_range(),
            all_in_range(self@.corners),
        ensures
            len == self@.measured_length(),
    {
        let mut len: i128 = 0;
        let mut prev = self.pos;
        let mut i: usize = 0;
        while i < self.corners.len()
            invariant
                i <= self.corners.len(),
                self.pos.in_range(),
                all_in_range(self.corners@),
                prev == follow_target(self.pos, self.corners@, i as int),
                len == path_len(self.pos, self.corners@.take(i as int)),
            decreases self.corners.len() - i,
        {
            let corner = self.corners[i];
            proof {
                lemma_path_len_step(self.pos, self.corners@, i as int);
                lemma_path_len_bound(self.pos, self.corners@.take(i as int));
                lemma_dist_bound(prev, corner);
                assert(i * (3 * COORD_MAX) <= 0xffff_ffff_ffff_ffff * (3 * COORD_MAX))
                    by (nonlinear_arith)
                    requires
                        0 <= i <= 0xffff_ffff_ffff_ffff,
                ;
            }
            len = len + Vec2D::dist(prev, corner) as i128;
            prev = corner;
            i += 1;
        }
        proof {
            assert(self.corners@.take(i as int) =~= self.corners@);
        }
        len
    }
}

} // verus!
