//! Two-dimensional fixed-point vectors.

use vstd::prelude::*;
use crate::utils::fixed::{
    abs, UNIT, COORD_MAX, div_trunc, isqrt, int_sqrt, lemma_isqrt_bounds, lemma_isqrt_le,
    lemma_isqrt_lt, lemma_isqrt_square,
};

verus! {

/// A point or a displacement of the plane, in fixed-point coordinates.
#[derive(Copy, Clone, Debug, PartialEq, Eq, Structural)]
pub struct Vec2D {
    pub x: i64,
    pub y: i64,
}

impl Vec2D {
    /// Both coordinates lie within `-COORD_MAX ..= COORD_MAX`: the vector is a
    /// point of the plane the game is played on.
    pub open spec fn in_range(self) -> bool {
        &&& -COORD_MAX <= self.x <= COORD_MAX
        &&& -COORD_MAX <= self.y <= COORD_MAX
    }

    /// Both coordinates lie within `-2 * COORD_MAX ..= 2 * COORD_MAX`, as
    /// those of the difference of two points in range do.
    pub open spec fn is_offset(self) -> bool {
        &&& -2 * COORD_MAX <= self.x <= 2 * COORD_MAX
        &&& -2 * COORD_MAX <= self.y <= 2 * COORD_MAX
    }

    /// The squared Euclidean length.
    pub open spec fn spec_len_sq(self) -> nat {
        (self.x * self.x + self.y * self.y) as nat
    }

    /// The Euclidean length, rounded down to a whole fixed-point step.
    pub open spec fn spec_len(self) -> int {
        isqrt(self.spec_len_sq()) as int
    }

    /// The Euclidean distance between two points, rounded down.
    pub open spec fn spec_dist(a: Vec2D, b: Vec2D) -> int {
        isqrt(((b.x - a.x) * (b.x - a.x) + (b.y - a.y) * (b.y - a.y)) as nat) as int
    }

    /// The vector scaled to length `UNIT` (up to rounding toward zero).
    pub open spec fn spec_norm(self) -> (int, int) {
        (div_trunc(self.x * UNIT, self.spec_len()), div_trunc(self.y * UNIT, self.spec_len()))
    }

    /// The vector with the coordinates `x` and `y`.
    pub fn new(x: i64, y: i64) -> (v: Vec2D)
        ensures
            v.x == x,
            v.y == y,
    {
        Vec2D { x, y }
    }

    /// Tells whether the vector is a point of the coordinate range.
    pub fn is_in_range(&self) -> (r: bool)
        ensures
            r == self.in_range(),
    {
        -COORD_MAX <= self.x && self.x <= COORD_MAX && -COORD_MAX <= self.y && self.y
            <= COORD_MAX
    }

    /// The length of the vector.
    pub fn len(&self) -> (r: i64)
        requires
            self.is_offset(),
        ensures
            r == self.spec_len(),
            0 <= r <= 3 * COORD_MAX,
    {
        let x: i128 = self.x as i128;
        let y: i128 = self.y as i128;
        proof {
            lemma_offset_square(x as int);
            lemma_offset_square(y as int);
        }
        let sq: i128 = x * x + y * y;
        proof {
            let b: nat = 3_000_000_000_000;
            assert(b * b == 9_000_000_000_000_000_000_000_000) by (nonlinear_arith)
                requires
                    b == 3_000_000_000_000,
            ;
            lemma_isqrt_le(sq as nat, b);
        }
        int_sqrt(sq as u128) as i64
    }

    /// The distance from `a` to `b`.
    pub fn dist(a: Vec2D, b: Vec2D) -> (r: i64)
        requires
            a.in_range(),
            b.in_range(),
        ensures
            r == Self::spec_dist(a, b),
            0 <= r <= 3 * COORD_MAX,
    {
        let d = Vec2D { x: b.x - a.x, y: b.y - a.y };
        d.len()
    }

    /// Scales the vector to length `UNIT`, in place, and returns the result.
    /// The zero vector has no direction and is left out.
    pub fn norm(&mut self) -> (r: Vec2D)
        requires
            old(self).is_offset(),
            old(self).x != 0 || old(self).y != 0,
        ensures
            final(self).x == old(self).spec_norm().0,
            final(self).y == old(self).spec_norm().1,
            r == *final(self),
            -UNIT <= r.x <= UNIT,
            -UNIT <= r.y <= UNIT,
    {
        let len: i128 = self.len() as i128;
        proof {
            lemma_len_dominates(*self);
        }
        let x: i128 = self.x as i128 * UNIT as i128;
        let y: i128 = self.y as i128 * UNIT as i128;
        proof {
            lemma_div_trunc_unit(self.x as int, len as int);
            lemma_div_trunc_unit(self.y as int, len as int);
        }
        self.x = (x / len) as i64;
        self.y = (y / len) as i64;
        *self
    }
}

impl core::ops::Sub<Vec2D> for Vec2D {
    type Output = Vec2D;

    /// Componentwise difference.
    fn sub(self, rhs: Vec2D) -> (r: Vec2D) {
        Vec2D { x: self.x - rhs.x, y: self.y - rhs.y }
    }
}

impl vstd::std_specs::ops::SubSpecImpl<Vec2D> for Vec2D {
    open spec fn obeys_sub_spec() -> bool {
        true
    }

    open spec fn sub_req(self, rhs: Vec2D) -> bool {
        &&& i64::MIN <= self.x - rhs.x <= i64::MAX
        &&& i64::MIN <= self.y - rhs.y <= i64::MAX
    }

    open spec fn sub_spec(self, rhs: Vec2D) -> Vec2D {
        Vec2D { x: (self.x - rhs.x) as i64, y: (self.y - rhs.y) as i64 }
    }
}

impl core::ops::Add<Vec2D> for Vec2D {
    type Output = Vec2D;

    /// Componentwise sum.
    fn add(self, rhs: Vec2D) -> (r: Vec2D) {
        Vec2D { x: self.x + rhs.x, y: self.y + rhs.y }
    }
}

impl vstd::std_specs::ops::AddSpecImpl<Vec2D> for Vec2D {
    open spec fn obeys_add_spec() -> bool {
        true
    }

    open spec fn add_req(self, rhs: Vec2D) -> bool {
        &&& i64::MIN <= self.x + rhs.x <= i64::MAX
        &&& i64::MIN <= self.y + rhs.y <= i64::MAX
    }

    open spec fn add_spec(self, rhs: Vec2D) -> Vec2D {
        Vec2D { x: (self.x + rhs.x) as i64, y: (self.y + rhs.y) as i64 }
    }
}

impl core::ops::Mul<Vec2D> for Vec2D {
    type Output = i128;

    /// The dot product, in squared fixed-point steps.
    fn mul(self, rhs: Vec2D) -> (r: i128) {
        proof {
            lemma_product_i64(self.x as int, rhs.x as int);
            lemma_product_i64(self.y as int, rhs.y as int);
        }
        (self.x as i128) * (rhs.x as i128) + (self.y as i128) * (rhs.y as i128)
    }
}

impl vstd::std_specs::ops::MulSpecImpl<Vec2D> for Vec2D {
    open spec fn obeys_mul_spec() -> bool {
        true
    }

    open spec fn mul_req(self, rhs: Vec2D) -> bool {
        i128::MIN <= self.x * rhs.x + self.y * rhs.y <= i128::MAX
    }

    open spec fn mul_spec(self, rhs: Vec2D) -> i128 {
        (self.x * rhs.x + self.y * rhs.y) as i128
    }
}

/// The product of two `i64` values fits in an `i128` with room to spare.
pub proof fn lemma_product_i64(a: int, b: int)
    requires
        i64::MIN <= a <= i64::MAX,
        i64::MIN <= b <= i64::MAX,
    ensures
        -0x4000_0000_0000_0000_0000_0000_0000_0000 <= a * b,
        a * b <= 0x4000_0000_0000_0000_0000_0000_0000_0000,
{
    assert(-0x4000_0000_0000_0000_0000_0000_0000_0000 <= a * b
        <= 0x4000_0000_0000_0000_0000_0000_0000_0000) by (nonlinear_arith)
        requires
            -0x8000_0000_0000_0000 <= a <= 0x7fff_ffff_ffff_ffff,
            -0x8000_0000_0000_0000 <= b <= 0x7fff_ffff_ffff_ffff,
    ;
}

/// The square of a coordinate of an offset is bounded.
pub proof fn lemma_offset_square(x: int)
    requires
        -2 * COORD_MAX <= x <= 2 * COORD_MAX,
    ensures
        0 <= x * x <= 4_000_000_000_000_000_000_000_000,
{
    assert(0 <= x * x <= 4_000_000_000_000_000_000_000_000) by (nonlinear_arith)
        requires
            -2_000_000_000_000 <= x <= 2_000_000_000_000,
    ;
}

/// The length of a vector is at least the magnitude of each coordinate, and
/// positive unless the vector is zero.
pub proof fn lemma_len_dominates(v: Vec2D)
    ensures
        v.spec_len() >= v.x,
        v.spec_len() >= -v.x,
        v.spec_len() >= v.y,
        v.spec_len() >= -v.y,
{
    let n = v.spec_len_sq();
    let r = isqrt(n);
    lemma_isqrt_bounds(n);
    let x: int = v.x as int;
    let y: int = v.y as int;
    assert(x * x >= 0 && y * y >= 0) by (nonlinear_arith);
    assert(r >= x && r >= -x) by (nonlinear_arith)
        requires
            x * x < (r + 1) * (r + 1),
            r >= 0,
    ;
    assert(r >= y && r >= -y) by (nonlinear_arith)
        requires
            y * y < (r + 1) * (r + 1),
            r >= 0,
    ;
}

/// A coordinate scaled by `UNIT` and divided by a length that dominates it
/// lies within `-UNIT ..= UNIT`.
pub proof fn lemma_div_trunc_unit(x: int, len: int)
    requires
        len > 0,
        -len <= x <= len,
    ensures
        -UNIT <= div_trunc(x * UNIT, len) <= UNIT,
{
    let u: int = UNIT as int;
    if x >= 0 {
        assert(0 <= (x * u) / len <= u) by (nonlinear_arith)
            requires
                0 <= x <= len,
                len > 0,
                u >= 0,
        ;
    } else {
        assert(-(x * u) == (-x) * u) by (nonlinear_arith);
        assert(x * u < 0) by (nonlinear_arith)
            requires
                x < 0,
                u > 0,
        ;
        assert(0 <= ((-x) * u) / len <= u) by (nonlinear_arith)
            requires
                0 <= -x <= len,
                len > 0,
                u >= 0,
        ;
    }
}

/// The vector from `from` to `to`.
pub open spec fn offset(from: Vec2D, to: Vec2D) -> Vec2D {
    Vec2D { x: (to.x - from.x) as i64, y: (to.y - from.y) as i64 }
}

/// The segment from `a` to `b` runs along one of the two axes.
pub open spec fn axis_parallel(a: Vec2D, b: Vec2D) -> bool {
    a.x == b.x || a.y == b.y
}

/// The distance between two points in range is bounded.
pub proof fn lemma_dist_bound(a: Vec2D, b: Vec2D)
    requires
        a.in_range(),
        b.in_range(),
    ensures
        0 <= Vec2D::spec_dist(a, b) <= 3 * COORD_MAX,
{
    lemma_offset_square(b.x - a.x);
    lemma_offset_square(b.y - a.y);
    let n = ((b.x - a.x) * (b.x - a.x) + (b.y - a.y) * (b.y - a.y)) as nat;
    let bound: nat = 3_000_000_000_000;
    assert(bound * bound == 9_000_000_000_000_000_000_000_000) by (nonlinear_arith)
        requires
            bound == 3_000_000_000_000,
    ;
    lemma_isqrt_le(n, bound);
}

/// The distance does not depend on the order of the two points.
pub proof fn lemma_dist_symmetric(a: Vec2D, b: Vec2D)
    ensures
        Vec2D::spec_dist(a, b) == Vec2D::spec_dist(b, a),
{
    let dx = b.x - a.x;
    let dy = b.y - a.y;
    assert(dx * dx == (-dx) * (-dx)) by (nonlinear_arith);
    assert(dy * dy == (-dy) * (-dy)) by (nonlinear_arith);
    assert(a.x - b.x == -dx);
    assert(a.y - b.y == -dy);
}

/// The distance from `a` to `b` is the length of the vector between them.
pub proof fn lemma_dist_is_offset_len(a: Vec2D, b: Vec2D)
    requires
        a.in_range(),
        b.in_range(),
    ensures
        offset(a, b).is_offset(),
        offset(a, b).spec_len() == Vec2D::spec_dist(a, b),
        Vec2D::spec_dist(a, b) > 0 ==> offset(a, b).x != 0 || offset(a, b).y != 0,
{
    if offset(a, b).x == 0 && offset(a, b).y == 0 {
        let v = offset(a, b);
        assert(v.x * v.x + v.y * v.y == 0) by (nonlinear_arith)
            requires
                v.x == 0,
                v.y == 0,
        ;
        assert(isqrt(0) == 0);
    }
}

/// Along an axis the distance is the difference of the coordinates, with no
/// rounding.
pub proof fn lemma_dist_axis_parallel(a: Vec2D, b: Vec2D)
    requires
        axis_parallel(a, b),
    ensures
        a.y == b.y ==> Vec2D::spec_dist(a, b) == abs(b.x - a.x),
        a.x == b.x ==> Vec2D::spec_dist(a, b) == abs(b.y - a.y),
{
    let dx = b.x - a.x;
    let dy = b.y - a.y;
    if a.y == b.y {
        let r = abs(dx) as nat;
        assert(dx * dx + dy * dy == r * r) by (nonlinear_arith)
            requires
                dy == 0,
                r == dx || r == -dx,
        ;
        lemma_isqrt_square(r);
    }
    if a.x == b.x {
        let r = abs(dy) as nat;
        assert(dx * dx + dy * dy == r * r) by (nonlinear_arith)
            requires
                dx == 0,
                r == dy || r == -dy,
        ;
        lemma_isqrt_square(r);
    }
}

/// A point that moves along an axis changes its distance to any other point
/// by no more than it moves.
pub proof fn lemma_dist_after_axis_move(from: Vec2D, to: Vec2D, other: Vec2D)
    requires
        axis_parallel(from, to),
    ensures
        Vec2D::spec_dist(to, other) <= Vec2D::spec_dist(from, other) + abs(to.x - from.x) + abs(
            to.y - from.y,
        ),
{
    let a = other.x - from.x;
    let b = other.y - from.y;
    let a2 = other.x - to.x;
    let b2 = other.y - to.y;
    let t = abs(to.x - from.x) + abs(to.y - from.y);
    let n = (a * a + b * b) as nat;
    let r = isqrt(n) as int;
    assert(a * a >= 0 && b * b >= 0 && a2 * a2 >= 0 && b2 * b2 >= 0) by (nonlinear_arith);
    lemma_isqrt_bounds(n);
    assert(-r <= a <= r && -r <= b <= r) by (nonlinear_arith)
        requires
            a * a + b * b < (r + 1) * (r + 1),
            r >= 0,
    ;
    if from.y == to.y {
        assert(a2 * a2 + b2 * b2 < (r + t + 1) * (r + t + 1)) by (nonlinear_arith)
            requires
                b2 == b,
                a2 == a - t || a2 == a + t,
                t >= 0,
                a * a + b * b < (r + 1) * (r + 1),
                -r <= a <= r,
                r >= 0,
        ;
    } else {
        assert(a2 * a2 + b2 * b2 < (r + t + 1) * (r + t + 1)) by (nonlinear_arith)
            requires
                a2 == a,
                b2 == b - t || b2 == b + t,
                t >= 0,
                a * a + b * b < (r + 1) * (r + 1),
                -r <= b <= r,
                r >= 0,
        ;
    }
    lemma_isqrt_lt((a2 * a2 + b2 * b2) as nat, (r + t) as nat);
}

} // verus!
