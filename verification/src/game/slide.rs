//! The slide of a corner toward the point it follows, by which a trail is
//! shortened, and what its rounding costs.

use vstd::prelude::*;
use crate::utils::fixed::{
    abs, UNIT, div_trunc, lemma_isqrt_bounds, lemma_isqrt_le, lemma_isqrt_monotonic,
};
use crate::utils::vec2d::{
    axis_parallel, offset, Vec2D, lemma_dist_axis_parallel, lemma_dist_is_offset_len,
    lemma_len_dominates,
};

verus! {

/// The point that lies `amount` away from `corner` in the direction of
/// `toward`.
pub open spec fn slide(corner: Vec2D, toward: Vec2D, amount: int) -> Vec2D {
    let unit = offset(corner, toward).spec_norm();
    Vec2D {
        x: (corner.x + div_trunc(unit.0 * amount, UNIT as int)) as i64,
        y: (corner.y + div_trunc(unit.1 * amount, UNIT as int)) as i64,
    }
}

/// How far a corner slides along one coordinate on which it lies `a` away
/// from its target, when it slides by `amount` of the distance `len`.
pub open spec fn slide_share(a: int, len: int, amount: int) -> int {
    (((a * UNIT) / len) * amount) / (UNIT as int)
}

/// By how much a trail may exceed its target after it has been shortened,
/// where `excess` is what it exceeded the target by before: the slide of a
/// corner along a slanted segment is rounded twice, once in the unit vector
/// and once in the product with the amount.
pub open spec fn tolerance(excess: int) -> int {
    2 * (excess / (UNIT as int)) + 5
}

/// A fraction of a length, taken by way of a unit vector, is not larger than
/// the length: for `0 <= a <= len` and `0 <= amount <= len`.
pub proof fn lemma_scaled_fraction(a: int, len: int, amount: int)
    requires
        0 <= a,
        0 < len,
        0 <= amount <= len,
    ensures
        0 <= slide_share(a, len, amount) <= a,
{
    let u: int = UNIT as int;
    let p = (a * u) / len;
    assert(0 <= p && p * len <= a * u) by (nonlinear_arith)
        requires
            p == (a * u) / len,
            0 <= a,
            0 < len,
            0 < u,
    ;
    assert(0 <= p * amount <= p * len) by (nonlinear_arith)
        requires
            0 <= p,
            0 <= amount <= len,
    ;
    let q = (p * amount) / u;
    assert(0 <= q && q * u <= p * amount) by (nonlinear_arith)
        requires
            q == (p * amount) / u,
            0 <= p * amount,
            0 < u,
    ;
    assert(q <= a) by (nonlinear_arith)
        requires
            q * u <= a * u,
            0 < u,
    ;
}

/// The magnitude of one coordinate of a slide depends only on the
/// magnitude of the offset, and its sign is that of the offset.
pub proof fn lemma_slide_magnitude(d: int, len: int, amount: int)
    requires
        0 < len,
        -len <= d <= len,
        0 <= amount <= len,
    ensures
        div_trunc(div_trunc(d * UNIT, len) * amount, UNIT as int) == if d >= 0 {
            slide_share(d, len, amount)
        } else {
            -slide_share(-d, len, amount)
        },
{
    let u: int = UNIT as int;
    if d >= 0 {
        assert(d * u >= 0) by (nonlinear_arith)
            requires
                d >= 0,
                u > 0,
        ;
        let p = (d * u) / len;
        assert(p * amount >= 0) by (nonlinear_arith)
            requires
                p == (d * u) / len,
                d * u >= 0,
                len > 0,
                amount >= 0,
        ;
    } else {
        assert(d * u < 0) by (nonlinear_arith)
            requires
                d < 0,
                u > 0,
        ;
        assert(-(d * u) == (-d) * u) by (nonlinear_arith);
        let p = ((-d) * u) / len;
        assert(p >= 0) by (nonlinear_arith)
            requires
                p == ((-d) * u) / len,
                (-d) * u >= 0,
                len > 0,
        ;
        assert(div_trunc(d * u, len) == -p);
        assert((-p) * amount == -(p * amount)) by (nonlinear_arith);
        assert(p * amount >= 0) by (nonlinear_arith)
            requires
                p >= 0,
                amount >= 0,
        ;
        if p * amount == 0 {
            assert(div_trunc((-p) * amount, u) == 0);
            assert((p * amount) / u == 0);
        } else {
            assert(div_trunc((-p) * amount, u) == -((p * amount) / u));
        }
    }
}

/// One coordinate of a slide lies between that of the corner and that of the
/// point it moves toward.
pub proof fn lemma_slide_coordinate(d: int, len: int, amount: int)
    requires
        0 < len,
        -len <= d <= len,
        0 <= amount <= len,
    ensures
        d >= 0 ==> 0 <= div_trunc(div_trunc(d * UNIT, len) * amount, UNIT as int) <= d,
        d <= 0 ==> d <= div_trunc(div_trunc(d * UNIT, len) * amount, UNIT as int) <= 0,
{
    lemma_slide_magnitude(d, len, amount);
    lemma_scaled_fraction(abs(d), len, amount);
}

/// A corner that slides no farther than to the point it moves toward stays
/// between the two, and so in range.
pub proof fn lemma_slide_in_range(corner: Vec2D, toward: Vec2D, amount: int)
    requires
        corner.in_range(),
        toward.in_range(),
        0 <= amount <= Vec2D::spec_dist(corner, toward),
        Vec2D::spec_dist(corner, toward) > 0,
    ensures
        slide(corner, toward, amount).in_range(),
        slide(corner, toward, amount).x == corner.x + div_trunc(
            offset(corner, toward).spec_norm().0 * amount,
            UNIT as int,
        ),
        slide(corner, toward, amount).y == corner.y + div_trunc(
            offset(corner, toward).spec_norm().1 * amount,
            UNIT as int,
        ),
{
    let d = offset(corner, toward);
    lemma_dist_is_offset_len(corner, toward);
    lemma_len_dominates(d);
    lemma_slide_coordinate(d.x as int, d.spec_len(), amount);
    lemma_slide_coordinate(d.y as int, d.spec_len(), amount);
}

/// A share of less than the whole distance is less than the whole offset.
pub proof fn lemma_share_stops_short(a: int, len: int, amount: int)
    requires
        0 < a <= len,
        0 <= amount < len,
    ensures
        slide_share(a, len, amount) < a,
{
    let u: int = UNIT as int;
    let au = a * u;
    let q1 = au / len;
    let q1e = q1 * amount;
    let q = q1e / u;
    assert(au > 0) by (nonlinear_arith)
        requires
            au == a * u,
            a > 0,
            u > 0,
    ;
    assert(0 <= q1 && q1 * len <= au) by (nonlinear_arith)
        requires
            q1 == au / len,
            au > 0,
            len > 0,
    ;
    assert(0 <= q1e && q1e * len <= au * amount) by (nonlinear_arith)
        requires
            q1e == q1 * amount,
            0 <= q1,
            q1 * len <= au,
            0 <= amount,
    ;
    assert(au * amount < au * len) by (nonlinear_arith)
        requires
            au > 0,
            amount < len,
    ;
    assert(q * u <= q1e);
    assert((q * u) * len <= q1e * len) by (nonlinear_arith)
        requires
            q * u <= q1e,
            len > 0,
    ;
    assert((q * u) * len == (q * len) * u && au * len == (a * len) * u) by (nonlinear_arith)
        requires
            au == a * u,
    ;
    assert(q * len < a * len) by (nonlinear_arith)
        requires
            (q * len) * u < (a * len) * u,
            u > 0,
    ;
    assert(q < a) by (nonlinear_arith)
        requires
            q * len < a * len,
            len > 0,
    ;
}

/// A corner that slides by less than the whole distance does not reach the
/// point it moves toward.
pub proof fn lemma_slide_stops_short(corner: Vec2D, toward: Vec2D, amount: int)
    requires
        corner.in_range(),
        toward.in_range(),
        0 <= amount < Vec2D::spec_dist(corner, toward),
    ensures
        slide(corner, toward, amount) != toward,
{
    let d = offset(corner, toward);
    let len = d.spec_len();
    lemma_dist_is_offset_len(corner, toward);
    lemma_len_dominates(d);
    lemma_slide_in_range(corner, toward, amount);
    lemma_slide_magnitude(d.x as int, len, amount);
    lemma_slide_magnitude(d.y as int, len, amount);
    if d.x != 0 {
        lemma_share_stops_short(abs(d.x as int), len, amount);
    } else {
        lemma_share_stops_short(abs(d.y as int), len, amount);
    }
}

/// A corner that slides toward its target does not move away from it.
pub proof fn lemma_slide_approaches(corner: Vec2D, toward: Vec2D, amount: int)
    requires
        corner.in_range(),
        toward.in_range(),
        0 <= amount <= Vec2D::spec_dist(corner, toward),
        Vec2D::spec_dist(corner, toward) > 0,
    ensures
        Vec2D::spec_dist(toward, slide(corner, toward, amount)) <= Vec2D::spec_dist(
            corner,
            toward,
        ),
{
    let d = offset(corner, toward);
    let moved = slide(corner, toward, amount);
    lemma_dist_is_offset_len(corner, toward);
    lemma_len_dominates(d);
    lemma_slide_coordinate(d.x as int, d.spec_len(), amount);
    lemma_slide_coordinate(d.y as int, d.spec_len(), amount);
    lemma_slide_in_range(corner, toward, amount);
    let dx = toward.x - corner.x;
    let dy = toward.y - corner.y;
    let rx = moved.x - toward.x;
    let ry = moved.y - toward.y;
    assert(rx * rx <= dx * dx) by (nonlinear_arith)
        requires
            (dx >= 0 && -dx <= rx <= 0) || (dx <= 0 && 0 <= rx <= -dx),
    ;
    assert(ry * ry <= dy * dy) by (nonlinear_arith)
        requires
            (dy >= 0 && -dy <= ry <= 0) || (dy <= 0 && 0 <= ry <= -dy),
    ;
    assert(rx * rx >= 0 && ry * ry >= 0) by (nonlinear_arith);
    lemma_isqrt_monotonic((rx * rx + ry * ry) as nat, (dx * dx + dy * dy) as nat);
}

/// Along an axis the slide is exact: on the coordinate on which the corner
/// lies `a` away from its target it moves by the whole amount, on the other
/// not at all.
pub proof fn lemma_slide_exact(a: int, amount: int)
    requires
        0 < a,
        0 <= amount,
    ensures
        slide_share(a, a, amount) == amount,
        slide_share(0, a, amount) == 0,
{
    let u: int = UNIT as int;
    assert((a * u) / a == u) by (nonlinear_arith)
        requires
            a > 0,
    ;
    assert((u * amount) / u == amount) by (nonlinear_arith)
        requires
            u > 0,
    ;
    assert(0 * u == 0);
    assert(0int / a == 0) by (nonlinear_arith)
        requires
            a > 0,
    ;
    assert(0 * amount == 0);
}

/// A corner that slides along an axis toward its target comes closer to it
/// by exactly the amount of the slide, and stays on the axis.
pub proof fn lemma_slide_axis_parallel(corner: Vec2D, toward: Vec2D, amount: int)
    requires
        corner.in_range(),
        toward.in_range(),
        axis_parallel(corner, toward),
        0 <= amount <= Vec2D::spec_dist(corner, toward),
        Vec2D::spec_dist(corner, toward) > 0,
    ensures
        Vec2D::spec_dist(toward, slide(corner, toward, amount)) == Vec2D::spec_dist(
            corner,
            toward,
        ) - amount,
        corner.x == toward.x ==> slide(corner, toward, amount).x == corner.x,
        corner.y == toward.y ==> slide(corner, toward, amount).y == corner.y,
        slide(corner, toward, amount).in_range(),
{
    let d = offset(corner, toward);
    let moved = slide(corner, toward, amount);
    let len = d.spec_len();
    lemma_dist_is_offset_len(corner, toward);
    lemma_dist_axis_parallel(corner, toward);
    lemma_slide_in_range(corner, toward, amount);
    lemma_slide_magnitude(d.x as int, len, amount);
    lemma_slide_magnitude(d.y as int, len, amount);
    lemma_slide_exact(len, amount);
    if corner.y == toward.y {
        assert(len == abs(d.x as int));
        assert(moved.y == corner.y);
    } else {
        assert(len == abs(d.y as int));
        assert(moved.x == corner.x);
    }
    assert(axis_parallel(toward, moved));
    lemma_dist_axis_parallel(toward, moved);
}

/// What the rounding of a slide costs on one coordinate: a corner that
/// should come closer by the share `amount / len` of the offset `a` falls
/// short of it by little.
pub proof fn lemma_slide_shortfall(a: int, len: int, amount: int)
    requires
        0 <= a <= len,
        0 < len,
        0 <= amount <= len,
    ensures
        len * (a - slide_share(a, len, amount)) <= a * (len - amount) + len * (amount / (
        UNIT as int) + 2),
{
    let u: int = UNIT as int;
    let au = a * u;
    let q1 = au / len;
    let q1e = q1 * amount;
    let q = q1e / u;
    let k = amount / u;
    assert(au >= 0) by (nonlinear_arith)
        requires
            au == a * u,
            a >= 0,
            u > 0,
    ;
    // the two divisions lose less than one divisor each
    assert(q1 >= 0 && q1 * len > au - len) by (nonlinear_arith)
        requires
            q1 == au / len,
            au >= 0,
            len > 0,
    ;
    assert(q1e >= 0) by (nonlinear_arith)
        requires
            q1e == q1 * amount,
            q1 >= 0,
            amount >= 0,
    ;
    assert(q * u > q1e - u);
    assert(amount < u * (k + 1));
    // all of it scaled by `u * len`
    let lq1 = q1 * len;
    let lu = len * u;
    let le = len * amount;
    let aue = au * amount;
    assert(len * q1e == lq1 * amount) by (nonlinear_arith)
        requires
            q1e == q1 * amount,
            lq1 == q1 * len,
    ;
    assert(lq1 * amount >= aue - le) by (nonlinear_arith)
        requires
            lq1 > au - len,
            amount >= 0,
            aue == au * amount,
            le == len * amount,
    ;
    assert(len * (q * u) >= len * q1e - lu) by (nonlinear_arith)
        requires
            q * u > q1e - u,
            len > 0,
            lu == len * u,
    ;
    let lqu = len * (q * u);
    assert(lqu >= aue - le - lu);
    let shortfall = len * (a - q);
    assert(u * shortfall == len * au - lqu) by (nonlinear_arith)
        requires
            shortfall == len * (a - q),
            au == a * u,
            lqu == len * (q * u),
    ;
    let goal = a * (len - amount) + len * (k + 2);
    assert(u * goal == len * au - aue + lu * (k + 2)) by (nonlinear_arith)
        requires
            goal == a * (len - amount) + len * (k + 2),
            au == a * u,
            aue == au * amount,
            lu == len * u,
    ;
    assert(le <= lu * (k + 1)) by (nonlinear_arith)
        requires
            le == len * amount,
            lu == len * u,
            amount < u * (k + 1),
            len > 0,
    ;
    assert(lu * (k + 2) == lu * (k + 1) + lu) by (nonlinear_arith);
    assert(u * shortfall <= u * goal);
    assert(shortfall <= goal) by (nonlinear_arith)
        requires
            u * shortfall <= u * goal,
            u > 0,
    ;
}

/// From the shortfall on each coordinate to the distance that is left: a
/// vector whose coordinates `wa` and `wb` are those of `(a, b)` scaled by
/// `rest / len` and then off by no more than `c` is not longer than
/// `rest + 2 * c + 1`.
pub proof fn lemma_scaled_length(a: int, b: int, wa: int, wb: int, len: int, rest: int, c: int)
    requires
        0 <= a <= len,
        0 <= b <= len,
        a * a + b * b < (len + 1) * (len + 1),
        0 < len,
        0 <= rest <= len,
        0 <= c,
        0 <= wa,
        0 <= wb,
        len * wa <= a * rest + len * c,
        len * wb <= b * rest + len * c,
    ensures
        wa * wa + wb * wb <= (rest + 2 * c + 1) * (rest + 2 * c + 1),
{
    let ar = a * rest;
    let br = b * rest;
    let lc = len * c;
    let sq = len * len;
    let rr = rest * rest;
    let rc = rest * c;
    let cc = c * c;
    let bound = rest + 2 * c + 1;
    assert(ar >= 0 && br >= 0 && lc >= 0 && rc >= 0 && cc >= 0 && rr >= 0 && sq >= 1)
        by (nonlinear_arith)
        requires
            ar == a * rest,
            br == b * rest,
            lc == len * c,
            rc == rest * c,
            cc == c * c,
            rr == rest * rest,
            sq == len * len,
            a >= 0,
            b >= 0,
            rest >= 0,
            len > 0,
            c >= 0,
    ;
    // the squares of the two shortfalls
    assert((len * wa) * (len * wa) <= (ar + lc) * (ar + lc)) by (nonlinear_arith)
        requires
            0 <= len * wa <= ar + lc,
    ;
    assert((len * wb) * (len * wb) <= (br + lc) * (br + lc)) by (nonlinear_arith)
        requires
            0 <= len * wb <= br + lc,
    ;
    assert((len * wa) * (len * wa) == sq * (wa * wa)) by (nonlinear_arith)
        requires
            sq == len * len,
    ;
    assert((len * wb) * (len * wb) == sq * (wb * wb)) by (nonlinear_arith)
        requires
            sq == len * len,
    ;
    assert((ar + lc) * (ar + lc) == ar * ar + 2 * (ar * lc) + lc * lc) by (nonlinear_arith);
    assert((br + lc) * (br + lc) == br * br + 2 * (br * lc) + lc * lc) by (nonlinear_arith);
    // each term as a multiple of the square of the length
    assert(ar * ar == rr * (a * a)) by (nonlinear_arith)
        requires
            ar == a * rest,
            rr == rest * rest,
    ;
    assert(br * br == rr * (b * b)) by (nonlinear_arith)
        requires
            br == b * rest,
            rr == rest * rest,
    ;
    assert(a * a + b * b <= sq + 2 * len) by (nonlinear_arith)
        requires
            a * a + b * b < (len + 1) * (len + 1),
            sq == len * len,
    ;
    assert(rr * (a * a) + rr * (b * b) <= rr * sq + 2 * (rr * len)) by (nonlinear_arith)
        requires
            a * a + b * b <= sq + 2 * len,
            rr >= 0,
    ;
    assert(rr * len <= sq * rest) by (nonlinear_arith)
        requires
            rr == rest * rest,
            sq == len * len,
            0 <= rest <= len,
    ;
    assert(ar * lc + br * lc <= 2 * (sq * rc)) by (nonlinear_arith)
        requires
            ar == a * rest,
            br == b * rest,
            lc == len * c,
            sq == len * len,
            rc == rest * c,
            0 <= a <= len,
            0 <= b <= len,
            0 <= rest,
            0 <= c,
    {
        assert(ar * lc == (a * len) * (rest * c)) by (nonlinear_arith)
            requires
                ar == a * rest,
                lc == len * c,
        ;
        assert(br * lc == (b * len) * (rest * c)) by (nonlinear_arith)
            requires
                br == b * rest,
                lc == len * c,
        ;
        assert(a * len <= len * len && b * len <= len * len) by (nonlinear_arith)
            requires
                0 <= a <= len,
                0 <= b <= len,
        ;
        assert(rest * c >= 0) by (nonlinear_arith)
            requires
                rest >= 0,
                c >= 0,
        ;
        assert((a * len) * (rest * c) <= (len * len) * (rest * c)) by (nonlinear_arith)
            requires
                a * len <= len * len,
                rest * c >= 0,
        ;
        assert((b * len) * (rest * c) <= (len * len) * (rest * c)) by (nonlinear_arith)
            requires
                b * len <= len * len,
                rest * c >= 0,
        ;
    }
    assert(lc * lc == sq * cc) by (nonlinear_arith)
        requires
            lc == len * c,
            sq == len * len,
            cc == c * c,
    ;
    assert(rr * sq == sq * rr) by (nonlinear_arith);
    let inner = rr + 2 * rest + 4 * rc + 2 * cc;
    assert(sq * inner == sq * rr + 2 * (sq * rest) + 4 * (sq * rc) + 2 * (sq * cc))
        by (nonlinear_arith)
        requires
            inner == rr + 2 * rest + 4 * rc + 2 * cc,
    ;
    assert(sq * (wa * wa) + sq * (wb * wb) <= sq * inner);
    assert(bound * bound == rr + 4 * cc + 1 + 4 * rc + 2 * rest + 4 * c) by (nonlinear_arith)
        requires
            bound == rest + 2 * c + 1,
            rr == rest * rest,
            rc == rest * c,
            cc == c * c,
    ;
    assert(inner <= bound * bound);
    assert(sq * inner <= sq * (bound * bound)) by (nonlinear_arith)
        requires
            inner <= bound * bound,
            sq >= 0,
    ;
    assert(sq * (wa * wa) + sq * (wb * wb) == sq * (wa * wa + wb * wb)) by (nonlinear_arith);
    assert(wa * wa + wb * wb <= bound * bound) by (nonlinear_arith)
        requires
            sq * (wa * wa + wb * wb) <= sq * (bound * bound),
            sq >= 1,
    ;
}

/// A corner that slides toward its target comes closer to it by the amount
/// of the slide, up to the tolerance.
pub proof fn lemma_slide_tolerance(corner: Vec2D, toward: Vec2D, amount: int)
    requires
        corner.in_range(),
        toward.in_range(),
        0 <= amount <= Vec2D::spec_dist(corner, toward),
        Vec2D::spec_dist(corner, toward) > 0,
    ensures
        Vec2D::spec_dist(toward, slide(corner, toward, amount)) <= Vec2D::spec_dist(
            corner,
            toward,
        ) - amount + tolerance(amount),
{
    let d = offset(corner, toward);
    let moved = slide(corner, toward, amount);
    let len = d.spec_len();
    lemma_dist_is_offset_len(corner, toward);
    lemma_len_dominates(d);
    lemma_isqrt_bounds(d.spec_len_sq());
    lemma_slide_in_range(corner, toward, amount);
    lemma_slide_magnitude(d.x as int, len, amount);
    lemma_slide_magnitude(d.y as int, len, amount);
    let a = abs(d.x as int);
    let b = abs(d.y as int);
    lemma_scaled_fraction(a, len, amount);
    lemma_scaled_fraction(b, len, amount);
    lemma_slide_shortfall(a, len, amount);
    lemma_slide_shortfall(b, len, amount);
    let wa = a - slide_share(a, len, amount);
    let wb = b - slide_share(b, len, amount);
    let rx = moved.x - toward.x;
    let ry = moved.y - toward.y;
    assert(rx == wa || rx == -wa);
    assert(ry == wb || ry == -wb);
    assert(rx * rx == wa * wa) by (nonlinear_arith)
        requires
            rx == wa || rx == -wa,
    ;
    assert(ry * ry == wb * wb) by (nonlinear_arith)
        requires
            ry == wb || ry == -wb,
    ;
    assert(a * a + b * b == d.x * d.x + d.y * d.y) by (nonlinear_arith)
        requires
            a == d.x || a == -d.x,
            b == d.y || b == -d.y,
    ;
    let c = amount / (UNIT as int) + 2;
    lemma_scaled_length(a, b, wa, wb, len, len - amount, c);
    let bound = len - amount + 2 * c + 1;
    assert(wa * wa >= 0 && wb * wb >= 0) by (nonlinear_arith);
    lemma_isqrt_le((rx * rx + ry * ry) as nat, bound as nat);
}

} // verus!
