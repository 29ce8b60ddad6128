//! The geometry of the trail: the polyline that leads from the head through
//! the corners, newest first, to the tail.

use vstd::prelude::*;
use crate::game::slide::{
    slide, tolerance, lemma_slide_approaches, lemma_slide_axis_parallel, lemma_slide_in_range,
    lemma_slide_stops_short, lemma_slide_tolerance,
};
use crate::utils::fixed::{COORD_MAX, isqrt};
use crate::utils::vec2d::{axis_parallel, Vec2D, lemma_dist_bound, lemma_dist_symmetric};

verus! {

/// Every point of the sequence lies in the coordinate range.
pub open spec fn all_in_range(points: Seq<Vec2D>) -> bool {
    forall|i: int| 0 <= i < points.len() ==> (#[trigger] points[i]).in_range()
}

/// The point that corner `i` is joined to on the side of the head: the corner
/// before it, or the head itself for the newest corner.
pub open spec fn follow_target(head: Vec2D, corners: Seq<Vec2D>, i: int) -> Vec2D {
    if i <= 0 {
        head
    } else {
        corners[i - 1]
    }
}

/// The length of the segment that ends in corner `i`.
pub open spec fn segment_len(head: Vec2D, corners: Seq<Vec2D>, i: int) -> int {
    Vec2D::spec_dist(follow_target(head, corners, i), corners[i])
}

/// The length of the path from the head through all corners in order.
pub open spec fn path_len(head: Vec2D, corners: Seq<Vec2D>) -> int
    decreases corners.len(),
{
    if corners.len() == 0 {
        0
    } else {
        path_len(head, corners.drop_last()) + segment_len(head, corners, corners.len() - 1)
    }
}

/// The segment that ends in corner `i` runs along one of the two axes.
pub open spec fn segment_axis_parallel(head: Vec2D, corners: Seq<Vec2D>, i: int) -> bool {
    axis_parallel(follow_target(head, corners, i), corners[i])
}

/// Every segment of the path runs along one of the two axes, as in the trail
/// of a snake that starts inside the field and is steered by turns.
pub open spec fn rectilinear(head: Vec2D, corners: Seq<Vec2D>) -> bool {
    forall|i: int| 0 <= i < corners.len() ==> #[trigger] segment_axis_parallel(head, corners, i)
}

/// The number of corners, counted from the head, that the path can keep
/// without growing longer than `target`: all of them if the whole path fits,
/// else as many as fit.
pub open spec fn whole_corners(head: Vec2D, corners: Seq<Vec2D>, target: int) -> nat
    decreases corners.len(),
{
    if corners.len() == 0 || path_len(head, corners) <= target {
        corners.len()
    } else {
        whole_corners(head, corners.drop_last(), target)
    }
}

/// The corners of the trail after it has been shortened to `target`. A trail
/// that is not longer than `target` stays. Of a longer one the corners stay
/// whose path fits in `target`; if their path is shorter than `target`, the
/// next corner is kept as well and moved toward the one before it by what the
/// path is too long.
pub open spec fn retracted(head: Vec2D, corners: Seq<Vec2D>, target: int) -> Seq<Vec2D> {
    let m = whole_corners(head, corners, target) as int;
    let whole = corners.take(m);
    if m == corners.len() || path_len(head, whole) >= target {
        whole
    } else {
        whole.push(
            slide(
                corners[m],
                follow_target(head, corners, m),
                path_len(head, corners.take(m + 1)) - target,
            ),
        )
    }
}

/// Without its last point a sequence of points in range is one still.
pub proof fn lemma_in_range_drop_last(points: Seq<Vec2D>)
    requires
        all_in_range(points),
        points.len() > 0,
    ensures
        all_in_range(points.drop_last()),
{
    let shorter = points.drop_last();
    assert forall|i: int| 0 <= i < shorter.len() implies (#[trigger] shorter[i]).in_range() by {
        assert(points[i].in_range());
    }
}

/// Extending the path by one corner adds the length of one segment.
pub proof fn lemma_path_len_step(head: Vec2D, corners: Seq<Vec2D>, i: int)
    requires
        0 <= i < corners.len(),
    ensures
        path_len(head, corners.take(i + 1)) == path_len(head, corners.take(i)) + segment_len(
            head,
            corners,
            i,
        ),
{
    let longer = corners.take(i + 1);
    assert(longer.drop_last() =~= corners.take(i));
    assert(longer.last() == corners[i]);
    assert(follow_target(head, longer, i) == follow_target(head, corners, i));
}

/// The path is not longer than its number of segments allows.
pub proof fn lemma_path_len_bound(head: Vec2D, corners: Seq<Vec2D>)
    requires
        head.in_range(),
        all_in_range(corners),
    ensures
        0 <= path_len(head, corners) <= corners.len() * (3 * COORD_MAX),
    decreases corners.len(),
{
    if corners.len() > 0 {
        let n = corners.len() as int;
        lemma_path_len_bound(head, corners.drop_last());
        assert(follow_target(head, corners, n - 1).in_range());
        lemma_dist_bound(follow_target(head, corners, n - 1), corners[n - 1]);
        assert(corners.drop_last().len() * (3 * COORD_MAX) + 3 * COORD_MAX == corners.len() * (3
            * COORD_MAX)) by (nonlinear_arith)
            requires
                corners.drop_last().len() + 1 == corners.len(),
        ;
    }
}

/// Shifting all corners by one place and putting a new first corner in
/// front changes what each corner follows accordingly.
pub proof fn lemma_path_len_insert(head: Vec2D, corners: Seq<Vec2D>, first: Vec2D)
    ensures
        path_len(head, corners.insert(0, first)) == Vec2D::spec_dist(head, first) + path_len(
            first,
            corners,
        ),
    decreases corners.len(),
{
    let longer = corners.insert(0, first);
    if corners.len() == 0 {
        assert(longer.drop_last() =~= Seq::<Vec2D>::empty());
        assert(path_len(head, longer.drop_last()) == 0);
    } else {
        let n = corners.len() as int;
        lemma_path_len_insert(head, corners.drop_last(), first);
        assert(longer.drop_last() =~= corners.drop_last().insert(0, first));
        assert(longer.last() == corners.last());
        assert(follow_target(head, longer, n) == follow_target(first, corners, n - 1));
    }
}

/// A corner put at the head itself does not change the length of the path.
pub proof fn lemma_path_len_insert_head(head: Vec2D, corners: Seq<Vec2D>)
    ensures
        path_len(head, corners.insert(0, head)) == path_len(head, corners),
{
    lemma_path_len_insert(head, corners, head);
    let d = head.x - head.x;
    assert(d * d + d * d == 0) by (nonlinear_arith)
        requires
            d == 0,
    ;
    assert(isqrt(0) == 0);
}

/// The path from the head is the first segment and the path from the first
/// corner.
pub proof fn lemma_path_len_split(head: Vec2D, corners: Seq<Vec2D>)
    requires
        corners.len() > 0,
    ensures
        path_len(head, corners) == Vec2D::spec_dist(head, corners[0]) + path_len(
            corners[0],
            corners.skip(1),
        ),
{
    lemma_path_len_insert(head, corners.skip(1), corners[0]);
    assert(corners.skip(1).insert(0, corners[0]) =~= corners);
}

/// No more corners are kept than there are.
pub proof fn lemma_whole_corners_le(head: Vec2D, corners: Seq<Vec2D>, target: int)
    ensures
        whole_corners(head, corners, target) <= corners.len(),
    decreases corners.len(),
{
    if !(corners.len() == 0 || path_len(head, corners) <= target) {
        lemma_whole_corners_le(head, corners.drop_last(), target);
    }
}

/// A trail that fits in `target` is not changed by shortening it.
pub proof fn lemma_retracted_fits(head: Vec2D, corners: Seq<Vec2D>, target: int)
    requires
        corners.len() == 0 || path_len(head, corners) <= target,
    ensures
        retracted(head, corners, target) == corners,
{
    assert(corners.take(corners.len() as int) =~= corners);
}

/// When the trail is too long and stays at least as long as `target` without
/// its last corner, the last corner does not matter.
pub proof fn lemma_retracted_drop(head: Vec2D, corners: Seq<Vec2D>, target: int)
    requires
        corners.len() > 0,
        path_len(head, corners) > target,
        path_len(head, corners.drop_last()) >= target,
    ensures
        retracted(head, corners, target) == retracted(head, corners.drop_last(), target),
{
    let shorter = corners.drop_last();
    let m = whole_corners(head, corners, target) as int;
    assert(m == whole_corners(head, shorter, target));
    lemma_whole_corners_le(head, shorter, target);
    assert(corners.take(m) =~= shorter.take(m));
    if m == shorter.len() {
        assert(shorter.take(m) =~= shorter);
    } else {
        assert(corners.take(m + 1) =~= shorter.take(m + 1));
        assert(follow_target(head, corners, m) == follow_target(head, shorter, m));
    }
}

/// When the trail is too long and would be too short without its last
/// corner, the last corner moves toward the one before it by the excess.
pub proof fn lemma_retracted_slide(head: Vec2D, corners: Seq<Vec2D>, target: int)
    requires
        corners.len() > 0,
        path_len(head, corners) > target,
        path_len(head, corners.drop_last()) < target,
    ensures
        retracted(head, corners, target) == corners.update(
            corners.len() - 1,
            slide(
                corners.last(),
                follow_target(head, corners, corners.len() - 1),
                path_len(head, corners) - target,
            ),
        ),
{
    let shorter = corners.drop_last();
    let m = whole_corners(head, corners, target) as int;
    assert(m == whole_corners(head, shorter, target));
    assert(m == shorter.len());
    assert(corners.take(m) =~= shorter);
    assert(corners.take(m + 1) =~= corners);
    assert(retracted(head, corners, target) =~= corners.update(
        corners.len() - 1,
        slide(
            corners.last(),
            follow_target(head, corners, corners.len() - 1),
            path_len(head, corners) - target,
        ),
    ));
}

/// Shortening a trail leaves its corners in the coordinate range, adds no
/// corner and no length.
pub proof fn lemma_retracted_in_range(head: Vec2D, corners: Seq<Vec2D>, target: int)
    requires
        head.in_range(),
        all_in_range(corners),
    ensures
        all_in_range(retracted(head, corners, target)),
        retracted(head, corners, target).len() <= corners.len(),
        path_len(head, retracted(head, corners, target)) <= path_len(head, corners),
    decreases corners.len(),
{
    let n = corners.len() as int;
    if n == 0 || path_len(head, corners) <= target {
        lemma_retracted_fits(head, corners, target);
    } else {
        let shorter = corners.drop_last();
        lemma_in_range_drop_last(corners);
        assert(follow_target(head, corners, n - 1).in_range());
        lemma_dist_bound(follow_target(head, corners, n - 1), corners[n - 1]);
        if path_len(head, shorter) >= target {
            lemma_retracted_drop(head, corners, target);
            lemma_retracted_in_range(head, shorter, target);
        } else {
            lemma_retracted_slide(head, corners, target);
            let last = corners[n - 1];
            let follow = follow_target(head, corners, n - 1);
            let excess = path_len(head, corners) - target;
            let result = corners.update(n - 1, slide(last, follow, excess));
            lemma_dist_symmetric(follow, last);
            lemma_slide_in_range(last, follow, excess);
            lemma_slide_approaches(last, follow, excess);
            assert(result.drop_last() =~= shorter);
            assert(follow_target(head, result, n - 1) == follow);
            assert forall|i: int| 0 <= i < result.len() implies (#[trigger] result[i]).in_range(
            ) by {
                if i < n - 1 {
                    assert(corners[i].in_range());
                }
            }
        }
    }
}

/// Shortening a trail leaves no empty segment behind: a corner that was
/// moved does not lie on the point it follows.
pub proof fn lemma_retracted_no_empty_segment(head: Vec2D, corners: Seq<Vec2D>, target: int)
    requires
        head.in_range(),
        all_in_range(corners),
    ensures
        ({
            let kept = retracted(head, corners, target);
            kept.len() > 0 && kept.last() != corners[kept.len() - 1] ==> kept.last()
                != follow_target(head, kept, kept.len() - 1)
        }),
    decreases corners.len(),
{
    let n = corners.len() as int;
    if n == 0 || path_len(head, corners) <= target {
        lemma_retracted_fits(head, corners, target);
    } else {
        let shorter = corners.drop_last();
        lemma_in_range_drop_last(corners);
        let follow = follow_target(head, corners, n - 1);
        let last = corners[n - 1];
        assert(follow.in_range());
        lemma_path_len_bound(head, shorter);
        if path_len(head, shorter) >= target {
            lemma_retracted_drop(head, corners, target);
            lemma_retracted_no_empty_segment(head, shorter, target);
            lemma_retracted_in_range(head, shorter, target);
            let kept = retracted(head, shorter, target);
            if kept.len() > 0 {
                assert(shorter[kept.len() - 1] == corners[kept.len() - 1]);
            }
        } else {
            lemma_retracted_slide(head, corners, target);
            let excess = path_len(head, corners) - target;
            let result = corners.update(n - 1, slide(last, follow, excess));
            lemma_dist_symmetric(follow, last);
            lemma_slide_stops_short(last, follow, excess);
            assert(follow_target(head, result, n - 1) == follow);
        }
    }
}

/// Shortening a trail of axis-parallel segments is exact: a trail that is
/// longer than `target` comes out with a length of exactly `target` (of
/// zero, if `target` is negative), and its segments stay axis-parallel.
pub proof fn lemma_retracted_length(head: Vec2D, corners: Seq<Vec2D>, target: int)
    requires
        head.in_range(),
        all_in_range(corners),
        rectilinear(head, corners),
    ensures
        all_in_range(retracted(head, corners, target)),
        rectilinear(head, retracted(head, corners, target)),
        path_len(head, retracted(head, corners, target)) == if path_len(head, corners)
            <= target {
            path_len(head, corners)
        } else if target < 0 {
            0
        } else {
            target
        },
        retracted(head, corners, target).len() <= corners.len(),
        retracted(head, corners, target).len() > 0 ==> axis_parallel(
            head,
            retracted(head, corners, target)[0],
        ) && (head.x == corners[0].x ==> retracted(head, corners, target)[0].x == head.x) && (
        head.y == corners[0].y ==> retracted(head, corners, target)[0].y == head.y),
    decreases corners.len(),
{
    let n = corners.len() as int;
    if n == 0 || path_len(head, corners) <= target {
        lemma_retracted_fits(head, corners, target);
        if n > 0 {
            assert(segment_axis_parallel(head, corners, 0));
        }
    } else {
        let shorter = corners.drop_last();
        lemma_in_range_drop_last(corners);
        assert forall|i: int| 0 <= i < shorter.len() implies #[trigger] segment_axis_parallel(
            head,
            shorter,
            i,
        ) by {
            assert(segment_axis_parallel(head, corners, i));
        }
        lemma_path_len_bound(head, shorter);
        if path_len(head, shorter) >= target {
            lemma_retracted_drop(head, corners, target);
            lemma_retracted_length(head, shorter, target);
            if retracted(head, shorter, target).len() > 0 {
                assert(shorter[0] == corners[0]);
            }
        } else {
            lemma_retracted_slide(head, corners, target);
            let last = corners[n - 1];
            let follow = follow_target(head, corners, n - 1);
            let excess = path_len(head, corners) - target;
            let moved = slide(last, follow, excess);
            let result = corners.update(n - 1, moved);
            assert(segment_axis_parallel(head, corners, n - 1));
            assert(follow.in_range());
            lemma_dist_symmetric(follow, last);
            lemma_slide_axis_parallel(last, follow, excess);
            assert(result.drop_last() =~= shorter);
            assert(follow_target(head, result, n - 1) == follow);
            assert(path_len(head, result) == path_len(head, shorter) + Vec2D::spec_dist(
                follow,
                moved,
            ));
            assert forall|i: int| 0 <= i < result.len() implies (#[trigger] result[i]).in_range(
            ) by {
                if i < n - 1 {
                    assert(corners[i].in_range());
                }
            }
            assert forall|i: int| 0 <= i < result.len() implies #[trigger] segment_axis_parallel(
                head,
                result,
                i,
            ) by {
                if i < n - 1 {
                    assert(segment_axis_parallel(head, corners, i));
                }
            }
            assert(segment_axis_parallel(head, result, 0));
        }
    }
}

/// Shortening any trail brings it down to its target, up to the tolerance:
/// a trail that is longer than `target` comes out no longer than `target`
/// (than zero, if `target` is negative) and the tolerance of its excess.
pub proof fn lemma_retracted_tolerance(head: Vec2D, corners: Seq<Vec2D>, target: int)
    requires
        head.in_range(),
        all_in_range(corners),
    ensures
        path_len(head, retracted(head, corners, target)) <= if path_len(head, corners) <= target {
            path_len(head, corners)
        } else if target < 0 {
            tolerance(path_len(head, corners) - target)
        } else {
            target + tolerance(path_len(head, corners) - target)
        },
    decreases corners.len(),
{
    let n = corners.len() as int;
    if n == 0 || path_len(head, corners) <= target {
        lemma_retracted_fits(head, corners, target);
    } else {
        let shorter = corners.drop_last();
        lemma_in_range_drop_last(corners);
        let follow = follow_target(head, corners, n - 1);
        let last = corners[n - 1];
        assert(follow.in_range());
        lemma_dist_bound(follow, last);
        lemma_path_len_bound(head, shorter);
        if path_len(head, shorter) >= target {
            lemma_retracted_drop(head, corners, target);
            lemma_retracted_tolerance(head, shorter, target);
        } else {
            lemma_retracted_slide(head, corners, target);
            let excess = path_len(head, corners) - target;
            let result = corners.update(n - 1, slide(last, follow, excess));
            lemma_dist_symmetric(follow, last);
            lemma_slide_tolerance(last, follow, excess);
            assert(result.drop_last() =~= shorter);
            assert(follow_target(head, result, n - 1) == follow);
        }
    }
}

} // verus!
