//! The outline of a stone has its centroid at the origin.
//!
//! Area and centroid are computed from exact sums, which move with the
//! polygon as the area and the centroid of a plane figure do.
use crate::basic_structs::Vector2D;
use crate::fixed::{div_toward_zero, lemma_division, magnitude, saturate};
use crate::geometry::{
    area_magnitude, calculate_centroid_spec, exact_cross, exact_crosses, exact_first_moment,
    exact_moments, exact_twice_area, is_fine, next_index, polygon_area_spec, AREA_EPSILON,
    FINE_COUNT, FINE_REACH,
};
use crate::fixed::Fixed;
use crate::stone_phy::{shifted, stone_model};
use crate::summation::lemma_sum_around;
use vstd::prelude::*;

verus! {

/// Largest raw magnitude of a coordinate for which the laws are stated:
/// ten meters.
pub const OUTLINE_REACH: i64 = 10_000_000_000;

/// Whether both coordinates of a point have a raw magnitude of at most `b`.
pub open spec fn point_within(p: Vector2D, b: int) -> bool {
    -b <= p.x.raw <= b && -b <= p.y.raw <= b
}

/// Whether every vertex lies within `b` of the origin in both coordinates.
pub open spec fn polygon_within(poly: Seq<Vector2D>, b: int) -> bool {
    forall|i: int| 0 <= i < poly.len() ==> point_within(#[trigger] poly[i], b)
}

/// What moving the origin to `(cx, cy)` adds to the exact cross product of an
/// edge that ends at `(x, y)`, and takes from that of the edge that starts there.
pub open spec fn cross_gain(x: int, y: int, cx: int, cy: int) -> int {
    cy * x - cx * y
}

/// What moving the origin to `(cx, cy)` adds to the exact first moment of an
/// edge that ends at `(x, y)`, and takes from that of the edge that starts there.
pub open spec fn moment_gain(x: int, y: int, cx: int, cy: int, along_x: bool) -> int {
    if along_x {
        cy * (x * x) - cx * (x * y) + 2 * ((cx * cx) * y) - 2 * ((cx * cy) * x)
    } else {
        cy * (x * y) - cx * (y * y) + 2 * ((cx * cy) * y) - 2 * ((cy * cy) * x)
    }
}

/// Moving the origin to `(cx, cy)` changes the exact cross product of the
/// edge from `(xi, yi)` to `(xj, yj)` by what cancels around a closed polygon.
proof fn lemma_cross_moved(xi: int, yi: int, xj: int, yj: int, cx: int, cy: int)
    ensures
        (xi - cx) * (yj - cy) - (xj - cx) * (yi - cy) == xi * yj - xj * yi + cross_gain(
            xj,
            yj,
            cx,
            cy,
        ) - cross_gain(xi, yi, cx, cy),
{
    assert((xi - cx) * (yj - cy) - (xj - cx) * (yi - cy) == xi * yj - xj * yi + (cy * xj - cx * yj)
        - (cy * xi - cx * yi)) by (nonlinear_arith);
}

/// Moving the origin to `(cx, cy)` changes the exact first moment of the edge
/// from `(xi, yi)` to `(xj, yj)` by three times the new origin's coordinate
/// times the edge's cross product, and by what cancels around a closed polygon.
proof fn lemma_moment_moved(
    xi: int,
    yi: int,
    xj: int,
    yj: int,
    cx: int,
    cy: int,
    along_x: bool,
)
    ensures
        ({
            let cross = xi * yj - xj * yi;
            let moved = (xi - cx) * (yj - cy) - (xj - cx) * (yi - cy);
            let gain = moment_gain(xj, yj, cx, cy, along_x) - moment_gain(xi, yi, cx, cy, along_x);
            if along_x {
                (xi - cx + (xj - cx)) * moved == (xi + xj) * cross - 3 * (cx * cross) + gain
            } else {
                (yi - cy + (yj - cy)) * moved == (yi + yj) * cross - 3 * (cy * cross) + gain
            }
        }),
{
    let cross = xi * yj - xj * yi;
    let moved = (xi - cx) * (yj - cy) - (xj - cx) * (yi - cy);
    lemma_cross_moved(xi, yi, xj, yj, cx, cy);
    let dx = xj - xi;
    let dy = yj - yi;
    assert(moved == cross + cy * dx - cx * dy) by (nonlinear_arith)
        requires
            moved == cross + (cy * xj - cx * yj) - (cy * xi - cx * yi),
            dx == xj - xi,
            dy == yj - yi,
    ;
    if along_x {
        let s = xi + xj;
        assert(s * dx == xj * xj - xi * xi) by (nonlinear_arith)
            requires
                s == xi + xj,
                dx == xj - xi,
        ;
        assert(s * dy == cross + xj * yj - xi * yi) by (nonlinear_arith)
            requires
                s == xi + xj,
                dy == yj - yi,
                cross == xi * yj - xj * yi,
        ;
        let k = s - 2 * cx;
        let a = cy * dx;
        let b = cx * dy;
        assert(k * moved == k * cross + k * a - k * b) by (nonlinear_arith)
            requires
                moved == cross + a - b,
        ;
        assert(k * cross == s * cross - 2 * (cx * cross)) by (nonlinear_arith)
            requires
                k == s - 2 * cx,
        ;
        assert((xi - cx + (xj - cx)) * moved == k * moved) by (nonlinear_arith)
            requires
                k == xi - cx + (xj - cx),
        ;
        assert(k * a == cy * (s * dx) - 2 * ((cx * cy) * dx)) by (nonlinear_arith)
            requires
                k == s - 2 * cx,
                a == cy * dx,
        ;
        assert(k * b == cx * (s * dy) - 2 * ((cx * cx) * dy)) by (nonlinear_arith)
            requires
                k == s - 2 * cx,
                b == cx * dy,
        ;
        assert(cy * (s * dx) == cy * (xj * xj) - cy * (xi * xi)) by (nonlinear_arith)
            requires
                s * dx == xj * xj - xi * xi,
        ;
        assert(cx * (s * dy) == cx * cross + cx * (xj * yj) - cx * (xi * yi)) by (nonlinear_arith)
            requires
                s * dy == cross + xj * yj - xi * yi,
        ;
        assert((cx * cy) * dx == (cx * cy) * xj - (cx * cy) * xi) by (nonlinear_arith)
            requires
                dx == xj - xi,
        ;
        assert((cx * cx) * dy == (cx * cx) * yj - (cx * cx) * yi) by (nonlinear_arith)
            requires
                dy == yj - yi,
        ;
    } else {
        let s = yi + yj;
        assert(s * dy == yj * yj - yi * yi) by (nonlinear_arith)
            requires
                s == yi + yj,
                dy == yj - yi,
        ;
        assert(s * dx == xj * yj - xi * yi - cross) by (nonlinear_arith)
            requires
                s == yi + yj,
                dx == xj - xi,
                cross == xi * yj - xj * yi,
        ;
        let k = s - 2 * cy;
        let a = cy * dx;
        let b = cx * dy;
        assert(k * moved == k * cross + k * a - k * b) by (nonlinear_arith)
            requires
                moved == cross + a - b,
        ;
        assert(k * cross == s * cross - 2 * (cy * cross)) by (nonlinear_arith)
            requires
                k == s - 2 * cy,
        ;
        assert((yi - cy + (yj - cy)) * moved == k * moved) by (nonlinear_arith)
            requires
                k == yi - cy + (yj - cy),
        ;
        assert(k * a == cy * (s * dx) - 2 * ((cy * cy) * dx)) by (nonlinear_arith)
            requires
                k == s - 2 * cy,
                a == cy * dx,
        ;
        assert(k * b == cx * (s * dy) - 2 * ((cx * cy) * dy)) by (nonlinear_arith)
            requires
                k == s - 2 * cy,
                b == cx * dy,
        ;
        assert(cy * (s * dx) == cy * (xj * yj) - cy * (xi * yi) - cy * cross) by (nonlinear_arith)
            requires
                s * dx == xj * yj - xi * yi - cross,
        ;
        assert(cx * (s * dy) == cx * (yj * yj) - cx * (yi * yi)) by (nonlinear_arith)
            requires
                s * dy == yj * yj - yi * yi,
        ;
        assert((cy * cy) * dx == (cy * cy) * xj - (cy * cy) * xi) by (nonlinear_arith)
            requires
                dx == xj - xi,
        ;
        assert((cx * cy) * dy == (cx * cy) * yj - (cx * cy) * yi) by (nonlinear_arith)
            requires
                dy == yj - yi,
        ;
    }
}

/// The x (`along_x`) or y coordinate of a point, in raw units.
pub open spec fn coordinate(p: Vector2D, along_x: bool) -> int {
    if along_x {
        p.x.raw as int
    } else {
        p.y.raw as int
    }
}

/// Seen from a point `c`, a polygon has the same exact area, and its exact
/// first moment is less by three times the coordinate of `c` times twice the
/// area: the centroid of the exact sums moves with the polygon.
pub proof fn lemma_exact_sums_moved(poly: Seq<Vector2D>, c: Vector2D, along_x: bool)
    requires
        poly.len() >= 1,
        polygon_within(poly, OUTLINE_REACH as int),
        point_within(c, OUTLINE_REACH as int),
    ensures
        polygon_within(shifted(poly, c), 2 * OUTLINE_REACH),
        exact_twice_area(shifted(poly, c)) == exact_twice_area(poly),
        exact_first_moment(shifted(poly, c), along_x) == exact_first_moment(poly, along_x) - 3
            * coordinate(c, along_x) * exact_twice_area(poly),
{
    let n = poly.len() as int;
    let moved = shifted(poly, c);
    let cx = c.x.raw as int;
    let cy = c.y.raw as int;
    assert forall|i: int| 0 <= i < n implies moved[i].x.raw == poly[i].x.raw - cx && moved[i].y.raw
        == poly[i].y.raw - cy && point_within(#[trigger] moved[i], 2 * OUTLINE_REACH) by {
        assert(point_within(poly[i], OUTLINE_REACH as int));
    }
    let k = 3 * coordinate(c, along_x);
    let area_gain = |i: int| cross_gain(poly[i].x.raw as int, poly[i].y.raw as int, cx, cy);
    let gain = |i: int| moment_gain(poly[i].x.raw as int, poly[i].y.raw as int, cx, cy, along_x);
    let h0 = exact_crosses(moved);
    let a0 = exact_crosses(poly);
    let h1 = exact_moments(moved, along_x);
    let a1 = exact_moments(poly, along_x);
    assert forall|i: int| 0 <= i < n implies #[trigger] h0(i) == a0(i) - 0 * a0(i) + area_gain(
        if i + 1 < n {
            i + 1
        } else {
            0
        },
    ) - area_gain(i) by {
        let j = next_index(i, n);
        lemma_cross_moved(
            poly[i].x.raw as int,
            poly[i].y.raw as int,
            poly[j].x.raw as int,
            poly[j].y.raw as int,
            cx,
            cy,
        );
        assert(moved[i].x.raw == poly[i].x.raw - cx && moved[j].x.raw == poly[j].x.raw - cx);
        assert(moved[i].y.raw == poly[i].y.raw - cy && moved[j].y.raw == poly[j].y.raw - cy);
    }
    lemma_sum_around(h0, a0, a0, area_gain, 0, n);
    assert forall|i: int| 0 <= i < n implies #[trigger] h1(i) == a1(i) - k * a0(i) + gain(
        if i + 1 < n {
            i + 1
        } else {
            0
        },
    ) - gain(i) by {
        let j = next_index(i, n);
        lemma_moment_moved(
            poly[i].x.raw as int,
            poly[i].y.raw as int,
            poly[j].x.raw as int,
            poly[j].y.raw as int,
            cx,
            cy,
            along_x,
        );
        assert(moved[i].x.raw == poly[i].x.raw - cx && moved[j].x.raw == poly[j].x.raw - cx);
        assert(moved[i].y.raw == poly[i].y.raw - cy && moved[j].y.raw == poly[j].y.raw - cy);
        let cross = exact_cross(poly, i);
        let ck = coordinate(c, along_x);
        assert(k * cross == 3 * (ck * cross)) by (nonlinear_arith)
            requires
                k == 3 * ck,
        ;
    }
    lemma_sum_around(h1, a1, a0, gain, k, n);
}

/// The centroid of a polygon with an area that `is_fine` is the exact one:
/// the exact first moment divided by three times the exact twice-area,
/// rounded toward zero once. Where it is not clamped it misses the exact
/// quotient by less than one unit of the last place.
pub proof fn lemma_centroid_is_exact(poly: Seq<Vector2D>, along_x: bool)
    requires
        is_fine(poly),
        area_magnitude(poly) >= AREA_EPSILON,
    ensures
        ({
            let c = coordinate(calculate_centroid_spec(poly), along_x);
            let moment = exact_first_moment(poly, along_x);
            let areas = 3 * exact_twice_area(poly);
            let quotient = div_toward_zero(moment, areas);
            &&& c == saturate(quotient)
            &&& areas != 0 && c == quotient ==> -magnitude(areas) < moment - areas * c < magnitude(
                areas,
            )
        }),
{
    let moment = exact_first_moment(poly, along_x);
    let areas = 3 * exact_twice_area(poly);
    if areas != 0 {
        lemma_division(moment, areas);
    }
}

/// A polygon seen from its own centroid has the area of the polygon, and
/// its centroid lies at the origin, exactly: moving the polygon moves the
/// exact sums along, and what is left of the first moment is less than the
/// divisor.
pub proof fn lemma_centroid_of_centered_polygon(poly: Seq<Vector2D>, along_x: bool)
    requires
        3 <= poly.len() <= FINE_COUNT,
        polygon_within(poly, OUTLINE_REACH as int),
        point_within(calculate_centroid_spec(poly), OUTLINE_REACH as int),
        area_magnitude(poly) >= AREA_EPSILON,
    ensures
        ({
            let centered = shifted(poly, calculate_centroid_spec(poly));
            &&& polygon_area_spec(centered) == polygon_area_spec(poly)
            &&& coordinate(calculate_centroid_spec(centered), along_x) == 0
        }),
{
    let n = poly.len() as int;
    let c = calculate_centroid_spec(poly);
    let centered = shifted(poly, c);
    let ck = coordinate(c, along_x);
    assert(is_fine(poly)) by {
        assert forall|i: int| 0 <= i < n implies -FINE_REACH <= (#[trigger] poly[i]).x.raw
            <= FINE_REACH && -FINE_REACH <= poly[i].y.raw <= FINE_REACH by {
            assert(point_within(poly[i], OUTLINE_REACH as int));
        }
    }
    lemma_exact_sums_moved(poly, c, along_x);
    assert(is_fine(centered)) by {
        assert forall|i: int| 0 <= i < n implies -FINE_REACH <= (#[trigger] centered[i]).x.raw
            <= FINE_REACH && -FINE_REACH <= centered[i].y.raw <= FINE_REACH by {
            assert(point_within(centered[i], 2 * OUTLINE_REACH));
        }
    }
    assert(area_magnitude(centered) == area_magnitude(poly));
    lemma_centroid_is_exact(poly, along_x);
    lemma_centroid_is_exact(centered, along_x);
    let moment = exact_first_moment(poly, along_x);
    let twice = exact_twice_area(poly);
    let areas = 3 * twice;
    let moved = exact_first_moment(centered, along_x);
    assert(moved == moment - 3 * ck * twice);
    assert(3 * ck * twice == areas * ck) by (nonlinear_arith)
        requires
            areas == 3 * twice,
    ;
    if areas != 0 {
        assert(ck == div_toward_zero(moment, areas));
        lemma_division(moved, areas);
        let q = div_toward_zero(moved, areas);
        assert(q == 0) by (nonlinear_arith)
            requires
                magnitude(areas) * magnitude(q) <= magnitude(moved),
                magnitude(moved) < magnitude(areas),
                magnitude(q) >= 0,
                magnitude(q) == 0 ==> q == 0,
        ;
    }
}

/// The outline of a stone has the area of the blueprint and its centroid at
/// the origin, exactly, for a blueprint of at most `FINE_COUNT` vertices that
/// lies, as its centroid does, within `OUTLINE_REACH` of the origin.
pub proof fn lemma_outline_centroid_at_origin(points: Seq<Vector2D>, thickness: Fixed)
    requires
        stone_model(points, thickness).n > 0,
        points.len() <= FINE_COUNT,
        polygon_within(points, OUTLINE_REACH as int),
        point_within(calculate_centroid_spec(points), OUTLINE_REACH as int),
    ensures
        ({
            let outline = stone_model(points, thickness).outline_com;
            &&& polygon_area_spec(outline) == polygon_area_spec(points)
            &&& calculate_centroid_spec(outline) == (Vector2D {
                x: Fixed { raw: 0 },
                y: Fixed { raw: 0 },
            })
        }),
{
    lemma_centroid_of_centered_polygon(points, true);
    lemma_centroid_of_centered_polygon(points, false);
}

} // verus!
