//! Closed polygons: signed area, centroid, and clipping against a horizontal line.
//!
//! A polygon is an ordered list of vertices; the last vertex is joined to the
//! first. Edge `i` runs from vertex `i` to vertex `next_index(i, n)`.
//!
//! Area and centroid of a polygon of up to `FINE_COUNT` vertices within
//! `FINE_REACH` of the axes come from exact sums and are rounded once. For a
//! polygon beyond that, the terms of the sums are rounded one by one.
use crate::basic_structs::Vector2D;
use crate::fixed::{
    div_toward_zero, div_wide, magnitude, mul_div_exact, saturate_wide, Fixed, SCALE,
};
use crate::summation::sum_to;
use vstd::prelude::*;

verus! {

/// Raw area below which a polygon counts as degenerate.
pub const AREA_EPSILON: i64 = 1;

/// Index of the vertex that follows vertex `i` in a closed polygon of `n` vertices.
pub open spec fn next_index(i: int, n: int) -> int {
    if i + 1 < n {
        i + 1
    } else {
        0
    }
}

/// Cross product of the end points of edge `i`, in raw units.
pub open spec fn edge_cross(poly: Seq<Vector2D>, i: int) -> int {
    poly[i].cross_spec(poly[next_index(i, poly.len() as int)]).raw as int
}

/// The cross products of the edges, as a function of the edge's index.
pub open spec fn edge_crosses(poly: Seq<Vector2D>) -> spec_fn(int) -> int {
    |i: int| edge_cross(poly, i)
}

/// Twice the signed area from rounded cross products: positive for a
/// counter-clockwise polygon.
pub open spec fn twice_signed_area(poly: Seq<Vector2D>) -> int {
    sum_to(edge_crosses(poly), poly.len() as int)
}

/// Magnitude of the signed area, in raw units, rounded down.
///
/// For a polygon that `is_fine` the shoelace sum is exact and the area is
/// rounded once. Beyond that the cross products are rounded one by one, as
/// `twice_signed_area` has it.
pub open spec fn area_magnitude(poly: Seq<Vector2D>) -> int {
    if is_fine(poly) {
        magnitude(exact_twice_area(poly)) / (2 * SCALE)
    } else {
        magnitude(twice_signed_area(poly)) / 2
    }
}

/// Area enclosed by the polygon; zero for fewer than three vertices.
pub open spec fn polygon_area_spec(poly: Seq<Vector2D>) -> Fixed {
    if poly.len() < 3 {
        Fixed { raw: 0 }
    } else {
        Fixed::of(area_magnitude(poly))
    }
}

/// First moment of edge `i` about the y axis (`along_x`) or the x axis: the
/// sum of the two end points' coordinates times the edge's cross product.
pub open spec fn edge_moment(poly: Seq<Vector2D>, along_x: bool, i: int) -> int {
    let p = poly[i];
    let q = poly[next_index(i, poly.len() as int)];
    let cross = p.cross_spec(q);
    if along_x {
        p.x.add_spec(q.x).mul_spec(cross).raw as int
    } else {
        p.y.add_spec(q.y).mul_spec(cross).raw as int
    }
}

/// The first moments of the edges, as a function of the edge's index.
pub open spec fn edge_moments(poly: Seq<Vector2D>, along_x: bool) -> spec_fn(int) -> int {
    |i: int| edge_moment(poly, along_x, i)
}

/// The raw x (`along_x`) or y coordinates of the vertices, as a function of the vertex's index.
pub open spec fn coordinates(poly: Seq<Vector2D>, along_x: bool) -> spec_fn(int) -> int {
    |i: int|
        if along_x {
            poly[i].x.raw as int
        } else {
            poly[i].y.raw as int
        }
}

/// Arithmetic mean of the vertices, each coordinate rounded toward zero; the
/// origin for an empty list.
pub open spec fn vertex_mean(poly: Seq<Vector2D>) -> Vector2D {
    let n = poly.len() as int;
    Vector2D {
        x: Fixed::of(div_toward_zero(sum_to(coordinates(poly, true), n), n)),
        y: Fixed::of(div_toward_zero(sum_to(coordinates(poly, false), n), n)),
    }
}

/// Largest raw magnitude of a coordinate of a polygon whose centroid is
/// computed from exact sums: two to the power of thirty-six, about
/// sixty-eight meters.
pub const FINE_REACH: i64 = 68_719_476_736;

/// Largest number of vertices of a polygon whose centroid is computed from
/// exact sums.
pub const FINE_COUNT: usize = 65_536;

/// Whether the centroid of a polygon is computed from exact sums: it has at
/// most `FINE_COUNT` vertices, none further than `FINE_REACH` from either axis.
pub open spec fn is_fine(poly: Seq<Vector2D>) -> bool {
    poly.len() <= FINE_COUNT && forall|i: int|
        0 <= i < poly.len() ==> -FINE_REACH <= (#[trigger] poly[i]).x.raw <= FINE_REACH
            && -FINE_REACH <= poly[i].y.raw <= FINE_REACH
}

/// The cross product of the end points of edge `i`, without rounding, in
/// squared raw units.
pub open spec fn exact_cross(poly: Seq<Vector2D>, i: int) -> int {
    let p = poly[i];
    let q = poly[next_index(i, poly.len() as int)];
    p.x.raw * q.y.raw - q.x.raw * p.y.raw
}

/// The sum of the end points' x (`along_x`) or y coordinates of edge `i`.
pub open spec fn edge_reach(poly: Seq<Vector2D>, along_x: bool, i: int) -> int {
    let p = poly[i];
    let q = poly[next_index(i, poly.len() as int)];
    if along_x {
        p.x.raw + q.x.raw
    } else {
        p.y.raw + q.y.raw
    }
}

/// The first moment of edge `i`, without rounding, in cubed raw units.
pub open spec fn exact_moment(poly: Seq<Vector2D>, along_x: bool, i: int) -> int {
    edge_reach(poly, along_x, i) * exact_cross(poly, i)
}

/// The exact cross products of the edges, as a function of the edge's index.
pub open spec fn exact_crosses(poly: Seq<Vector2D>) -> spec_fn(int) -> int {
    |i: int| exact_cross(poly, i)
}

/// The exact first moments of the edges, as a function of the edge's index.
pub open spec fn exact_moments(poly: Seq<Vector2D>, along_x: bool) -> spec_fn(int) -> int {
    |i: int| exact_moment(poly, along_x, i)
}

/// Twice the signed area, without rounding, in squared raw units.
pub open spec fn exact_twice_area(poly: Seq<Vector2D>) -> int {
    sum_to(exact_crosses(poly), poly.len() as int)
}

/// Six times the first moment of the area about the y axis (`along_x`) or the
/// x axis, without rounding, in cubed raw units.
pub open spec fn exact_first_moment(poly: Seq<Vector2D>, along_x: bool) -> int {
    sum_to(exact_moments(poly, along_x), poly.len() as int)
}

/// Centroid by the area-weighted formula from the rounded terms: the sum of
/// the edge moments divided by six times the signed area.
pub open spec fn coarse_centroid(poly: Seq<Vector2D>) -> Vector2D {
    let n = poly.len() as int;
    let six_areas = Fixed::of(twice_signed_area(poly)).mul_int_spec(3);
    Vector2D {
        x: Fixed::of(sum_to(edge_moments(poly, true), n)).div_spec(six_areas),
        y: Fixed::of(sum_to(edge_moments(poly, false), n)).div_spec(six_areas),
    }
}

/// Centroid by the area-weighted formula `(1 / 6A) * sum((p + q) * cross)`.
///
/// For a polygon that `is_fine` the two sums are exact and the quotient is
/// rounded once, toward zero. Beyond that the terms of the sums are rounded
/// one by one, as `coarse_centroid` has it.
pub open spec fn analytic_centroid(poly: Seq<Vector2D>) -> Vector2D {
    if is_fine(poly) {
        let three_twice_areas = 3 * exact_twice_area(poly);
        Vector2D {
            x: Fixed::of(div_toward_zero(exact_first_moment(poly, true), three_twice_areas)),
            y: Fixed::of(div_toward_zero(exact_first_moment(poly, false), three_twice_areas)),
        }
    } else {
        coarse_centroid(poly)
    }
}

/// Centroid of a closed polygon: the area-weighted centroid, or the mean of
/// the vertices where the area is below `AREA_EPSILON`.
pub open spec fn calculate_centroid_spec(poly: Seq<Vector2D>) -> Vector2D {
    if area_magnitude(poly) < AREA_EPSILON {
        vertex_mean(poly)
    } else {
        analytic_centroid(poly)
    }
}

/// Point of application of the pressure on a submerged polygon: its
/// area-weighted centroid, or the mean of its vertices where its area is below
/// `AREA_EPSILON`, as it is for every list of fewer than three vertices.
pub open spec fn pressure_center_spec(poly: Seq<Vector2D>) -> Vector2D {
    if polygon_area_spec(poly).raw < AREA_EPSILON {
        vertex_mean(poly)
    } else {
        analytic_centroid(poly)
    }
}

/// Largest magnitude of the exact cross product of an edge of a polygon that
/// `is_fine`: two to the power of seventy-three.
pub const TERM_REACH: i128 = 0x200_0000_0000_0000_0000;

/// Largest magnitude of the exact first moment of an edge of a polygon that
/// `is_fine`: two to the power of one hundred and ten.
pub const MOMENT_REACH: i128 = 0x4000_0000_0000_0000_0000_0000_0000;

/// The exact cross product and first moments of an edge between two points
/// within `FINE_REACH` stay within `TERM_REACH` and `MOMENT_REACH`.
proof fn lemma_term_bounds(px: int, py: int, qx: int, qy: int)
    requires
        -FINE_REACH <= px <= FINE_REACH,
        -FINE_REACH <= py <= FINE_REACH,
        -FINE_REACH <= qx <= FINE_REACH,
        -FINE_REACH <= qy <= FINE_REACH,
    ensures
        -0x100_0000_0000_0000_0000 <= px * qy <= 0x100_0000_0000_0000_0000,
        -0x100_0000_0000_0000_0000 <= qx * py <= 0x100_0000_0000_0000_0000,
        -TERM_REACH <= px * qy - qx * py <= TERM_REACH,
        -MOMENT_REACH <= (px + qx) * (px * qy - qx * py) <= MOMENT_REACH,
        -MOMENT_REACH <= (py + qy) * (px * qy - qx * py) <= MOMENT_REACH,
{
    let r: int = 0x10_0000_0000;
    assert(-(r * r) <= px * qy <= r * r && -(r * r) <= qx * py <= r * r) by (nonlinear_arith)
        requires
            -r <= px <= r,
            -r <= py <= r,
            -r <= qx <= r,
            -r <= qy <= r,
    ;
    assert(r * r == 0x100_0000_0000_0000_0000) by (nonlinear_arith)
        requires
            r == 0x10_0000_0000,
    ;
    let cross = px * qy - qx * py;
    let t: int = 0x200_0000_0000_0000_0000;
    assert(-(2 * r * t) <= (px + qx) * cross <= 2 * r * t && -(2 * r * t) <= (py + qy) * cross <= 2
        * r * t) by (nonlinear_arith)
        requires
            -2 * r <= px + qx <= 2 * r,
            -2 * r <= py + qy <= 2 * r,
            -t <= cross <= t,
            r >= 0,
            t >= 0,
    ;
    assert(2 * r * t == 0x4000_0000_0000_0000_0000_0000_0000) by (nonlinear_arith)
        requires
            r == 0x10_0000_0000,
            t == 0x200_0000_0000_0000_0000,
    ;
}

/// Which of the three sums over a polygon a loop accumulates.
#[derive(Clone, Copy, PartialEq, Eq, Structural)]
enum Tally {
    Cross,
    Moment { along_x: bool },
    Coordinate { along_x: bool },
}

/// The terms of a tally, as a function of the index.
spec fn tally_terms(poly: Seq<Vector2D>, tally: Tally) -> spec_fn(int) -> int {
    match tally {
        Tally::Cross => edge_crosses(poly),
        Tally::Moment { along_x } => edge_moments(poly, along_x),
        Tally::Coordinate { along_x } => coordinates(poly, along_x),
    }
}

/// One term of a tally.
fn tally_term(poly: &[Vector2D], tally: Tally, i: usize) -> (r: i64)
    requires
        i < poly.len(),
    ensures
        r == tally_terms(poly@, tally)(i as int),
{
    let n = poly.len();
    let p = poly[i];
    let q = if i + 1 < n {
        poly[i + 1]
    } else {
        poly[0]
    };
    match tally {
        Tally::Cross => p.cross(q).raw,
        Tally::Moment { along_x } => {
            if along_x {
                p.x.add(q.x).mul(p.cross(q)).raw
            } else {
                p.y.add(q.y).mul(p.cross(q)).raw
            }
        },
        Tally::Coordinate { along_x } => {
            if along_x {
                p.x.raw
            } else {
                p.y.raw
            }
        },
    }
}

/// The sum of a tally over the whole polygon, exactly.
fn tally_sum(poly: &[Vector2D], tally: Tally) -> (r: i128)
    ensures
        r == sum_to(tally_terms(poly@, tally), poly@.len() as int),
        -0x7fff_ffff_ffff_ffff_ffff_ffff_ffff_ffff < r,
{
    let n = poly.len();
    let ghost f = tally_terms(poly@, tally);
    let mut acc: i128 = 0;
    let mut i: usize = 0;
    while i < n
        invariant
            n == poly.len(),
            0 <= i <= n,
            f == tally_terms(poly@, tally),
            acc == sum_to(f, i as int),
            -(i * 0x8000_0000_0000_0000) <= acc <= i * 0x8000_0000_0000_0000,
        decreases n - i,
    {
        let term = tally_term(poly, tally, i);
        acc = acc + term as i128;
        i = i + 1;
    }
    acc
}

/// Magnitude of a wide integer, halved and clamped to a fixed-point number.
fn half_magnitude(v: i128) -> (r: Fixed)
    requires
        v > -0x7fff_ffff_ffff_ffff_ffff_ffff_ffff_ffff,
    ensures
        r == Fixed::of(magnitude(v as int) / 2),
{
    let m: i128 = if v < 0 {
        -v
    } else {
        v
    };
    Fixed { raw: saturate_wide(m / 2) }
}

/// Area enclosed by a closed polygon, by the shoelace formula.
///
/// The result does not depend on the direction in which the vertices are
/// listed nor on the vertex the list starts with, and is zero for fewer than
/// three vertices.
pub fn polygon_area(poly: &[Vector2D]) -> (r: Fixed)
    ensures
        r == polygon_area_spec(poly@),
{
    if poly.len() < 3 {
        return Fixed::zero();
    }
    if fits_exact_sums(poly) {
        let (twice, _moment_x, _moment_y) = exact_sums(poly);
        exact_area(twice)
    } else {
        half_magnitude(tally_sum(poly, Tally::Cross))
    }
}

/// The area that goes with an exact twice-area, rounded down and clamped.
fn exact_area(twice: i128) -> (r: Fixed)
    requires
        -FINE_COUNT * TERM_REACH <= twice <= FINE_COUNT * TERM_REACH,
    ensures
        r == Fixed::of(magnitude(twice as int) / (2 * SCALE)),
{
    let m: i128 = if twice < 0 {
        -twice
    } else {
        twice
    };
    Fixed { raw: saturate_wide(m / (2 * (SCALE as i128))) }
}

/// Arithmetic mean of the vertices.
fn mean_of_vertices(poly: &[Vector2D]) -> (r: Vector2D)
    ensures
        r == vertex_mean(poly@),
{
    let n = poly.len();
    let sum_x = tally_sum(poly, Tally::Coordinate { along_x: true });
    let sum_y = tally_sum(poly, Tally::Coordinate { along_x: false });
    Vector2D { x: quotient_by_count(sum_x, n), y: quotient_by_count(sum_y, n) }
}

/// A wide sum divided by a count, rounded toward zero and clamped.
fn quotient_by_count(sum: i128, n: usize) -> (r: Fixed)
    requires
        -0x7fff_ffff_ffff_ffff_ffff_ffff_ffff_ffff < sum,
    ensures
        r == Fixed::of(div_toward_zero(sum as int, n as int)),
{
    if n == 0 {
        return Fixed::zero();
    }
    let d = n as i128;
    if sum >= 0 {
        Fixed { raw: saturate_wide(sum / d) }
    } else {
        Fixed { raw: saturate_wide(-((-sum) / d)) }
    }
}

/// Whether the polygon `is_fine`.
fn fits_exact_sums(poly: &[Vector2D]) -> (r: bool)
    ensures
        r == is_fine(poly@),
{
    let n = poly.len();
    if n > FINE_COUNT {
        return false;
    }
    let mut i: usize = 0;
    while i < n
        invariant
            n == poly.len(),
            n <= FINE_COUNT,
            0 <= i <= n,
            forall|k: int|
                0 <= k < i ==> -FINE_REACH <= (#[trigger] poly@[k]).x.raw <= FINE_REACH
                    && -FINE_REACH <= poly@[k].y.raw <= FINE_REACH,
        decreases n - i,
    {
        let p = poly[i];
        if p.x.raw < -FINE_REACH || p.x.raw > FINE_REACH || p.y.raw < -FINE_REACH || p.y.raw
            > FINE_REACH {
            return false;
        }
        i = i + 1;
    }
    true
}

/// The exact cross product and the two exact first moments of edge `i` of a
/// polygon that `is_fine`.
fn exact_terms(poly: &[Vector2D], i: usize) -> (r: (i128, i128, i128))
    requires
        is_fine(poly@),
        i < poly.len(),
    ensures
        r.0 == exact_cross(poly@, i as int),
        r.1 == exact_moment(poly@, true, i as int),
        r.2 == exact_moment(poly@, false, i as int),
        -TERM_REACH <= r.0 <= TERM_REACH,
        -MOMENT_REACH <= r.1 <= MOMENT_REACH,
        -MOMENT_REACH <= r.2 <= MOMENT_REACH,
{
    let n = poly.len();
    let p = poly[i];
    let q = if i + 1 < n {
        poly[i + 1]
    } else {
        poly[0]
    };
    let px = p.x.raw as i128;
    let py = p.y.raw as i128;
    let qx = q.x.raw as i128;
    let qy = q.y.raw as i128;
    proof {
        lemma_term_bounds(px as int, py as int, qx as int, qy as int);
    }
    let cross = px * qy - qx * py;
    (cross, (px + qx) * cross, (py + qy) * cross)
}

/// The exact twice-area and the two exact first moments of a polygon that
/// `is_fine`.
fn exact_sums(poly: &[Vector2D]) -> (r: (i128, i128, i128))
    requires
        is_fine(poly@),
    ensures
        r.0 == exact_twice_area(poly@),
        r.1 == exact_first_moment(poly@, true),
        r.2 == exact_first_moment(poly@, false),
        -FINE_COUNT * TERM_REACH <= r.0 <= FINE_COUNT * TERM_REACH,
        -FINE_COUNT * MOMENT_REACH <= r.1 <= FINE_COUNT * MOMENT_REACH,
        -FINE_COUNT * MOMENT_REACH <= r.2 <= FINE_COUNT * MOMENT_REACH,
{
    let n = poly.len();
    let mut twice: i128 = 0;
    let mut moment_x: i128 = 0;
    let mut moment_y: i128 = 0;
    let mut i: usize = 0;
    while i < n
        invariant
            n == poly.len(),
            is_fine(poly@),
            0 <= i <= n,
            twice == sum_to(exact_crosses(poly@), i as int),
            moment_x == sum_to(exact_moments(poly@, true), i as int),
            moment_y == sum_to(exact_moments(poly@, false), i as int),
            -i * TERM_REACH <= twice <= i * TERM_REACH,
            -i * MOMENT_REACH <= moment_x <= i * MOMENT_REACH,
            -i * MOMENT_REACH <= moment_y <= i * MOMENT_REACH,
        decreases n - i,
    {
        let (cross, mx, my) = exact_terms(poly, i);
        twice = twice + cross;
        moment_x = moment_x + mx;
        moment_y = moment_y + my;
        i = i + 1;
    }
    (twice, moment_x, moment_y)
}

/// Centroid of a closed polygon.
///
/// For a polygon whose area is at least `AREA_EPSILON` this is the
/// area-weighted centroid; for a degenerate one, the arithmetic mean of its
/// vertices. No division by a vanishing area takes place. For a polygon that
/// `is_fine` the centroid is the exact one, rounded toward zero once.
pub fn calculate_centroid(poly: &[Vector2D]) -> (r: Vector2D)
    ensures
        r == calculate_centroid_spec(poly@),
{
    if fits_exact_sums(poly) {
        let (exact_twice, moment_x, moment_y) = exact_sums(poly);
        if exact_area(exact_twice).raw < AREA_EPSILON {
            return mean_of_vertices(poly);
        }
        let three_twice_areas = 3 * exact_twice;
        return Vector2D {
            x: Fixed { raw: div_wide(moment_x, three_twice_areas) },
            y: Fixed { raw: div_wide(moment_y, three_twice_areas) },
        };
    }
    let twice = tally_sum(poly, Tally::Cross);
    if half_magnitude(twice).raw < AREA_EPSILON {
        return mean_of_vertices(poly);
    }
    let six_areas = Fixed { raw: saturate_wide(twice) }.mul_int(3);
    let moment_x = tally_sum(poly, Tally::Moment { along_x: true });
    let moment_y = tally_sum(poly, Tally::Moment { along_x: false });
    Vector2D {
        x: Fixed { raw: saturate_wide(moment_x) }.div(six_areas),
        y: Fixed { raw: saturate_wide(moment_y) }.div(six_areas),
    }
}

/// Point at which the pressure on a submerged polygon acts.
///
/// This is the centroid of the polygon. A degenerate polygon, one whose area
/// is below `AREA_EPSILON`, has the arithmetic mean of its vertices as its
/// pressure center; a polygon of fewer than three vertices has no area and is
/// degenerate. No quotient by a vanishing area is taken.
pub fn pressure_center(clipped: &[Vector2D]) -> (r: Vector2D)
    ensures
        r == pressure_center_spec(clipped@),
{
    let area = polygon_area(clipped);
    if area.raw < AREA_EPSILON {
        return mean_of_vertices(clipped);
    }
    calculate_centroid(clipped)
}

/// Whether a point lies strictly below the horizontal line at height `line_y`.
pub open spec fn is_below(p: Vector2D, line_y: Fixed) -> bool {
    p.y.raw < line_y.raw
}

/// Whether both points lie strictly above, or both strictly below, the line.
pub open spec fn same_side(p1: Vector2D, p2: Vector2D, y: Fixed) -> bool {
    (p1.y.raw < y.raw && p2.y.raw < y.raw) || (p1.y.raw > y.raw && p2.y.raw > y.raw)
}

/// The point at height `y` on the line through `p1` and `p2`: `p1.x` moved by
/// `(y - p1.y) * (p2.x - p1.x) / (p2.y - p1.y)`, rounded once toward zero.
pub open spec fn crossing_point(p1: Vector2D, p2: Vector2D, y: Fixed) -> Vector2D {
    Vector2D {
        x: Fixed::of(
            p1.x.raw + div_toward_zero(
                (y.raw - p1.y.raw) * (p2.x.raw - p1.x.raw),
                p2.y.raw - p1.y.raw,
            ),
        ),
        y,
    }
}

/// Where the segment from `p1` to `p2` meets the horizontal line at height `y`.
/// There is no such point when both ends lie strictly on one side of the line,
/// or when the segment is horizontal.
pub open spec fn intersect_with_horizontal_spec(p1: Vector2D, p2: Vector2D, y: Fixed) -> Option<
    Vector2D,
> {
    if same_side(p1, p2, y) || p1.y.raw == p2.y.raw {
        None
    } else {
        Some(crossing_point(p1, p2, y))
    }
}

/// The vertices that one edge contributes to the clipped polygon.
pub open spec fn edge_output(cur: Vector2D, next: Vector2D, line_y: Fixed) -> Seq<Vector2D> {
    if is_below(cur, line_y) {
        if is_below(next, line_y) {
            seq![next]
        } else {
            match intersect_with_horizontal_spec(cur, next, line_y) {
                Some(p) => seq![p],
                None => Seq::empty(),
            }
        }
    } else {
        if is_below(next, line_y) {
            match intersect_with_horizontal_spec(cur, next, line_y) {
                Some(p) => seq![p, next],
                None => seq![next],
            }
        } else {
            Seq::empty()
        }
    }
}

/// The vertices contributed by the first `k` edges, in order.
pub open spec fn clip_prefix(poly: Seq<Vector2D>, line_y: Fixed, k: int) -> Seq<Vector2D>
    decreases k,
{
    if k <= 0 {
        Seq::empty()
    } else {
        clip_prefix(poly, line_y, k - 1) + edge_output(
            poly[k - 1],
            poly[next_index(k - 1, poly.len() as int)],
            line_y,
        )
    }
}

/// The part of a closed polygon that lies strictly below a horizontal line.
pub open spec fn clip_spec(poly: Seq<Vector2D>, line_y: Fixed) -> Seq<Vector2D> {
    clip_prefix(poly, line_y, poly.len() as int)
}

/// Where the segment from `p1` to `p2` meets the horizontal line at height `y`, if it does.
pub fn intersect_with_horizontal(p1: Vector2D, p2: Vector2D, y: Fixed) -> (r: Option<Vector2D>)
    ensures
        r == intersect_with_horizontal_spec(p1, p2, y),
{
    if (p1.y.raw < y.raw && p2.y.raw < y.raw) || (p1.y.raw > y.raw && p2.y.raw > y.raw) {
        return None;
    }
    if p1.y.raw == p2.y.raw {
        return None;
    }
    let rise: i128 = y.raw as i128 - p1.y.raw as i128;
    let height: i128 = p2.y.raw as i128 - p1.y.raw as i128;
    let width: i128 = p2.x.raw as i128 - p1.x.raw as i128;
    let offset = mul_div_exact(rise, width, height);
    Some(Vector2D { x: Fixed { raw: saturate_wide(p1.x.raw as i128 + offset) }, y })
}

/// Clips a closed polygon against a horizontal line and keeps what lies below it.
///
/// Each edge is visited in order. An edge with both ends below the line
/// contributes its end vertex; an edge that leaves the lower side contributes
/// the point where it meets the line; an edge that enters the lower side
/// contributes that point and then its end vertex; an edge that stays on or
/// above the line contributes nothing. The polygon need not be convex. A
/// result of fewer than three vertices encloses no area.
pub fn clip_polygon_below_line(poly: &[Vector2D], line_y: Fixed) -> (output: Vec<Vector2D>)
    ensures
        output@ == clip_spec(poly@, line_y),
{
    let mut output: Vec<Vector2D> = Vec::new();
    let n = poly.len();
    let mut i: usize = 0;
    while i < n
        invariant
            n == poly.len(),
            0 <= i <= n,
            output@ == clip_prefix(poly@, line_y, i as int),
        decreases n - i,
    {
        let cur = poly[i];
        let next = if i + 1 < n {
            poly[i + 1]
        } else {
            poly[0]
        };
        let cur_inside = cur.y.raw < line_y.raw;
        let next_inside = next.y.raw < line_y.raw;
        let ghost before = output@;
        if cur_inside && next_inside {
            output.push(next);
        } else if cur_inside {
            if let Some(inter) = intersect_with_horizontal(cur, next, line_y) {
                output.push(inter);
            }
        } else if next_inside {
            if let Some(inter) = intersect_with_horizontal(cur, next, line_y) {
                output.push(inter);
            }
            output.push(next);
        }
        proof {
            assert(output@ =~= before + edge_output(cur, next, line_y));
        }
        i = i + 1;
    }
    output
}

} // verus!
