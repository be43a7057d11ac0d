//! What holds of the polygon functions for every polygon.
use crate::basic_structs::Vector2D;
use crate::fixed::{lemma_rounding_remainder, magnitude, Fixed, SCALE};
use crate::geometry::{
    area_magnitude, calculate_centroid_spec, clip_prefix, clip_spec, edge_cross, edge_crosses, edge_output,
    exact_cross, exact_crosses, exact_twice_area, is_below, is_fine, next_index,
    polygon_area_spec, pressure_center_spec, twice_signed_area, vertex_mean, AREA_EPSILON,
    FINE_REACH,
};
use crate::summation::{lemma_sum_negated, lemma_sum_reversed, lemma_sum_rotated, sum_to};
use vstd::prelude::*;

verus! {

/// The closed polygon listed from vertex `k` on: the same vertices in the same
/// cyclic order.
pub open spec fn rotated_left(poly: Seq<Vector2D>, k: int) -> Seq<Vector2D> {
    poly.subrange(k, poly.len() as int) + poly.subrange(0, k)
}

/// Swapping the two factors of a cross product changes its sign.
pub proof fn lemma_cross_antisymmetric(p: Vector2D, q: Vector2D)
    ensures
        q.cross_spec(p).raw == -p.cross_spec(q).raw,
{
}

/// The signed area does not depend on the vertex with which the list starts.
pub proof fn lemma_signed_area_rotation(poly: Seq<Vector2D>, k: int)
    requires
        0 <= k <= poly.len(),
    ensures
        twice_signed_area(rotated_left(poly, k)) == twice_signed_area(poly),
{
    let n = poly.len() as int;
    let turned = rotated_left(poly, k);
    let f = edge_crosses(poly);
    let g = edge_crosses(turned);
    assert(turned.len() == n);
    assert forall|i: int| 0 <= i < n - k implies #[trigger] g(i) == f(i + k) by {
        assert(turned[i] == poly[i + k]);
        if i + 1 < n - k {
            assert(turned[i + 1] == poly[i + k + 1]);
        } else if i + 1 < n {
            assert(turned[i + 1] == poly[0]);
        } else {
            assert(turned[0] == poly[k]);
        }
        assert(edge_cross(turned, i) == edge_cross(poly, i + k));
    }
    assert forall|i: int| n - k <= i < n implies #[trigger] g(i) == f(i + k - n) by {
        assert(turned[i] == poly[i + k - n]);
        if i + 1 < n {
            assert(turned[i + 1] == poly[i + 1 + k - n]);
        } else if k < n {
            assert(turned[0] == poly[k]);
        } else {
            assert(turned[0] == poly[0]);
        }
        assert(edge_cross(turned, i) == edge_cross(poly, i + k - n));
    }
    lemma_sum_rotated(f, g, n, k);
}

/// Listing the vertices in the opposite direction changes the sign of the signed area.
pub proof fn lemma_signed_area_reversal(poly: Seq<Vector2D>)
    ensures
        twice_signed_area(poly.reverse()) == -twice_signed_area(poly),
{
    let n = poly.len() as int;
    let back = poly.reverse();
    let f = edge_crosses(poly);
    let g = edge_crosses(back);
    if n > 0 {
        // Edge i of the reversed polygon is edge n - 2 - i of the polygon, run
        // backwards; its closing edge is the polygon's closing edge run backwards.
        let g_negated = |i: int| -g(i);
        assert forall|i: int| 0 <= i < n - 1 implies #[trigger] g_negated(i) == f(
            (n - 1) - 1 - i,
        ) by {
            assert(back[i] == poly[n - 1 - i]);
            assert(back[i + 1] == poly[n - 2 - i]);
            lemma_cross_antisymmetric(poly[n - 2 - i], poly[n - 1 - i]);
            assert(edge_cross(back, i) == -edge_cross(poly, n - 2 - i));
        }
        lemma_sum_reversed(f, g_negated, n - 1);
        assert forall|i: int| 0 <= i < n - 1 implies #[trigger] g_negated(i) == -g(i) by {}
        lemma_sum_negated(g, g_negated, n - 1);
        assert(back[n - 1] == poly[0]);
        assert(back[0] == poly[n - 1]);
        lemma_cross_antisymmetric(poly[n - 1], poly[0]);
        assert(g(n - 1) == -f(n - 1));
        assert(sum_to(g, n) == sum_to(g, n - 1) + g(n - 1));
        assert(sum_to(f, n) == sum_to(f, n - 1) + f(n - 1));
    }
}

/// The exact signed area does not depend on the vertex with which the list starts.
pub proof fn lemma_exact_area_rotation(poly: Seq<Vector2D>, k: int)
    requires
        0 <= k <= poly.len(),
    ensures
        exact_twice_area(rotated_left(poly, k)) == exact_twice_area(poly),
{
    let n = poly.len() as int;
    let turned = rotated_left(poly, k);
    let f = exact_crosses(poly);
    let g = exact_crosses(turned);
    assert(turned.len() == n);
    assert forall|i: int| 0 <= i < n - k implies #[trigger] g(i) == f(i + k) by {
        assert(turned[i] == poly[i + k]);
        if i + 1 < n - k {
            assert(turned[i + 1] == poly[i + k + 1]);
        } else if i + 1 < n {
            assert(turned[i + 1] == poly[0]);
        } else {
            assert(turned[0] == poly[k]);
        }
        assert(exact_cross(turned, i) == exact_cross(poly, i + k));
    }
    assert forall|i: int| n - k <= i < n implies #[trigger] g(i) == f(i + k - n) by {
        assert(turned[i] == poly[i + k - n]);
        if i + 1 < n {
            assert(turned[i + 1] == poly[i + 1 + k - n]);
        } else if k < n {
            assert(turned[0] == poly[k]);
        } else {
            assert(turned[0] == poly[0]);
        }
        assert(exact_cross(turned, i) == exact_cross(poly, i + k - n));
    }
    lemma_sum_rotated(f, g, n, k);
}

/// Listing the vertices in the opposite direction changes the sign of the
/// exact signed area.
pub proof fn lemma_exact_area_reversal(poly: Seq<Vector2D>)
    ensures
        exact_twice_area(poly.reverse()) == -exact_twice_area(poly),
{
    let n = poly.len() as int;
    let back = poly.reverse();
    let f = exact_crosses(poly);
    let g = exact_crosses(back);
    if n > 0 {
        let g_negated = |i: int| -g(i);
        assert forall|i: int| 0 <= i < n - 1 implies #[trigger] g_negated(i) == f(
            (n - 1) - 1 - i,
        ) by {
            assert(back[i] == poly[n - 1 - i]);
            assert(back[i + 1] == poly[n - 2 - i]);
            assert(exact_cross(back, i) == -exact_cross(poly, n - 2 - i)) by (nonlinear_arith)
                requires
                    exact_cross(back, i) == poly[n - 1 - i].x.raw * poly[n - 2 - i].y.raw - poly[n
                        - 2 - i].x.raw * poly[n - 1 - i].y.raw,
                    exact_cross(poly, n - 2 - i) == poly[n - 2 - i].x.raw * poly[n - 1 - i].y.raw
                        - poly[n - 1 - i].x.raw * poly[n - 2 - i].y.raw,
            ;
        }
        lemma_sum_reversed(f, g_negated, n - 1);
        assert forall|i: int| 0 <= i < n - 1 implies #[trigger] g_negated(i) == -g(i) by {}
        lemma_sum_negated(g, g_negated, n - 1);
        assert(back[n - 1] == poly[0]);
        assert(back[0] == poly[n - 1]);
        assert(g(n - 1) == -f(n - 1)) by (nonlinear_arith)
            requires
                g(n - 1) == poly[0].x.raw * poly[n - 1].y.raw - poly[n - 1].x.raw * poly[0].y.raw,
                f(n - 1) == poly[n - 1].x.raw * poly[0].y.raw - poly[0].x.raw * poly[n - 1].y.raw,
        ;
        assert(sum_to(g, n) == sum_to(g, n - 1) + g(n - 1));
        assert(sum_to(f, n) == sum_to(f, n - 1) + f(n - 1));
    }
}

/// Whether the sums of a polygon are taken exactly depends neither on the
/// vertex with which its list starts nor on the direction of the list.
pub proof fn lemma_fine_whatever_the_order(poly: Seq<Vector2D>, k: int)
    requires
        0 <= k <= poly.len(),
    ensures
        is_fine(rotated_left(poly, k)) == is_fine(poly),
        is_fine(poly.reverse()) == is_fine(poly),
{
    let n = poly.len() as int;
    let turned = rotated_left(poly, k);
    let back = poly.reverse();
    assert(turned.len() == n && back.len() == n);
    if is_fine(poly) {
        assert forall|i: int| 0 <= i < n implies -FINE_REACH <= (#[trigger] turned[i]).x.raw
            <= FINE_REACH && -FINE_REACH <= turned[i].y.raw <= FINE_REACH by {
            if i < n - k {
                assert(turned[i] == poly[i + k]);
            } else {
                assert(turned[i] == poly[i + k - n]);
            }
        }
        assert forall|i: int| 0 <= i < n implies -FINE_REACH <= (#[trigger] back[i]).x.raw
            <= FINE_REACH && -FINE_REACH <= back[i].y.raw <= FINE_REACH by {
            assert(back[i] == poly[n - 1 - i]);
        }
    }
    if is_fine(turned) {
        assert forall|i: int| 0 <= i < n implies -FINE_REACH <= (#[trigger] poly[i]).x.raw
            <= FINE_REACH && -FINE_REACH <= poly[i].y.raw <= FINE_REACH by {
            if i >= k {
                assert(turned[i - k] == poly[i]);
            } else {
                assert(turned[i + n - k] == poly[i]);
            }
        }
    }
    if is_fine(back) {
        assert forall|i: int| 0 <= i < n implies -FINE_REACH <= (#[trigger] poly[i]).x.raw
            <= FINE_REACH && -FINE_REACH <= poly[i].y.raw <= FINE_REACH by {
            assert(back[n - 1 - i] == poly[i]);
        }
    }
}

/// The area of a polygon is the same whichever vertex its list starts with.
pub proof fn lemma_area_rotation_invariant(poly: Seq<Vector2D>, k: int)
    requires
        0 <= k <= poly.len(),
    ensures
        polygon_area_spec(rotated_left(poly, k)) == polygon_area_spec(poly),
{
    lemma_signed_area_rotation(poly, k);
    lemma_exact_area_rotation(poly, k);
    lemma_fine_whatever_the_order(poly, k);
}

/// The area of a polygon is the same in whichever direction its vertices are listed.
pub proof fn lemma_area_reversal_invariant(poly: Seq<Vector2D>)
    ensures
        polygon_area_spec(poly.reverse()) == polygon_area_spec(poly),
{
    lemma_signed_area_reversal(poly);
    lemma_exact_area_reversal(poly);
    lemma_fine_whatever_the_order(poly, 0);
}

/// While every vertex lies below the line, the first `k` edges contribute the
/// vertices `1` to `k`, the last of them wrapping around to vertex `0`.
proof fn lemma_clip_prefix_all_below(poly: Seq<Vector2D>, line_y: Fixed, k: int)
    requires
        0 <= k <= poly.len(),
        forall|i: int| 0 <= i < poly.len() ==> is_below(#[trigger] poly[i], line_y),
    ensures
        k < poly.len() ==> clip_prefix(poly, line_y, k) == poly.subrange(1, k + 1),
        k == poly.len() && k > 0 ==> clip_prefix(poly, line_y, k) == rotated_left(poly, 1),
        k == 0 ==> clip_prefix(poly, line_y, k) == Seq::<Vector2D>::empty(),
    decreases k,
{
    let n = poly.len() as int;
    if k > 0 {
        lemma_clip_prefix_all_below(poly, line_y, k - 1);
        let before = clip_prefix(poly, line_y, k - 1);
        let next = poly[next_index(k - 1, n)];
        assert(edge_output(poly[k - 1], next, line_y) == seq![next]);
        assert(before =~= poly.subrange(1, k));
        if k < n {
            assert(before + seq![next] =~= poly.subrange(1, k + 1));
        } else {
            assert(before + seq![next] =~= rotated_left(poly, 1));
        }
    } else if n > 0 {
        assert(poly.subrange(1, 1) =~= Seq::<Vector2D>::empty());
    }
}

/// Clipping against a line above every vertex keeps the whole polygon: the
/// result is the polygon itself, listed from its second vertex on.
pub proof fn lemma_clip_keeps_polygon_below_line(poly: Seq<Vector2D>, line_y: Fixed)
    requires
        forall|i: int| 0 <= i < poly.len() ==> is_below(#[trigger] poly[i], line_y),
    ensures
        poly.len() > 0 ==> clip_spec(poly, line_y) == rotated_left(poly, 1),
        poly.len() == 0 ==> clip_spec(poly, line_y) == poly,
        polygon_area_spec(clip_spec(poly, line_y)) == polygon_area_spec(poly),
{
    lemma_clip_prefix_all_below(poly, line_y, poly.len() as int);
    if poly.len() > 0 {
        lemma_area_rotation_invariant(poly, 1);
    } else {
        assert(clip_spec(poly, line_y) =~= poly);
    }
}

/// While no vertex lies below the line, no edge contributes anything.
proof fn lemma_clip_prefix_none_below(poly: Seq<Vector2D>, line_y: Fixed, k: int)
    requires
        0 <= k <= poly.len(),
        forall|i: int| 0 <= i < poly.len() ==> !is_below(#[trigger] poly[i], line_y),
    ensures
        clip_prefix(poly, line_y, k) == Seq::<Vector2D>::empty(),
    decreases k,
{
    if k > 0 {
        lemma_clip_prefix_none_below(poly, line_y, k - 1);
        let n = poly.len() as int;
        assert(edge_output(poly[k - 1], poly[next_index(k - 1, n)], line_y)
            == Seq::<Vector2D>::empty());
        assert(clip_prefix(poly, line_y, k - 1) + Seq::<Vector2D>::empty()
            =~= Seq::<Vector2D>::empty());
    }
}

/// Clipping against a line that no vertex lies below leaves nothing.
pub proof fn lemma_clip_drops_polygon_above_line(poly: Seq<Vector2D>, line_y: Fixed)
    requires
        forall|i: int| 0 <= i < poly.len() ==> !is_below(#[trigger] poly[i], line_y),
    ensures
        clip_spec(poly, line_y) == Seq::<Vector2D>::empty(),
        polygon_area_spec(clip_spec(poly, line_y)).raw == 0,
{
    lemma_clip_prefix_none_below(poly, line_y, poly.len() as int);
}

/// An area is never negative.
pub proof fn lemma_area_not_negative(poly: Seq<Vector2D>)
    ensures
        polygon_area_spec(poly).raw >= 0,
{
}

/// The first `k` edges contribute at most two vertices each.
pub proof fn lemma_clip_prefix_length(poly: Seq<Vector2D>, line_y: Fixed, k: int)
    requires
        0 <= k,
    ensures
        clip_prefix(poly, line_y, k).len() <= 2 * k,
    decreases k,
{
    if k > 0 {
        lemma_clip_prefix_length(poly, line_y, k - 1);
    }
}

/// A clipped polygon has at most twice as many vertices as the polygon.
pub proof fn lemma_clip_length(poly: Seq<Vector2D>, line_y: Fixed)
    ensures
        clip_spec(poly, line_y).len() <= 2 * poly.len(),
{
    lemma_clip_prefix_length(poly, line_y, poly.len() as int);
}

/// The pressure center of a degenerate polygon, one whose area is below
/// `AREA_EPSILON`, is the arithmetic mean of its vertices: no quotient by the
/// vanishing area is taken.
pub proof fn lemma_pressure_center_of_degenerate_polygon(poly: Seq<Vector2D>)
    requires
        polygon_area_spec(poly).raw < AREA_EPSILON,
    ensures
        pressure_center_spec(poly) == vertex_mean(poly),
{
}

/// A list of fewer than three vertices has its mean as its pressure center.
pub proof fn lemma_pressure_center_of_short_list(poly: Seq<Vector2D>)
    requires
        poly.len() < 3,
    ensures
        pressure_center_spec(poly) == vertex_mean(poly),
{
}

/// The pressure center of a polygon of three or more vertices is its centroid.
pub proof fn lemma_pressure_center_is_centroid(poly: Seq<Vector2D>)
    requires
        poly.len() >= 3,
    ensures
        pressure_center_spec(poly) == calculate_centroid_spec(poly),
{
}

/// Largest raw coordinate of the corner of a unit square for which
/// `lemma_unit_square_area` is stated: ten kilometers.
pub const SQUARE_REACH: i64 = 10_000_000_000_000;

/// The square of side one whose lower left corner is `(a, b)`, listed
/// counter-clockwise from that corner.
pub open spec fn unit_square(a: Fixed, b: Fixed) -> Seq<Vector2D> {
    let a1 = Fixed { raw: (a.raw + SCALE) as i64 };
    let b1 = Fixed { raw: (b.raw + SCALE) as i64 };
    seq![
        Vector2D { x: a, y: b },
        Vector2D { x: a1, y: b },
        Vector2D { x: a1, y: b1 },
        Vector2D { x: a, y: b1 },
    ]
}

/// The product of two coordinates within reach of the unit square, as a
/// fixed-point number: it is not clamped, and lies within one unit of the
/// last place of the exact product.
proof fn lemma_product_within_reach(x: Fixed, y: Fixed)
    requires
        -2 * SQUARE_REACH <= x.raw <= 2 * SQUARE_REACH,
        -2 * SQUARE_REACH <= y.raw <= 2 * SQUARE_REACH,
    ensures
        -SCALE < x.raw * y.raw - x.mul_spec(y).raw * SCALE < SCALE,
        -400_000_000_000_000_000 <= x.mul_spec(y).raw <= 400_000_000_000_000_000,
{
    let n = x.raw * y.raw;
    assert(-400_000_000_000_000_000_000_000_000 <= n <= 400_000_000_000_000_000_000_000_000)
        by (nonlinear_arith)
        requires
            n == x.raw * y.raw,
            -20_000_000_000_000 <= x.raw <= 20_000_000_000_000,
            -20_000_000_000_000 <= y.raw <= 20_000_000_000_000,
    ;
    lemma_rounding_remainder(n);
}

/// The exact twice-area of a unit square is two.
proof fn lemma_unit_square_exact_area(a: Fixed, b: Fixed)
    requires
        -SQUARE_REACH <= a.raw <= SQUARE_REACH,
        -SQUARE_REACH <= b.raw <= SQUARE_REACH,
    ensures
        exact_twice_area(unit_square(a, b)) == 2 * (SCALE * SCALE),
{
    let sq = unit_square(a, b);
    let x = a.raw as int;
    let y = b.raw as int;
    let x1 = x + SCALE;
    let y1 = y + SCALE;
    let f = exact_crosses(sq);
    assert(sq.len() == 4);
    assert(f(0) == x * y - x1 * y);
    assert(f(1) == x1 * y1 - x1 * y);
    assert(f(2) == x1 * y1 - x * y1);
    assert(f(3) == x * y - x * y1);
    assert(sum_to(f, 4) == f(0) + f(1) + f(2) + f(3)) by {
        reveal_with_fuel(sum_to, 5);
    }
    assert((x * y - x1 * y) + (x1 * y1 - x1 * y) + (x1 * y1 - x * y1) + (x * y - x * y1) == 2 * (
        SCALE * SCALE)) by (nonlinear_arith)
        requires
            x1 == x + SCALE,
            y1 == y + SCALE,
    ;
}

/// The area of a unit square is one: exactly, where the square `is_fine`,
/// and up to three units of the last place, which is what rounding the four
/// products of its coordinates can add up to, wherever else within ten
/// kilometers of the origin it lies.
pub proof fn lemma_unit_square_area(a: Fixed, b: Fixed)
    requires
        -SQUARE_REACH <= a.raw <= SQUARE_REACH,
        -SQUARE_REACH <= b.raw <= SQUARE_REACH,
    ensures
        SCALE - 3 <= polygon_area_spec(unit_square(a, b)).raw <= SCALE + 3,
        is_fine(unit_square(a, b)) ==> polygon_area_spec(unit_square(a, b)).raw == SCALE,
{
    let sq = unit_square(a, b);
    if is_fine(sq) {
        lemma_unit_square_exact_area(a, b);
        assert(2 * (SCALE * SCALE) == 2_000_000_000_000_000_000int) by (nonlinear_arith)
            requires
                SCALE == 1_000_000_000,
        ;
        assert(sq.len() == 4);
        let twice = exact_twice_area(sq);
        assert(twice == 2_000_000_000_000_000_000);
        let m = magnitude(twice);
        let d = 2 * SCALE;
        assert(m / d == SCALE) by (nonlinear_arith)
            requires
                m == 2_000_000_000_000_000_000,
                d == 2_000_000_000,
                SCALE == 1_000_000_000,
        ;
        assert(area_magnitude(sq) == SCALE);
        return ;
    }
    let a1 = Fixed { raw: (a.raw + SCALE) as i64 };
    let b1 = Fixed { raw: (b.raw + SCALE) as i64 };
    let q1 = a.mul_spec(b).raw as int;
    let q2 = a1.mul_spec(b1).raw as int;
    let q3 = a1.mul_spec(b).raw as int;
    let q4 = a.mul_spec(b1).raw as int;
    lemma_product_within_reach(a, b);
    lemma_product_within_reach(a1, b1);
    lemma_product_within_reach(a1, b);
    lemma_product_within_reach(a, b1);
    let n1 = a.raw * b.raw;
    assert(a1.raw * b1.raw == n1 + SCALE * a.raw + SCALE * b.raw + SCALE * SCALE
        && a1.raw * b.raw == n1 + SCALE * b.raw && a.raw * b1.raw == n1 + SCALE * a.raw)
        by (nonlinear_arith)
        requires
            n1 == a.raw * b.raw,
            a1.raw == a.raw + SCALE,
            b1.raw == b.raw + SCALE,
    ;
    assert(SCALE * SCALE == 1_000_000_000_000_000_000int) by (nonlinear_arith)
        requires
            SCALE == 1_000_000_000,
    ;
    let bracket = q1 + q2 - q3 - q4;
    assert(SCALE - 3 <= bracket <= SCALE + 3);
    let f = edge_crosses(sq);
    assert(sq.len() == 4);
    assert(f(0) == q1 - q3) by {
        assert(sq[0].cross_spec(sq[1]).raw == q1 - q3);
    }
    assert(f(1) == q2 - q3) by {
        assert(sq[1].cross_spec(sq[2]).raw == q2 - q3);
    }
    assert(f(2) == q2 - q4) by {
        assert(sq[2].cross_spec(sq[3]).raw == q2 - q4);
    }
    assert(f(3) == q1 - q4) by {
        assert(sq[3].cross_spec(sq[0]).raw == q1 - q4);
    }
    assert(sum_to(f, 4) == 2 * bracket) by {
        reveal_with_fuel(sum_to, 5);
    }
    assert(twice_signed_area(sq) == 2 * bracket);
}

} // verus!
