//! Clipping a clipped polygon against the same line changes nothing but the
//! vertex with which the list starts.
//!
//! The clipped polygon consists of vertices below the line and of points on
//! the line, where an edge left or entered the lower side. Clipping it again
//! meets every point on the line exactly at an end of an edge, so that the
//! second pass reproduces every vertex of the first.
use crate::basic_structs::Vector2D;
use crate::fixed::{div_toward_zero, lemma_exact_quotient, Fixed, RAW_MAX};
use crate::geometry::{
    clip_prefix, clip_spec, crossing_point, edge_output, is_below, next_index, polygon_area_spec,
    same_side,
};
use crate::geometry_laws::{
    lemma_area_rotation_invariant, lemma_clip_keeps_polygon_below_line, rotated_left,
};
use vstd::prelude::*;

verus! {

/// A point at the height of the line whose x coordinate lies in the range
/// that arithmetic results are clamped to.
pub open spec fn on_line(p: Vector2D, line_y: Fixed) -> bool {
    p.y.raw == line_y.raw && -RAW_MAX <= p.x.raw <= RAW_MAX
}

/// What the first `k` pairs of neighbours in a list contribute when each pair
/// is clipped as an edge, without the edge that closes the polygon.
pub open spec fn chain(s: Seq<Vector2D>, line_y: Fixed, k: int) -> Seq<Vector2D>
    decreases k,
{
    if k <= 0 {
        Seq::empty()
    } else {
        chain(s, line_y, k - 1) + edge_output(s[k - 1], s[k], line_y)
    }
}

/// The vertex at which edge `k` starts, with edge `n` starting where edge `0` does.
pub open spec fn vertex_at(poly: Seq<Vector2D>, k: int) -> Vector2D {
    if k < poly.len() {
        poly[k]
    } else {
        poly[0]
    }
}

/// An edge from below to a point on the line contributes that point.
proof fn lemma_edge_up_to_line(a: Vector2D, b: Vector2D, line_y: Fixed)
    requires
        is_below(a, line_y),
        on_line(b, line_y),
    ensures
        edge_output(a, b, line_y) == seq![b],
{
    lemma_exact_quotient(line_y.raw - a.y.raw, b.x.raw - a.x.raw);
    assert(crossing_point(a, b, line_y) == b);
}

/// An edge from a point on the line to a vertex below contributes both.
proof fn lemma_edge_down_from_line(a: Vector2D, b: Vector2D, line_y: Fixed)
    requires
        on_line(a, line_y),
        is_below(b, line_y),
    ensures
        edge_output(a, b, line_y) == seq![a, b],
{
    assert((line_y.raw - a.y.raw) * (b.x.raw - a.x.raw) == 0) by (nonlinear_arith)
        requires
            line_y.raw - a.y.raw == 0,
    ;
    assert(crossing_point(a, b, line_y) == a);
}

/// The point where an edge crosses the line lies on the line.
proof fn lemma_crossing_on_line(a: Vector2D, b: Vector2D, line_y: Fixed)
    ensures
        on_line(crossing_point(a, b, line_y), line_y),
{
}

/// The first pairs of a list contribute the same whatever follows in the list.
proof fn lemma_chain_of_prefix(s: Seq<Vector2D>, t: Seq<Vector2D>, line_y: Fixed, k: int)
    requires
        0 <= k < s.len(),
    ensures
        chain(s + t, line_y, k) == chain(s, line_y, k),
    decreases k,
{
    if k > 0 {
        lemma_chain_of_prefix(s, t, line_y, k - 1);
        assert((s + t)[k - 1] == s[k - 1]);
        assert((s + t)[k] == s[k]);
    }
}

/// Up to the closing edge, clipping a polygon is clipping the chain of its vertices.
proof fn lemma_clip_prefix_is_chain(q: Seq<Vector2D>, line_y: Fixed, k: int)
    requires
        0 <= k < q.len(),
    ensures
        clip_prefix(q, line_y, k) == chain(q, line_y, k),
    decreases k,
{
    if k > 0 {
        lemma_clip_prefix_is_chain(q, line_y, k - 1);
    }
}

/// What holds of the vertices `q` that the first `k` edges of `poly` have contributed.
spec fn pass_invariant(poly: Seq<Vector2D>, line_y: Fixed, k: int) -> bool {
    let q = clip_prefix(poly, line_y, k);
    let m = q.len() as int;
    &&& forall|j: int| 0 <= j < m ==> is_below(#[trigger] q[j], line_y) || on_line(q[j], line_y)
    &&& m > 0 ==> if is_below(vertex_at(poly, k), line_y) {
        q[m - 1] == vertex_at(poly, k)
    } else {
        on_line(q[m - 1], line_y)
    }
    &&& k >= 1 && (is_below(vertex_at(poly, k), line_y) || is_below(poly[0], line_y)) ==> m > 0
    &&& m > 0 ==> chain(q, line_y, m - 1) == if is_below(poly[0], line_y) {
        q.subrange(1, m)
    } else {
        q
    }
    &&& m > 0 && !is_below(poly[0], line_y) ==> on_line(q[0], line_y)
}

/// The invariant carries over an edge that contributes one vertex `v`, which
/// the chain reproduces.
proof fn lemma_pass_push(poly: Seq<Vector2D>, line_y: Fixed, k: int, v: Vector2D)
    requires
        0 <= k < poly.len(),
        pass_invariant(poly, line_y, k),
        is_below(vertex_at(poly, k), line_y),
        clip_prefix(poly, line_y, k + 1) == clip_prefix(poly, line_y, k).push(v),
        edge_output(vertex_at(poly, k), v, line_y) == seq![v],
        is_below(v, line_y) || on_line(v, line_y),
    ensures
        ({
            let q = clip_prefix(poly, line_y, k);
            let p = clip_prefix(poly, line_y, k + 1);
            let m = q.len() as int;
            &&& forall|j: int|
                0 <= j < m + 1 ==> is_below(#[trigger] p[j], line_y) || on_line(p[j], line_y)
            &&& chain(p, line_y, m) == if is_below(poly[0], line_y) {
                p.subrange(1, m + 1)
            } else {
                p
            }
            &&& !is_below(poly[0], line_y) ==> on_line(p[0], line_y)
        }),
{
    let q = clip_prefix(poly, line_y, k);
    let p = clip_prefix(poly, line_y, k + 1);
    let m = q.len() as int;
    assert(p =~= q + seq![v]);
    assert forall|j: int| 0 <= j < m + 1 implies is_below(#[trigger] p[j], line_y) || on_line(
        p[j],
        line_y,
    ) by {
        if j < m {
            assert(p[j] == q[j]);
        }
    }
    if m == 0 {
        assert(k == 0);
        assert(p.subrange(1, 1) =~= Seq::<Vector2D>::empty());
    } else {
        lemma_chain_of_prefix(q, seq![v], line_y, m - 1);
        assert(p[m - 1] == q[m - 1]);
        assert(p[m] == v);
        assert(chain(p, line_y, m) == chain(q, line_y, m - 1) + seq![v]);
        if is_below(poly[0], line_y) {
            assert(q.subrange(1, m) + seq![v] =~= p.subrange(1, m + 1));
        }
        assert(p[0] == q[0]);
    }
}

/// The invariant holds after any number of edges.
proof fn lemma_pass_invariant(poly: Seq<Vector2D>, line_y: Fixed, k: int)
    requires
        0 <= k <= poly.len(),
    ensures
        pass_invariant(poly, line_y, k),
    decreases k,
{
    if k > 0 {
        lemma_pass_invariant(poly, line_y, k - 1);
        let n = poly.len() as int;
        let q = clip_prefix(poly, line_y, k - 1);
        let p = clip_prefix(poly, line_y, k);
        let m = q.len() as int;
        let cur = poly[k - 1];
        let next = poly[next_index(k - 1, n)];
        assert(next == vertex_at(poly, k));
        assert(cur == vertex_at(poly, k - 1));
        assert(p == q + edge_output(cur, next, line_y));
        let x = crossing_point(cur, next, line_y);
        lemma_crossing_on_line(cur, next, line_y);
        if is_below(cur, line_y) {
            if is_below(next, line_y) {
                assert(p =~= q.push(next));
                lemma_pass_push(poly, line_y, k - 1, next);
            } else {
                assert(edge_output(cur, next, line_y) == seq![x]);
                assert(p =~= q.push(x));
                lemma_edge_up_to_line(cur, x, line_y);
                lemma_pass_push(poly, line_y, k - 1, x);
            }
        } else {
            if is_below(next, line_y) {
                assert(edge_output(cur, next, line_y) == seq![x, next]);
                assert(p =~= q + seq![x, next]);
                assert(p.len() == m + 2);
                assert(p[m] == x);
                assert(p[m + 1] == next);
                assert forall|j: int| 0 <= j < m + 2 implies is_below(#[trigger] p[j], line_y)
                    || on_line(p[j], line_y) by {
                    if j < m {
                        assert(p[j] == q[j]);
                    }
                }
                lemma_edge_down_from_line(x, next, line_y);
                assert(chain(p, line_y, m + 1) == chain(p, line_y, m) + seq![x, next]);
                if m == 0 {
                    assert(chain(p, line_y, 0) =~= Seq::<Vector2D>::empty());
                    assert(chain(p, line_y, m + 1) =~= p);
                } else {
                    lemma_chain_of_prefix(q, seq![x, next], line_y, m - 1);
                    assert(p[m - 1] == q[m - 1]);
                    assert(edge_output(q[m - 1], x, line_y) == Seq::<Vector2D>::empty());
                    assert(chain(p, line_y, m) == chain(p, line_y, m - 1) + edge_output(
                        p[m - 1],
                        p[m],
                        line_y,
                    ));
                    assert(chain(p, line_y, m) =~= chain(q, line_y, m - 1));
                    if is_below(poly[0], line_y) {
                        assert(q.subrange(1, m) + seq![x, next] =~= p.subrange(1, m + 2));
                    }
                    assert(p[0] == q[0]);
                }
            } else {
                assert(p =~= q);
            }
        }
    }
}

/// Clipping the clipped polygon once more against the same line gives the
/// clipped polygon again: as it is where the first vertex of the polygon that
/// was clipped does not lie below the line, and listed from its second vertex
/// on where it does. Either way the two are the same closed polygon, of the same area.
pub proof fn lemma_clip_twice(poly: Seq<Vector2D>, line_y: Fixed)
    ensures
        ({
            let once = clip_spec(poly, line_y);
            let twice = clip_spec(once, line_y);
            &&& twice.len() == once.len()
            &&& poly.len() > 0 && is_below(poly[0], line_y) ==> once.len() > 0 && twice
                == rotated_left(once, 1)
            &&& poly.len() == 0 || !is_below(poly[0], line_y) ==> twice == once
            &&& polygon_area_spec(twice) == polygon_area_spec(once)
        }),
{
    let n = poly.len() as int;
    let once = clip_spec(poly, line_y);
    let twice = clip_spec(once, line_y);
    let m = once.len() as int;
    if n == 0 {
        assert(once =~= Seq::<Vector2D>::empty());
        assert(twice =~= once);
    } else {
        lemma_pass_invariant(poly, line_y, n);
        if m == 0 {
            assert(twice =~= once);
        } else {
            lemma_clip_prefix_is_chain(once, line_y, m - 1);
            let closing = edge_output(once[m - 1], once[0], line_y);
            assert(twice == chain(once, line_y, m - 1) + closing);
            if is_below(poly[0], line_y) {
                if !is_below(once[0], line_y) {
                    lemma_edge_up_to_line(once[m - 1], once[0], line_y);
                }
                assert(closing == seq![once[0]]);
                assert(twice =~= rotated_left(once, 1));
                lemma_area_rotation_invariant(once, 1);
            } else {
                assert(closing == Seq::<Vector2D>::empty());
                assert(twice =~= once);
            }
        }
    }
}

/// Every vertex of a clipped polygon lies below the line or on it.
pub proof fn lemma_clip_stays_below(poly: Seq<Vector2D>, line_y: Fixed)
    ensures
        forall|j: int|
            0 <= j < clip_spec(poly, line_y).len() ==> is_below(
                #[trigger] clip_spec(poly, line_y)[j],
                line_y,
            ) || on_line(clip_spec(poly, line_y)[j], line_y),
{
    if poly.len() > 0 {
        lemma_pass_invariant(poly, line_y, poly.len() as int);
    }
}

/// Clipping the clipped polygon against a higher line keeps all of it: the
/// result is the clipped polygon, listed from its second vertex on.
pub proof fn lemma_clip_then_higher_line(poly: Seq<Vector2D>, line_y: Fixed, higher: Fixed)
    requires
        line_y.raw < higher.raw,
    ensures
        ({
            let once = clip_spec(poly, line_y);
            let twice = clip_spec(once, higher);
            &&& once.len() > 0 ==> twice == rotated_left(once, 1)
            &&& once.len() == 0 ==> twice == once
            &&& polygon_area_spec(twice) == polygon_area_spec(once)
        }),
{
    let once = clip_spec(poly, line_y);
    lemma_clip_stays_below(poly, line_y);
    assert forall|j: int| 0 <= j < once.len() implies is_below(#[trigger] once[j], higher) by {
        assert(is_below(once[j], line_y) || on_line(once[j], line_y));
    }
    lemma_clip_keeps_polygon_below_line(once, higher);
}

/// Whether the x coordinate of a point lies between `lo` and `hi`.
pub open spec fn x_within(p: Vector2D, lo: int, hi: int) -> bool {
    lo <= p.x.raw <= hi
}

/// A part of a step, taken in proportion, is a step in the same direction
/// and no longer: for `rise` between zero and `height`, the quotient
/// `rise * width / height` lies between zero and `width`.
proof fn lemma_proportion_between(rise: int, width: int, height: int)
    requires
        height != 0,
        (0 <= rise <= height) || (height <= rise <= 0),
    ensures
        width >= 0 ==> 0 <= div_toward_zero(rise * width, height) <= width,
        width <= 0 ==> width <= div_toward_zero(rise * width, height) <= 0,
{
    if height > 0 {
        if width >= 0 {
            assert(rise * width >= 0 && 0 <= (rise * width) / height <= width)
                by (nonlinear_arith)
                requires
                    0 <= rise <= height,
                    height > 0,
                    width >= 0,
            ;
        } else {
            assert(rise * width <= 0 && 0 <= (-(rise * width)) / height <= -width)
                by (nonlinear_arith)
                requires
                    0 <= rise <= height,
                    height > 0,
                    width < 0,
            ;
        }
    } else {
        if width >= 0 {
            assert(rise * width <= 0 && 0 <= (-(rise * width)) / (-height) <= width)
                by (nonlinear_arith)
                requires
                    height <= rise <= 0,
                    height < 0,
                    width >= 0,
            ;
        } else {
            assert(rise * width >= 0 && 0 <= (rise * width) / (-height) <= -width)
                by (nonlinear_arith)
                requires
                    height <= rise <= 0,
                    height < 0,
                    width < 0,
            ;
        }
    }
}

/// The point where a segment crosses the line lies between the two ends of
/// the segment.
pub proof fn lemma_crossing_between_ends(
    p1: Vector2D,
    p2: Vector2D,
    line_y: Fixed,
    lo: int,
    hi: int,
)
    requires
        !same_side(p1, p2, line_y),
        p1.y.raw != p2.y.raw,
        -RAW_MAX <= lo,
        hi <= RAW_MAX,
        x_within(p1, lo, hi),
        x_within(p2, lo, hi),
    ensures
        x_within(crossing_point(p1, p2, line_y), lo, hi),
{
    lemma_proportion_between(
        line_y.raw - p1.y.raw,
        p2.x.raw - p1.x.raw,
        p2.y.raw - p1.y.raw,
    );
}

/// What the first `k` edges contribute lies between the leftmost and the
/// rightmost vertex of the polygon.
proof fn lemma_clip_prefix_within(poly: Seq<Vector2D>, line_y: Fixed, lo: int, hi: int, k: int)
    requires
        0 <= k <= poly.len(),
        -RAW_MAX <= lo,
        hi <= RAW_MAX,
        forall|i: int| 0 <= i < poly.len() ==> x_within(#[trigger] poly[i], lo, hi),
    ensures
        forall|j: int|
            0 <= j < clip_prefix(poly, line_y, k).len() ==> x_within(
                #[trigger] clip_prefix(poly, line_y, k)[j],
                lo,
                hi,
            ),
    decreases k,
{
    if k > 0 {
        lemma_clip_prefix_within(poly, line_y, lo, hi, k - 1);
        let before = clip_prefix(poly, line_y, k - 1);
        let cur = poly[k - 1];
        let next = poly[next_index(k - 1, poly.len() as int)];
        let added = edge_output(cur, next, line_y);
        let after = clip_prefix(poly, line_y, k);
        if is_below(cur, line_y) != is_below(next, line_y) {
            lemma_crossing_between_ends(cur, next, line_y, lo, hi);
        }
        assert forall|j: int| 0 <= j < after.len() implies x_within(
            #[trigger] after[j],
            lo,
            hi,
        ) by {
            if j < before.len() {
                assert(after[j] == before[j]);
            } else {
                assert(after[j] == added[j - before.len()]);
            }
        }
    }
}

/// A clipped polygon does not reach further to the left or to the right than
/// the polygon it was clipped from.
pub proof fn lemma_clip_within_polygon(poly: Seq<Vector2D>, line_y: Fixed, lo: int, hi: int)
    requires
        -RAW_MAX <= lo,
        hi <= RAW_MAX,
        forall|i: int| 0 <= i < poly.len() ==> x_within(#[trigger] poly[i], lo, hi),
    ensures
        forall|j: int|
            0 <= j < clip_spec(poly, line_y).len() ==> x_within(
                #[trigger] clip_spec(poly, line_y)[j],
                lo,
                hi,
            ),
{
    lemma_clip_prefix_within(poly, line_y, lo, hi, poly.len() as int);
}

} // verus!
