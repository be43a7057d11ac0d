//! The sample points of a stone: how many a grid can hold, and what the
//! stone over a unit square looks like.
use crate::basic_structs::Vector2D;
use crate::fixed::{
    is_floor_sqrt, lemma_exact_quotient, lemma_floor_sqrt_is, lemma_root_at_least, Fixed, SCALE,
};
use crate::geometry::{
    calculate_centroid_spec, exact_crosses, exact_first_moment, exact_moments, exact_twice_area,
    is_fine, polygon_area_spec, FINE_REACH,
};
use crate::geometry_laws::{lemma_unit_square_area, unit_square, SQUARE_REACH};
use crate::stone_phy::{
    ceil_div, crossings, extent, lemma_unit_square_mass, DENSITY_SLATE, find_aabb_spec, generate_collision_mesh_spec, grid_row, grid_rows,
    grid_spacing, is_point_in_polygon_spec, shifted, stone_model, COLLISION_MESH_POINTS,
};
use crate::summation::sum_to;
use vstd::prelude::*;

verus! {

/// Largest number of sample points of a unit square.
pub const UNIT_SQUARE_SAMPLES: u64 = 40_804;

/// A row of the grid holds at most as many points as it has columns.
pub proof fn lemma_grid_row_count(
    poly: Seq<Vector2D>,
    min_x: int,
    max_x: int,
    y: int,
    delta: int,
    cols: int,
)
    requires
        0 <= cols,
    ensures
        grid_row(poly, min_x, max_x, y, delta, cols).len() <= cols,
    decreases cols,
{
    if cols > 0 {
        lemma_grid_row_count(poly, min_x, max_x, y, delta, cols - 1);
    }
}

/// The grid holds at most as many points as it has rows times columns.
pub proof fn lemma_grid_count(
    poly: Seq<Vector2D>,
    lo: Vector2D,
    hi: Vector2D,
    delta: int,
    cols: int,
    rows: int,
)
    requires
        0 <= cols,
        0 <= rows,
    ensures
        grid_rows(poly, lo, hi, delta, cols, rows).len() <= rows * cols,
    decreases rows,
{
    if rows > 0 {
        lemma_grid_count(poly, lo, hi, delta, cols, rows - 1);
        let y = lo.y.raw + (rows - 1) * delta;
        lemma_grid_row_count(poly, lo.x.raw as int, hi.x.raw as int, y, delta, cols);
        assert(rows * cols == (rows - 1) * cols + cols) by (nonlinear_arith);
    } else {
        assert(rows * cols == 0) by (nonlinear_arith)
            requires
                rows == 0,
        ;
    }
}

/// The smallest and the largest coordinate of the first `k` vertices lie
/// between any two bounds that every one of those coordinates lies between.
pub proof fn lemma_extent_within(poly: Seq<Vector2D>, along_x: bool, k: int, lo: int, hi: int)
    requires
        1 <= k <= poly.len(),
        forall|i: int|
            0 <= i < k ==> lo <= (if along_x {
                (#[trigger] poly[i]).x.raw
            } else {
                poly[i].y.raw
            }) <= hi,
    ensures
        lo <= extent(poly, along_x, true, k) <= hi,
        lo <= extent(poly, along_x, false, k) <= hi,
    decreases k,
{
    let p = poly[k - 1];
    assert(lo <= (if along_x {
        p.x.raw
    } else {
        p.y.raw
    }) <= hi);
    if k > 1 {
        lemma_extent_within(poly, along_x, k - 1, lo, hi);
    } else {
        assert(extent(poly, along_x, true, 0) == i64::MAX);
        assert(extent(poly, along_x, false, 0) == i64::MIN);
    }
}

/// The number of columns, or of rows, of the grid over a box that is at most
/// one wide, for a spacing of at least 4 999 999 units: at most 202.
proof fn lemma_lines_of_unit_box(extent: int, delta: int)
    requires
        0 <= extent <= SCALE,
        4_999_999 <= delta,
    ensures
        0 <= ceil_div(extent, delta) + 1 <= 202,
{
    let q = (extent + delta - 1) / delta;
    assert(0 <= q <= 201) by (nonlinear_arith)
        requires
            q == (extent + delta - 1) / delta,
            0 <= extent <= 1_000_000_000,
            4_999_999 <= delta,
    ;
}

/// A coordinate of the unit square and the same coordinate one further, both
/// seen from `c`, are at most one apart, whatever is clamped.
proof fn lemma_shifted_pair(x: Fixed, c: Fixed)
    requires
        -SQUARE_REACH <= x.raw <= SQUARE_REACH,
    ensures
        ({
            let near = x.sub_spec(c).raw;
            let far = Fixed { raw: (x.raw + SCALE) as i64 }.sub_spec(c).raw;
            near <= far <= near + SCALE
        }),
{
}

/// A stone over a unit square within ten kilometers of the origin has at
/// most 40 804 sample points: the grid over it has at most 202 rows of at
/// most 202 points.
pub proof fn lemma_unit_square_samples(a: Fixed, b: Fixed)
    requires
        -SQUARE_REACH <= a.raw <= SQUARE_REACH,
        -SQUARE_REACH <= b.raw <= SQUARE_REACH,
    ensures
        stone_model(unit_square(a, b), Fixed { raw: SCALE }).n <= UNIT_SQUARE_SAMPLES,
{
    let sq = unit_square(a, b);
    let area = polygon_area_spec(sq);
    lemma_unit_square_area(a, b);
    let c = calculate_centroid_spec(sq);
    let outline = shifted(sq, c);
    let mesh = generate_collision_mesh_spec(outline, COLLISION_MESH_POINTS as int, area);
    let (lo, hi) = find_aabb_spec(outline);
    let width = hi.x.raw - lo.x.raw;
    let height = hi.y.raw - lo.y.raw;
    let delta = grid_spacing(area, COLLISION_MESH_POINTS as int);
    // The spacing.
    let v = (area.raw * SCALE) / (COLLISION_MESH_POINTS as int);
    assert(area.raw * SCALE >= 999_999_997_000_000_000) by (nonlinear_arith)
        requires
            area.raw >= 999_999_997,
            SCALE == 1_000_000_000,
    ;
    assert(v >= 24_999_999_925_000);
    assert(4_999_999 * 4_999_999 <= v) by (nonlinear_arith)
        requires
            v >= 24_999_999_925_000,
    ;
    lemma_root_at_least(v, 4_999_999);
    assert(delta >= 4_999_999);
    // The box.
    lemma_shifted_pair(a, c.x);
    lemma_shifted_pair(b, c.y);
    let x0 = a.sub_spec(c.x).raw as int;
    let x1 = Fixed { raw: (a.raw + SCALE) as i64 }.sub_spec(c.x).raw as int;
    let y0 = b.sub_spec(c.y).raw as int;
    let y1 = Fixed { raw: (b.raw + SCALE) as i64 }.sub_spec(c.y).raw as int;
    assert(outline.len() == 4);
    assert(outline[0] == sq[0].sub_spec(c));
    assert(outline[1] == sq[1].sub_spec(c));
    assert(outline[2] == sq[2].sub_spec(c));
    assert(outline[3] == sq[3].sub_spec(c));
    lemma_extent_within(outline, true, 4, x0, x1);
    lemma_extent_within(outline, false, 4, y0, y1);
    assert(width <= SCALE && height <= SCALE);
    if mesh.len() > 0 {
        let cols = ceil_div(width, delta) + 1;
        let rows = ceil_div(height, delta) + 1;
        lemma_lines_of_unit_box(width, delta);
        lemma_lines_of_unit_box(height, delta);
        lemma_grid_count(outline, lo, hi, delta, cols, rows);
        assert(rows * cols <= 40_804) by (nonlinear_arith)
            requires
                0 <= rows <= 202,
                0 <= cols <= 202,
        ;
    }
}

/// Half of one, in raw units.
pub const HALF_SIDE: i64 = 500_000_000;

/// The exact first moment of a unit square about an axis is three times its
/// exact twice-area, which is two, times the coordinate of its middle.
proof fn lemma_unit_square_moment(a: Fixed, b: Fixed, along_x: bool)
    requires
        -SQUARE_REACH <= a.raw <= SQUARE_REACH,
        -SQUARE_REACH <= b.raw <= SQUARE_REACH,
    ensures
        exact_twice_area(unit_square(a, b)) == 2_000_000_000_000_000_000,
        exact_first_moment(unit_square(a, b), along_x) == 6_000_000_000_000_000_000 * ((if along_x {
            a.raw
        } else {
            b.raw
        }) + HALF_SIDE),
{
    let sq = unit_square(a, b);
    let x = a.raw as int;
    let y = b.raw as int;
    let x1 = x + 1_000_000_000;
    let y1 = y + 1_000_000_000;
    let c = exact_crosses(sq);
    let f = exact_moments(sq, along_x);
    assert(sq.len() == 4);
    let xy = x * y;
    let p1 = x1 * y;
    let p2 = x1 * y1;
    let p3 = x * y1;
    assert(p1 == xy + 1_000_000_000 * y) by (nonlinear_arith)
        requires
            p1 == x1 * y,
            xy == x * y,
            x1 == x + 1_000_000_000,
    ;
    assert(p3 == xy + 1_000_000_000 * x) by (nonlinear_arith)
        requires
            p3 == x * y1,
            xy == x * y,
            y1 == y + 1_000_000_000,
    ;
    assert(p2 == p1 + 1_000_000_000 * x1) by (nonlinear_arith)
        requires
            p2 == x1 * y1,
            p1 == x1 * y,
            y1 == y + 1_000_000_000,
    ;
    let c0 = xy - p1;
    let c1 = p2 - p1;
    let c2 = p2 - p3;
    let c3 = xy - p3;
    assert(c(0) == c0 && c(1) == c1 && c(2) == c2 && c(3) == c3);
    assert(sum_to(c, 4) == c(0) + c(1) + c(2) + c(3)) by {
        reveal_with_fuel(sum_to, 5);
    }
    assert(sum_to(f, 4) == f(0) + f(1) + f(2) + f(3)) by {
        reveal_with_fuel(sum_to, 5);
    }
    let s: int = 1_000_000_000;
    let s2: int = 1_000_000_000_000_000_000;
    if along_x {
        let xx = x * x;
        let m0 = (x + x1) * c0;
        let m1 = (x1 + x1) * c1;
        let m2 = (x1 + x) * c2;
        let m3 = (x + x) * c3;
        assert(f(0) == m0 && f(1) == m1 && f(2) == m2 && f(3) == m3);
        assert(m0 == -2_000_000_000 * xy - 1_000_000_000_000_000_000 * y) by (nonlinear_arith)
            requires
                m0 == (x + x1) * c0,
                c0 == -s * y,
                x1 == x + s,
                xy == x * y,
                s == 1_000_000_000,
                s2 == 1_000_000_000_000_000_000,
        ;
        assert(m1 == 2_000_000_000 * xx + 4_000_000_000_000_000_000 * x
            + 2_000_000_000_000_000_000_000_000_000) by (nonlinear_arith)
            requires
                m1 == (x1 + x1) * c1,
                c1 == s * x + s2,
                x1 == x + s,
                xx == x * x,
                s == 1_000_000_000,
                s2 == 1_000_000_000_000_000_000,
        ;
        assert(m2 == 2_000_000_000 * xy + 2_000_000_000_000_000_000 * x
            + 1_000_000_000_000_000_000 * y + 1_000_000_000_000_000_000_000_000_000) by (nonlinear_arith)
            requires
                m2 == (x1 + x) * c2,
                c2 == s * y + s2,
                x1 == x + s,
                xy == x * y,
                s == 1_000_000_000,
                s2 == 1_000_000_000_000_000_000,
        ;
        assert(m3 == -2_000_000_000 * xx) by (nonlinear_arith)
            requires
                m3 == (x + x) * c3,
                c3 == -s * x,
                xx == x * x,
                s == 1_000_000_000,
        ;
    } else {
        let yy = y * y;
        let m0 = (y + y) * c0;
        let m1 = (y + y1) * c1;
        let m2 = (y1 + y1) * c2;
        let m3 = (y1 + y) * c3;
        assert(f(0) == m0 && f(1) == m1 && f(2) == m2 && f(3) == m3);
        assert(m0 == -2_000_000_000 * yy) by (nonlinear_arith)
            requires
                m0 == (y + y) * c0,
                c0 == -s * y,
                yy == y * y,
                s == 1_000_000_000,
        ;
        assert(m1 == 2_000_000_000 * xy + 2_000_000_000_000_000_000 * y
            + 1_000_000_000_000_000_000 * x + 1_000_000_000_000_000_000_000_000_000) by (nonlinear_arith)
            requires
                m1 == (y + y1) * c1,
                c1 == s * x + s2,
                y1 == y + s,
                xy == x * y,
                s == 1_000_000_000,
                s2 == 1_000_000_000_000_000_000,
        ;
        assert(m2 == 2_000_000_000 * yy + 4_000_000_000_000_000_000 * y
            + 2_000_000_000_000_000_000_000_000_000) by (nonlinear_arith)
            requires
                m2 == (y1 + y1) * c2,
                c2 == s * y + s2,
                y1 == y + s,
                yy == y * y,
                s == 1_000_000_000,
                s2 == 1_000_000_000_000_000_000,
        ;
        assert(m3 == -2_000_000_000 * xy - 1_000_000_000_000_000_000 * x) by (nonlinear_arith)
            requires
                m3 == (y1 + y) * c3,
                c3 == -s * x,
                y1 == y + s,
                xy == x * y,
                s == 1_000_000_000,
                s2 == 1_000_000_000_000_000_000,
        ;
    }
}

/// The square of side one about the origin, listed counter-clockwise from its
/// lower left corner.
pub open spec fn centered_square() -> Seq<Vector2D> {
    seq![
        Vector2D { x: Fixed::of(-HALF_SIDE), y: Fixed::of(-HALF_SIDE) },
        Vector2D { x: Fixed { raw: HALF_SIDE }, y: Fixed::of(-HALF_SIDE) },
        Vector2D { x: Fixed { raw: HALF_SIDE }, y: Fixed { raw: HALF_SIDE } },
        Vector2D { x: Fixed::of(-HALF_SIDE), y: Fixed { raw: HALF_SIDE } },
    ]
}

/// The centroid of a unit square whose sums are exact is its middle, and the
/// square seen from there is the square of side one about the origin.
pub proof fn lemma_unit_square_centered(a: Fixed, b: Fixed)
    requires
        -SQUARE_REACH <= a.raw <= SQUARE_REACH,
        -SQUARE_REACH <= b.raw <= SQUARE_REACH,
        is_fine(unit_square(a, b)),
    ensures
        calculate_centroid_spec(unit_square(a, b)) == (Vector2D {
            x: Fixed { raw: (a.raw + HALF_SIDE) as i64 },
            y: Fixed { raw: (b.raw + HALF_SIDE) as i64 },
        }),
        shifted(unit_square(a, b), calculate_centroid_spec(unit_square(a, b)))
            == centered_square(),
{
    let sq = unit_square(a, b);
    lemma_unit_square_area(a, b);
    lemma_unit_square_moment(a, b, true);
    lemma_unit_square_moment(a, b, false);
    lemma_exact_quotient(6_000_000_000_000_000_000, a.raw + HALF_SIDE);
    lemma_exact_quotient(6_000_000_000_000_000_000, b.raw + HALF_SIDE);
    assert(sq.len() == 4);
    let c = calculate_centroid_spec(sq);
    assert(c.x.raw == a.raw + HALF_SIDE);
    assert(c.y.raw == b.raw + HALF_SIDE);
    assert(shifted(sq, c) =~= centered_square());
}

/// The lower left corner of the square about the origin counts as inside it.
proof fn lemma_corner_is_inside()
    ensures
        is_point_in_polygon_spec(centered_square()[0], centered_square()),
{
    let sq = centered_square();
    let p = sq[0];
    let f = crossings(p, sq);
    assert(sq.len() == 4);
    assert(f(0) == 0);
    assert(f(1) == 0);
    assert(f(2) == 1) by {
        let across = sq[1].x.raw - sq[2].x.raw;
        let product = (p.y.raw - sq[2].y.raw) * across;
        assert(product == 0) by (nonlinear_arith)
            requires
                product == (p.y.raw - sq[2].y.raw) * across,
                across == 0,
        ;
    }
    assert(f(3) == 0);
    assert(sum_to(f, 4) == f(0) + f(1) + f(2) + f(3)) by {
        reveal_with_fuel(sum_to, 5);
    }
}

/// A grid whose first point lies inside the polygon holds a point.
proof fn lemma_grid_holds_first_point(
    poly: Seq<Vector2D>,
    lo: Vector2D,
    hi: Vector2D,
    delta: int,
    cols: int,
    rows: int,
)
    requires
        1 <= cols,
        1 <= rows,
        lo.x.raw <= hi.x.raw,
        lo.y.raw <= hi.y.raw,
        is_point_in_polygon_spec(lo, poly),
    ensures
        grid_rows(poly, lo, hi, delta, cols, rows).len() >= 1,
    decreases rows + cols,
{
    if rows > 1 {
        lemma_grid_holds_first_point(poly, lo, hi, delta, cols, rows - 1);
    } else {
        let y = lo.y.raw + (rows - 1) * delta;
        assert(y == lo.y.raw) by (nonlinear_arith)
            requires
                y == lo.y.raw + (rows - 1) * delta,
                rows == 1,
        ;
        lemma_row_holds_first_point(poly, lo, hi, delta, cols);
        assert(grid_rows(poly, lo, hi, delta, cols, 0).len() == 0);
    }
}

/// The lowest row of a grid whose first point lies inside the polygon holds a point.
proof fn lemma_row_holds_first_point(
    poly: Seq<Vector2D>,
    lo: Vector2D,
    hi: Vector2D,
    delta: int,
    cols: int,
)
    requires
        1 <= cols,
        lo.x.raw <= hi.x.raw,
        is_point_in_polygon_spec(lo, poly),
    ensures
        grid_row(poly, lo.x.raw as int, hi.x.raw as int, lo.y.raw as int, delta, cols).len() >= 1,
    decreases cols,
{
    if cols > 1 {
        lemma_row_holds_first_point(poly, lo, hi, delta, cols - 1);
    } else {
        let x = lo.x.raw + (cols - 1) * delta;
        assert(x == lo.x.raw) by (nonlinear_arith)
            requires
                x == lo.x.raw + (cols - 1) * delta,
                cols == 1,
        ;
        let p = Vector2D { x: Fixed { raw: x as i64 }, y: Fixed { raw: lo.y.raw } };
        assert(p == lo);
    }
}

/// A stone over a unit square whose sums are exact has samples, and its
/// outline is the square of side one about the origin.
pub proof fn lemma_unit_square_has_samples(a: Fixed, b: Fixed)
    requires
        -SQUARE_REACH <= a.raw <= SQUARE_REACH,
        -SQUARE_REACH <= b.raw <= SQUARE_REACH,
        is_fine(unit_square(a, b)),
    ensures
        stone_model(unit_square(a, b), Fixed { raw: SCALE }).n > 0,
        stone_model(unit_square(a, b), Fixed { raw: SCALE }).outline_com == centered_square(),
{
    let sq = unit_square(a, b);
    lemma_unit_square_area(a, b);
    lemma_unit_square_centered(a, b);
    lemma_corner_is_inside();
    let outline = centered_square();
    let area = polygon_area_spec(sq);
    assert(area.raw == SCALE);
    let (lo, hi) = find_aabb_spec(outline);
    assert(outline.len() == 4);
    assert(lo == outline[0] && hi == outline[2]) by {
        reveal_with_fuel(extent, 5);
    }
    let v = (area.raw * SCALE) / (COLLISION_MESH_POINTS as int);
    assert(area.raw * SCALE == 1_000_000_000_000_000_000) by (nonlinear_arith)
        requires
            area.raw == 1_000_000_000,
            SCALE == 1_000_000_000,
    ;
    assert(v == 25_000_000_000_000);
    assert(is_floor_sqrt(5_000_000, v)) by (nonlinear_arith)
        requires
            v == 25_000_000_000_000,
            is_floor_sqrt(5_000_000, v) == (0 <= 5_000_000int && 5_000_000int * 5_000_000 <= v < (
                5_000_000int + 1) * (5_000_000int + 1)),
    ;
    lemma_floor_sqrt_is(5_000_000, v);
    let delta = grid_spacing(area, COLLISION_MESH_POINTS as int);
    assert(delta == 5_000_000);
    let cols = ceil_div(hi.x.raw - lo.x.raw, delta) + 1;
    let rows = ceil_div(hi.y.raw - lo.y.raw, delta) + 1;
    assert(cols == 201 && rows == 201);
    lemma_grid_holds_first_point(outline, lo, hi, delta, cols, rows);
}

/// A plate of thickness one over a unit square, placed anywhere within
/// sixty-seven meters of the origin, is a stone that weighs exactly as much
/// as a cubic meter of slate, whose outline is the square of side one about
/// the origin, and that has between one and `UNIT_SQUARE_SAMPLES` samples.
pub proof fn lemma_unit_square_stone(a: Fixed, b: Fixed)
    requires
        SCALE - FINE_REACH <= a.raw <= FINE_REACH - SCALE,
        SCALE - FINE_REACH <= b.raw <= FINE_REACH - SCALE,
    ensures
        ({
            let stone = stone_model(unit_square(a, b), Fixed { raw: SCALE });
            &&& 0 < stone.n <= UNIT_SQUARE_SAMPLES
            &&& stone.mass.raw == DENSITY_SLATE
            &&& stone.outline_com == centered_square()
        }),
{
    let sq = unit_square(a, b);
    assert(sq.len() == 4);
    assert(is_fine(sq));
    lemma_unit_square_has_samples(a, b);
    lemma_unit_square_mass(a, b);
}

} // verus!
