//! Physical properties of a stone, derived once from its outline and thickness.
//!
//! The outline is moved into the frame of its center of mass, filled with a
//! regular grid of sample points, and the moments of inertia are summed over
//! those points, each of which carries an equal share of the mass.
use crate::basic_structs::Vector2D;
use crate::fixed::{
    div_toward_zero, floor_sqrt, isqrt_wide, lemma_exact_quotient, lemma_floor_sqrt_exists,
    lemma_mul_bounded, lemma_neutral_and_inverse, mul_div_exact, saturate_wide, Fixed, RAW_MAX,
    SCALE,
};
use crate::geometry::{
    calculate_centroid, calculate_centroid_spec, is_fine, polygon_area, polygon_area_spec,
    AREA_EPSILON,
};
use crate::geometry_laws::{lemma_unit_square_area, unit_square, SQUARE_REACH};
use crate::sample_laws::{lemma_unit_square_samples, UNIT_SQUARE_SAMPLES};
use crate::stone_editor::StoneBlueprint;
use crate::summation::sum_to;
use vstd::prelude::*;

verus! {

/// Number of sample points the grid aims at.
pub const COLLISION_MESH_POINTS: usize = 40000;

/// Density of slate in kilograms per cubic meter, in raw units.
pub const DENSITY_SLATE: i64 = 2_700_000_000_000;

/// Raw extent below which a bounding box counts as flat.
pub const EXTENT_EPSILON: i128 = 1;

/// Mass, moments of inertia and sampled shape of a stone.
#[derive(Clone)]
pub struct StoneProperties {
    /// Number of sample points.
    pub n: usize,
    /// Mass in kilograms.
    pub mass: Fixed,
    /// Moment of inertia about the pitch axis.
    pub inertia_tensor_x: Fixed,
    /// Moment of inertia about the spin axis.
    pub inertia_tensor_y: Fixed,
    /// The outline in the frame of the center of mass.
    pub outline_com: Vec<Vector2D>,
    /// The sample points in the frame of the center of mass.
    pub collision_mesh_com: Vec<Vector2D>,
    /// Largest squared distance of a sample point from the center of mass.
    pub d_max: Fixed,
}

/// Index of the vertex before vertex `i` in a closed polygon of `n` vertices.
pub open spec fn previous_index(i: int, n: int) -> int {
    if i == 0 {
        n - 1
    } else {
        i - 1
    }
}

/// Whether the edge between `a` and `b` crosses the horizontal ray that
/// starts at `point` and runs toward larger x.
///
/// The edge must straddle the ray's height, one end strictly above it and the
/// other not, and must meet that height to the right of the point.
pub open spec fn ray_crosses(point: Vector2D, a: Vector2D, b: Vector2D) -> bool {
    (a.y.raw > point.y.raw) != (b.y.raw > point.y.raw) && point.x.raw < a.x.raw + div_toward_zero(
        (point.y.raw - a.y.raw) * (b.x.raw - a.x.raw),
        b.y.raw - a.y.raw,
    )
}

/// Whether edge `i`, from vertex `i` back to the vertex before it, crosses the ray: 1 or 0.
pub open spec fn crossing(point: Vector2D, polygon: Seq<Vector2D>, i: int) -> int {
    if ray_crosses(point, polygon[i], polygon[previous_index(i, polygon.len() as int)]) {
        1
    } else {
        0
    }
}

/// The crossings of the edges, as a function of the edge's index.
pub open spec fn crossings(point: Vector2D, polygon: Seq<Vector2D>) -> spec_fn(int) -> int {
    |i: int| crossing(point, polygon, i)
}

/// Even-odd rule: a point is inside when a ray from it crosses the outline an
/// odd number of times.
pub open spec fn is_point_in_polygon_spec(point: Vector2D, polygon: Seq<Vector2D>) -> bool {
    sum_to(crossings(point, polygon), polygon.len() as int) % 2 == 1
}

/// Whether the segment between `a` and `b` crosses the ray from `point` toward larger x.
fn crosses_ray(point: Vector2D, a: Vector2D, b: Vector2D) -> (r: bool)
    ensures
        r == ray_crosses(point, a, b),
{
    if (a.y.raw > point.y.raw) == (b.y.raw > point.y.raw) {
        return false;
    }
    let rise: i128 = point.y.raw as i128 - a.y.raw as i128;
    let height: i128 = b.y.raw as i128 - a.y.raw as i128;
    let width: i128 = b.x.raw as i128 - a.x.raw as i128;
    let offset = mul_div_exact(rise, width, height);
    (point.x.raw as i128) < a.x.raw as i128 + offset
}

/// Whether a point lies inside a closed polygon, by the even-odd rule.
///
/// The polygon may be concave. A point on the outline may count either way.
pub fn is_point_in_polygon(point: Vector2D, polygon: &[Vector2D]) -> (r: bool)
    ensures
        r == is_point_in_polygon_spec(point, polygon@),
{
    let n = polygon.len();
    let mut is_inside = false;
    let mut i: usize = 0;
    let ghost f = crossings(point, polygon@);
    while i < n
        invariant
            n == polygon.len(),
            0 <= i <= n,
            f == crossings(point, polygon@),
            sum_to(f, i as int) >= 0,
            is_inside == (sum_to(f, i as int) % 2 == 1),
        decreases n - i,
    {
        let j = if i == 0 {
            n - 1
        } else {
            i - 1
        };
        if crosses_ray(point, polygon[i], polygon[j]) {
            is_inside = !is_inside;
        }
        i = i + 1;
    }
    is_inside
}

/// Smallest (`want_min`) or largest coordinate, along x (`along_x`) or y, of
/// the first `k` vertices; of no vertices, the largest (smallest) raw value.
pub open spec fn extent(poly: Seq<Vector2D>, along_x: bool, want_min: bool, k: int) -> int
    decreases k,
{
    if k <= 0 {
        if want_min {
            i64::MAX as int
        } else {
            i64::MIN as int
        }
    } else {
        let rest = extent(poly, along_x, want_min, k - 1);
        let c = if along_x {
            poly[k - 1].x.raw as int
        } else {
            poly[k - 1].y.raw as int
        };
        if want_min {
            if c < rest {
                c
            } else {
                rest
            }
        } else {
            if c > rest {
                c
            } else {
                rest
            }
        }
    }
}

/// Lower left and upper right corner of the smallest axis-aligned box around the polygon.
pub open spec fn find_aabb_spec(poly: Seq<Vector2D>) -> (Vector2D, Vector2D) {
    let n = poly.len() as int;
    (
        Vector2D {
            x: Fixed { raw: extent(poly, true, true, n) as i64 },
            y: Fixed { raw: extent(poly, false, true, n) as i64 },
        },
        Vector2D {
            x: Fixed { raw: extent(poly, true, false, n) as i64 },
            y: Fixed { raw: extent(poly, false, false, n) as i64 },
        },
    )
}

/// The axis-aligned bounding box of a polygon, as its two extreme corners.
pub fn find_aabb(polygon: &[Vector2D]) -> (r: (Vector2D, Vector2D))
    ensures
        r == find_aabb_spec(polygon@),
{
    let n = polygon.len();
    let mut min_x: i64 = i64::MAX;
    let mut min_y: i64 = i64::MAX;
    let mut max_x: i64 = i64::MIN;
    let mut max_y: i64 = i64::MIN;
    let mut i: usize = 0;
    while i < n
        invariant
            n == polygon.len(),
            0 <= i <= n,
            min_x == extent(polygon@, true, true, i as int),
            min_y == extent(polygon@, false, true, i as int),
            max_x == extent(polygon@, true, false, i as int),
            max_y == extent(polygon@, false, false, i as int),
        decreases n - i,
    {
        let p = polygon[i];
        if p.x.raw < min_x {
            min_x = p.x.raw;
        }
        if p.y.raw < min_y {
            min_y = p.y.raw;
        }
        if p.x.raw > max_x {
            max_x = p.x.raw;
        }
        if p.y.raw > max_y {
            max_y = p.y.raw;
        }
        i = i + 1;
    }
    (
        Vector2D { x: Fixed { raw: min_x }, y: Fixed { raw: min_y } },
        Vector2D { x: Fixed { raw: max_x }, y: Fixed { raw: max_y } },
    )
}

/// `a / b` rounded up, for a positive `b`.
pub open spec fn ceil_div(a: int, b: int) -> int {
    (a + b - 1) / b
}

/// Distance between neighbouring grid points: the side of a square whose area
/// is the `num_points`-th part of `area`, in raw units, rounded down.
pub open spec fn grid_spacing(area: Fixed, num_points: int) -> int {
    floor_sqrt((area.raw * SCALE) / num_points)
}

/// The grid points of one row that lie within the box and inside the polygon,
/// from the first column up to column `cols`.
pub open spec fn grid_row(
    poly: Seq<Vector2D>,
    min_x: int,
    max_x: int,
    y: int,
    delta: int,
    cols: int,
) -> Seq<Vector2D>
    decreases cols,
{
    if cols <= 0 {
        Seq::empty()
    } else {
        let rest = grid_row(poly, min_x, max_x, y, delta, cols - 1);
        let x = min_x + (cols - 1) * delta;
        let p = Vector2D { x: Fixed { raw: x as i64 }, y: Fixed { raw: y as i64 } };
        if x <= max_x && is_point_in_polygon_spec(p, poly) {
            rest.push(p)
        } else {
            rest
        }
    }
}

/// The retained grid points of the first `rows` rows, row by row from the
/// lowest, each row from the left.
pub open spec fn grid_rows(
    poly: Seq<Vector2D>,
    lo: Vector2D,
    hi: Vector2D,
    delta: int,
    cols: int,
    rows: int,
) -> Seq<Vector2D>
    decreases rows,
{
    if rows <= 0 {
        Seq::empty()
    } else {
        let rest = grid_rows(poly, lo, hi, delta, cols, rows - 1);
        let y = lo.y.raw + (rows - 1) * delta;
        if y <= hi.y.raw {
            rest + grid_row(poly, lo.x.raw as int, hi.x.raw as int, y, delta, cols)
        } else {
            rest
        }
    }
}

/// The sample points of a polygon: the points of a square grid, anchored at the
/// lower left corner of the bounding box, that lie inside the polygon.
///
/// There are none for an empty or degenerate polygon, a flat bounding box, a
/// target of zero points, or a spacing that rounds to zero.
pub open spec fn generate_collision_mesh_spec(
    poly: Seq<Vector2D>,
    num_points: int,
    area: Fixed,
) -> Seq<Vector2D> {
    let (lo, hi) = find_aabb_spec(poly);
    let width = hi.x.raw - lo.x.raw;
    let height = hi.y.raw - lo.y.raw;
    let delta = grid_spacing(area, num_points);
    if poly.len() == 0 || area.raw < AREA_EPSILON || num_points <= 0 || width < EXTENT_EPSILON
        || height < EXTENT_EPSILON || delta <= 0 {
        Seq::empty()
    } else {
        grid_rows(poly, lo, hi, delta, ceil_div(width, delta) + 1, ceil_div(height, delta) + 1)
    }
}

/// Whether a point lies inside the polygon and within the box from `lo` to `hi`.
pub open spec fn is_sample(p: Vector2D, poly: Seq<Vector2D>, lo: Vector2D, hi: Vector2D) -> bool {
    is_point_in_polygon_spec(p, poly) && lo.x.raw <= p.x.raw <= hi.x.raw && lo.y.raw <= p.y.raw
        <= hi.y.raw
}

/// Every point of a row of the grid lies inside the polygon and within the box.
proof fn lemma_grid_row_inside(
    poly: Seq<Vector2D>,
    lo: Vector2D,
    hi: Vector2D,
    y: int,
    delta: int,
    cols: int,
)
    requires
        delta > 0,
        lo.y.raw <= y <= hi.y.raw,
    ensures
        forall|i: int|
            0 <= i < grid_row(poly, lo.x.raw as int, hi.x.raw as int, y, delta, cols).len()
                ==> is_sample(
                #[trigger] grid_row(poly, lo.x.raw as int, hi.x.raw as int, y, delta, cols)[i],
                poly,
                lo,
                hi,
            ),
    decreases cols,
{
    if cols > 0 {
        lemma_grid_row_inside(poly, lo, hi, y, delta, cols - 1);
        assert((cols - 1) * delta >= 0) by (nonlinear_arith)
            requires
                cols - 1 >= 0,
                delta > 0,
        ;
        let rest = grid_row(poly, lo.x.raw as int, hi.x.raw as int, y, delta, cols - 1);
        let row = grid_row(poly, lo.x.raw as int, hi.x.raw as int, y, delta, cols);
        let x = lo.x.raw + (cols - 1) * delta;
        let p = Vector2D { x: Fixed { raw: x as i64 }, y: Fixed { raw: y as i64 } };
        assert forall|i: int| 0 <= i < row.len() implies is_sample(
            #[trigger] row[i],
            poly,
            lo,
            hi,
        ) by {
            if i < rest.len() {
                assert(row[i] == rest[i]);
            } else {
                assert(row[i] == p);
            }
        }
    }
}

/// Every point of the first rows of the grid lies inside the polygon and within the box.
proof fn lemma_grid_rows_inside(
    poly: Seq<Vector2D>,
    lo: Vector2D,
    hi: Vector2D,
    delta: int,
    cols: int,
    rows: int,
)
    requires
        delta > 0,
    ensures
        forall|i: int|
            0 <= i < grid_rows(poly, lo, hi, delta, cols, rows).len() ==> is_sample(
                #[trigger] grid_rows(poly, lo, hi, delta, cols, rows)[i],
                poly,
                lo,
                hi,
            ),
    decreases rows,
{
    if rows > 0 {
        lemma_grid_rows_inside(poly, lo, hi, delta, cols, rows - 1);
        let y = lo.y.raw + (rows - 1) * delta;
        assert((rows - 1) * delta >= 0) by (nonlinear_arith)
            requires
                rows - 1 >= 0,
                delta > 0,
        ;
        let rest = grid_rows(poly, lo, hi, delta, cols, rows - 1);
        let all = grid_rows(poly, lo, hi, delta, cols, rows);
        if y <= hi.y.raw {
            lemma_grid_row_inside(poly, lo, hi, y, delta, cols);
            let row = grid_row(poly, lo.x.raw as int, hi.x.raw as int, y, delta, cols);
            assert forall|i: int| 0 <= i < all.len() implies is_sample(
                #[trigger] all[i],
                poly,
                lo,
                hi,
            ) by {
                if i < rest.len() {
                    assert(all[i] == rest[i]);
                } else {
                    assert(all[i] == row[i - rest.len()]);
                }
            }
        }
    }
}

/// Every sample point lies inside the polygon, by the even-odd rule, and
/// within its bounding box.
pub proof fn lemma_samples_inside(poly: Seq<Vector2D>, num_points: int, area: Fixed)
    ensures
        forall|i: int|
            0 <= i < generate_collision_mesh_spec(poly, num_points, area).len() ==> is_sample(
                #[trigger] generate_collision_mesh_spec(poly, num_points, area)[i],
                poly,
                find_aabb_spec(poly).0,
                find_aabb_spec(poly).1,
            ),
{
    let (lo, hi) = find_aabb_spec(poly);
    let width = hi.x.raw - lo.x.raw;
    let height = hi.y.raw - lo.y.raw;
    let delta = grid_spacing(area, num_points);
    if delta > 0 {
        lemma_grid_rows_inside(
            poly,
            lo,
            hi,
            delta,
            ceil_div(width, delta) + 1,
            ceil_div(height, delta) + 1,
        );
    }
}

/// No point among the first `k` lies farther from the origin than `farthest_squared` says.
pub proof fn lemma_farthest_is_upper_bound(mesh: Seq<Vector2D>, k: int)
    requires
        0 <= k <= mesh.len(),
    ensures
        forall|i: int|
            0 <= i < k ==> (#[trigger] mesh[i]).length_squared_spec().raw <= farthest_squared(
                mesh,
                k,
            ).raw,
        farthest_squared(mesh, k).raw >= 0,
    decreases k,
{
    if k > 0 {
        lemma_farthest_is_upper_bound(mesh, k - 1);
    }
}

/// The spacing of the grid, or zero where there is none.
fn spacing_of(area: Fixed, num_points: usize) -> (delta: u64)
    requires
        area.raw >= 0,
        num_points > 0,
    ensures
        delta == grid_spacing(area, num_points as int),
        delta < 0x8000_0000_0000,
{
    proof {
        lemma_mul_bounded(area.raw as int, SCALE as int, RAW_MAX as int, SCALE as int);
    }
    let scaled: u128 = (area.raw as u128) * (SCALE as u128);
    let per_point: u128 = scaled / (num_points as u128);
    let root = isqrt_wide(per_point);
    proof {
        lemma_floor_sqrt_exists(per_point as int);
        if root >= 0x8000_0000_0000 {
            assert(root * root >= 0x8000_0000_0000 * 0x8000_0000_0000) by (nonlinear_arith)
                requires
                    root >= 0x8000_0000_0000,
            ;
            assert(RAW_MAX * SCALE < 0x8000_0000_0000 * 0x8000_0000_0000) by (nonlinear_arith)
                requires
                    RAW_MAX == 0x7fff_ffff_ffff_ffff,
                    SCALE == 1_000_000_000,
            ;
        }
    }
    root
}

/// Number of grid lines needed to span `extent` at spacing `delta`.
fn line_count(extent: i128, delta: u64) -> (count: u128)
    requires
        0 <= extent <= 0xffff_ffff_ffff_ffff,
        0 < delta,
    ensures
        count == ceil_div(extent as int, delta as int) + 1,
        count <= 0x1_0000_0000_0000_0001,
{
    let d = delta as u128;
    let q: u128 = ((extent as u128) + d - 1) / d;
    proof {
        assert(q <= 0x1_0000_0000_0000_0000) by (nonlinear_arith)
            requires
                q == ((extent as int) + d - 1) / (d as int),
                0 <= extent <= 0xffff_ffff_ffff_ffff,
                0 < d,
        ;
    }
    q + 1
}

/// Builds the sample points of a polygon by grid sampling.
///
/// The spacing is chosen so that a polygon of area `polygon_area` holds about
/// `num_points` grid cells. Every grid point of the bounding box is tested
/// with the even-odd rule and kept if it lies inside, so that a concave
/// outline needs no triangulation.
pub fn generate_collision_mesh(
    polygon: &[Vector2D],
    num_points: usize,
    polygon_area: Fixed,
) -> (mesh: Vec<Vector2D>)
    ensures
        mesh@ == generate_collision_mesh_spec(polygon@, num_points as int, polygon_area),
{
    let mut mesh: Vec<Vector2D> = Vec::new();
    if polygon.len() == 0 || polygon_area.raw < AREA_EPSILON || num_points == 0 {
        return mesh;
    }
    let (lo, hi) = find_aabb(polygon);
    let width: i128 = hi.x.raw as i128 - lo.x.raw as i128;
    let height: i128 = hi.y.raw as i128 - lo.y.raw as i128;
    if width < EXTENT_EPSILON || height < EXTENT_EPSILON {
        return mesh;
    }
    let delta = spacing_of(polygon_area, num_points);
    if delta == 0 {
        return mesh;
    }
    let num_cols = line_count(width, delta);
    let num_rows = line_count(height, delta);
    let step = delta as i128;

    let mut i: u128 = 0;
    while i < num_rows
        invariant
            0 <= i <= num_rows <= 0x1_0000_0000_0000_0001,
            num_cols <= 0x1_0000_0000_0000_0001,
            0 < step < 0x8000_0000_0000,
            step == delta,
            mesh@ == grid_rows(polygon@, lo, hi, delta as int, num_cols as int, i as int),
        decreases num_rows - i,
    {
        proof {
            lemma_mul_bounded(i as int, step as int, 0x1_0000_0000_0000_0001, 0x8000_0000_0000);
            assert(0x1_0000_0000_0000_0001 * 0x8000_0000_0000 < 0x1_0000_0000_0000_0000_0000_0000_0000)
                by (nonlinear_arith);
        }
        let y: i128 = lo.y.raw as i128 + (i as i128) * step;
        if y <= hi.y.raw as i128 {
            let ghost base = mesh@;
            let mut j: u128 = 0;
            while j < num_cols
                invariant
                    0 <= j <= num_cols <= 0x1_0000_0000_0000_0001,
                    0 < step < 0x8000_0000_0000,
                    step == delta,
                    i64::MIN <= y <= i64::MAX,
                    mesh@ == base + grid_row(
                        polygon@,
                        lo.x.raw as int,
                        hi.x.raw as int,
                        y as int,
                        delta as int,
                        j as int,
                    ),
                decreases num_cols - j,
            {
                proof {
                    lemma_mul_bounded(
                        j as int,
                        step as int,
                        0x1_0000_0000_0000_0001,
                        0x8000_0000_0000,
                    );
                    assert(0x1_0000_0000_0000_0001 * 0x8000_0000_0000
                        < 0x1_0000_0000_0000_0000_0000_0000_0000) by (nonlinear_arith);
                }
                let x: i128 = lo.x.raw as i128 + (j as i128) * step;
                if x <= hi.x.raw as i128 {
                    let point = Vector2D { x: Fixed { raw: x as i64 }, y: Fixed { raw: y as i64 } };
                    if is_point_in_polygon(point, polygon) {
                        mesh.push(point);
                    }
                }
                proof {
                    let before = grid_row(
                        polygon@,
                        lo.x.raw as int,
                        hi.x.raw as int,
                        y as int,
                        delta as int,
                        j as int,
                    );
                    let after = grid_row(
                        polygon@,
                        lo.x.raw as int,
                        hi.x.raw as int,
                        y as int,
                        delta as int,
                        j + 1,
                    );
                    assert(mesh@ =~= base + after);
                }
                j = j + 1;
            }
        }
        i = i + 1;
    }
    mesh
}

/// The squared x coordinates of the sample points, as a function of the point's index.
pub open spec fn squared_offsets(mesh: Seq<Vector2D>) -> spec_fn(int) -> int {
    |i: int| mesh[i].x.mul_spec(mesh[i].x).raw as int
}

/// The squared distances of the sample points from the origin, as a function of the point's index.
pub open spec fn squared_radii(mesh: Seq<Vector2D>) -> spec_fn(int) -> int {
    |i: int| mesh[i].length_squared_spec().raw as int
}

/// Moment of inertia of `count` points of equal mass that share `total_mass`:
/// `total_mass * squares / count`, and zero for no points.
pub open spec fn point_cloud_inertia(squares: int, count: int, total_mass: Fixed) -> Fixed {
    if count <= 0 {
        Fixed { raw: 0 }
    } else {
        total_mass.mul_spec(Fixed::of(squares)).div_int_spec(count)
    }
}

/// Moment of inertia about the pitch axis: every sample point weighs in with its squared x.
pub open spec fn calculate_inertia_z_spec(mesh: Seq<Vector2D>, total_mass: Fixed) -> Fixed {
    point_cloud_inertia(
        sum_to(squared_offsets(mesh), mesh.len() as int),
        mesh.len() as int,
        total_mass,
    )
}

/// Moment of inertia about the spin axis: every sample point weighs in with
/// its squared distance from the origin.
pub open spec fn calculate_inertia_y_spec(mesh: Seq<Vector2D>, total_mass: Fixed) -> Fixed {
    point_cloud_inertia(
        sum_to(squared_radii(mesh), mesh.len() as int),
        mesh.len() as int,
        total_mass,
    )
}

/// Largest squared distance from the origin among the first `k` points; zero for none.
pub open spec fn farthest_squared(mesh: Seq<Vector2D>, k: int) -> Fixed
    decreases k,
{
    if k <= 0 {
        Fixed { raw: 0 }
    } else {
        let rest = farthest_squared(mesh, k - 1);
        let d = mesh[k - 1].length_squared_spec();
        if d.raw >= rest.raw {
            d
        } else {
            rest
        }
    }
}

/// Sum of the squared x coordinates (`about_pitch`) or of the squared
/// distances from the origin of all sample points, exactly.
fn sum_of_squares(mesh: &[Vector2D], about_pitch: bool) -> (r: i128)
    ensures
        about_pitch ==> r == sum_to(squared_offsets(mesh@), mesh@.len() as int),
        !about_pitch ==> r == sum_to(squared_radii(mesh@), mesh@.len() as int),
{
    let n = mesh.len();
    let ghost f = if about_pitch {
        squared_offsets(mesh@)
    } else {
        squared_radii(mesh@)
    };
    let mut acc: i128 = 0;
    let mut i: usize = 0;
    while i < n
        invariant
            n == mesh.len(),
            0 <= i <= n,
            f == if about_pitch {
                squared_offsets(mesh@)
            } else {
                squared_radii(mesh@)
            },
            acc == sum_to(f, i as int),
            -(i * 0x8000_0000_0000_0000) <= acc <= i * 0x8000_0000_0000_0000,
        decreases n - i,
    {
        let p = mesh[i];
        let term = if about_pitch {
            p.x.mul(p.x)
        } else {
            p.length_squared()
        };
        acc = acc + term.raw as i128;
        i = i + 1;
    }
    acc
}

/// Moment of inertia of equal point masses, from the sum of their squared distances.
fn inertia_of(squares: i128, count: usize, total_mass: Fixed) -> (r: Fixed)
    ensures
        r == point_cloud_inertia(squares as int, count as int, total_mass),
{
    if count == 0 {
        return Fixed::zero();
    }
    total_mass.mul(Fixed { raw: saturate_wide(squares) }).div_count(count)
}

/// Moment of inertia about the pitch axis of sample points given in the frame
/// of the center of mass, for a body of mass `total_mass` spread evenly over them.
pub fn calculate_inertia_z(mesh_points: &[Vector2D], total_mass: Fixed) -> (r: Fixed)
    ensures
        r == calculate_inertia_z_spec(mesh_points@, total_mass),
{
    inertia_of(sum_of_squares(mesh_points, true), mesh_points.len(), total_mass)
}

/// Moment of inertia about the spin axis of sample points given in the frame
/// of the center of mass, for a body of mass `total_mass` spread evenly over them.
pub fn calculate_inertia_y(mesh_points: &[Vector2D], total_mass: Fixed) -> (r: Fixed)
    ensures
        r == calculate_inertia_y_spec(mesh_points@, total_mass),
{
    inertia_of(sum_of_squares(mesh_points, false), mesh_points.len(), total_mass)
}

/// Largest squared distance of a sample point from the origin.
fn farthest_point_squared(mesh: &[Vector2D]) -> (r: Fixed)
    ensures
        r == farthest_squared(mesh@, mesh@.len() as int),
{
    let n = mesh.len();
    let mut d_max = Fixed::zero();
    let mut i: usize = 0;
    while i < n
        invariant
            n == mesh.len(),
            0 <= i <= n,
            d_max == farthest_squared(mesh@, i as int),
        decreases n - i,
    {
        let d = mesh[i].length_squared();
        if d.raw >= d_max.raw {
            d_max = d;
        }
        i = i + 1;
    }
    d_max
}

/// The mathematical content of a `StoneProperties`.
pub struct StoneModel {
    pub n: nat,
    pub mass: Fixed,
    pub inertia_tensor_x: Fixed,
    pub inertia_tensor_y: Fixed,
    pub outline_com: Seq<Vector2D>,
    pub collision_mesh_com: Seq<Vector2D>,
    pub d_max: Fixed,
}

impl View for StoneProperties {
    type V = StoneModel;

    open spec fn view(&self) -> StoneModel {
        StoneModel {
            n: self.n as nat,
            mass: self.mass,
            inertia_tensor_x: self.inertia_tensor_x,
            inertia_tensor_y: self.inertia_tensor_y,
            outline_com: self.outline_com@,
            collision_mesh_com: self.collision_mesh_com@,
            d_max: self.d_max,
        }
    }
}

/// A stone without mass, extent or sample points.
pub open spec fn empty_stone() -> StoneModel {
    StoneModel {
        n: 0,
        mass: Fixed { raw: 0 },
        inertia_tensor_x: Fixed { raw: 0 },
        inertia_tensor_y: Fixed { raw: 0 },
        outline_com: Seq::empty(),
        collision_mesh_com: Seq::empty(),
        d_max: Fixed { raw: 0 },
    }
}

/// The outline moved so that `origin` becomes the point `(0, 0)`.
pub open spec fn shifted(points: Seq<Vector2D>, origin: Vector2D) -> Seq<Vector2D> {
    Seq::new(points.len(), |i: int| points[i].sub_spec(origin))
}

/// Mass of a plate: area times the density of slate times thickness. The
/// density is a whole number, so that the product is rounded once only.
pub open spec fn plate_mass(area: Fixed, thickness: Fixed) -> Fixed {
    area.mul_spec(Fixed { raw: DENSITY_SLATE }).mul_spec(thickness)
}

/// The mass of a plate is its area times 2700 times its thickness, rounded
/// toward zero once, for an area of up to three million square meters.
pub proof fn lemma_plate_mass_rounded_once(area: Fixed, thickness: Fixed)
    requires
        -3_000_000_000_000_000 <= area.raw <= 3_000_000_000_000_000,
    ensures
        plate_mass(area, thickness) == Fixed::of(
            div_toward_zero(area.raw * 2700 * thickness.raw, SCALE as int),
        ),
{
    assert(area.raw * DENSITY_SLATE == SCALE * (area.raw * 2700)) by (nonlinear_arith)
        requires
            DENSITY_SLATE == 2_700_000_000_000,
            SCALE == 1_000_000_000,
    ;
    lemma_exact_quotient(SCALE as int, area.raw * 2700);
}

/// The properties of the stone with the given outline and thickness.
///
/// An outline whose area is below `AREA_EPSILON`, or which holds no sample
/// point, gives the empty stone.
pub open spec fn stone_model(points: Seq<Vector2D>, thickness: Fixed) -> StoneModel {
    let area = polygon_area_spec(points);
    let outline = shifted(points, calculate_centroid_spec(points));
    let mesh = generate_collision_mesh_spec(outline, COLLISION_MESH_POINTS as int, area);
    let mass = plate_mass(area, thickness);
    if area.raw < AREA_EPSILON || mesh.len() == 0 {
        empty_stone()
    } else {
        StoneModel {
            n: mesh.len(),
            mass,
            inertia_tensor_x: calculate_inertia_z_spec(mesh, mass),
            inertia_tensor_y: calculate_inertia_y_spec(mesh, mass),
            outline_com: outline,
            collision_mesh_com: mesh,
            d_max: farthest_squared(mesh, mesh.len() as int),
        }
    }
}

/// A plate of unit area and unit thickness weighs as much as a cubic meter of slate.
pub proof fn lemma_unit_plate_mass(points: Seq<Vector2D>, thickness: Fixed)
    requires
        polygon_area_spec(points).raw == SCALE,
        thickness.raw == SCALE,
    ensures
        plate_mass(polygon_area_spec(points), thickness).raw == DENSITY_SLATE,
        stone_model(points, thickness).n > 0 ==> stone_model(points, thickness).mass.raw
            == DENSITY_SLATE,
{
    assert(SCALE * SCALE == 1_000_000_000_000_000_000int) by (nonlinear_arith)
        requires
            SCALE == 1_000_000_000,
    ;
    assert(SCALE * DENSITY_SLATE == 2_700_000_000_000_000_000_000int) by (nonlinear_arith)
        requires
            SCALE == 1_000_000_000,
            DENSITY_SLATE == 2_700_000_000_000,
    ;
}

/// A plate of thickness one over a unit square weighs as much as a cubic
/// meter of slate: exactly, where the square `is_fine`, and wherever else
/// within ten kilometers of the origin it lies, up to 8100 units of the last
/// place, which is the three units that rounding can add to its area, times
/// the density. This is within the density divided by the square root of the
/// number of samples, of which there are at most `UNIT_SQUARE_SAMPLES`.
pub proof fn lemma_unit_square_mass(a: Fixed, b: Fixed)
    requires
        -SQUARE_REACH <= a.raw <= SQUARE_REACH,
        -SQUARE_REACH <= b.raw <= SQUARE_REACH,
    ensures
        ({
            let stone = stone_model(unit_square(a, b), Fixed { raw: SCALE });
            let excess = stone.mass.raw - DENSITY_SLATE;
            stone.n > 0 ==> {
                &&& -8100 <= excess <= 8100
                &&& stone.n <= UNIT_SQUARE_SAMPLES
                &&& excess * excess * stone.n <= DENSITY_SLATE * DENSITY_SLATE
                &&& is_fine(unit_square(a, b)) ==> excess == 0
            }
        }),
{
    let one = Fixed { raw: SCALE };
    let area = polygon_area_spec(unit_square(a, b));
    lemma_unit_square_area(a, b);
    lemma_unit_square_samples(a, b);
    lemma_neutral_and_inverse(area, one);
    let w = area.raw - SCALE;
    assert(area.raw * DENSITY_SLATE == (SCALE * 2_700_000_000_000 + w * 2700 * SCALE)
        && SCALE * 2_700_000_000_000 + w * 2700 * SCALE == SCALE * (DENSITY_SLATE + w * 2700))
        by (nonlinear_arith)
        requires
            w == area.raw - SCALE,
            DENSITY_SLATE == 2_700_000_000_000,
            SCALE == 1_000_000_000,
    ;
    lemma_exact_quotient(SCALE as int, DENSITY_SLATE + w * 2700);
    assert(plate_mass(area, one).raw == DENSITY_SLATE + w * 2700);
    let stone = stone_model(unit_square(a, b), one);
    if stone.n > 0 {
        let excess = stone.mass.raw - DENSITY_SLATE;
        assert(excess == w * 2700);
        assert(excess * excess * stone.n <= DENSITY_SLATE * DENSITY_SLATE) by (nonlinear_arith)
            requires
                -8100 <= excess <= 8100,
                0 < stone.n <= 40_804,
                DENSITY_SLATE == 2_700_000_000_000,
        ;
    }
}

/// The outline of a stone is that of its blueprint, seen from the centroid
/// of the blueprint: every vertex is the blueprint's vertex less the centroid,
/// and the centroid itself comes to lie at the origin.
pub proof fn lemma_outline_in_centroid_frame(points: Seq<Vector2D>, thickness: Fixed)
    requires
        stone_model(points, thickness).n > 0,
    ensures
        ({
            let center = calculate_centroid_spec(points);
            let outline = stone_model(points, thickness).outline_com;
            &&& outline.len() == points.len()
            &&& forall|i: int|
                0 <= i < points.len() ==> #[trigger] outline[i] == points[i].sub_spec(center)
            &&& center.sub_spec(center) == (Vector2D { x: Fixed { raw: 0 }, y: Fixed { raw: 0 } })
        }),
{
}

/// The number of samples of a stone is the length of its list of samples, and
/// a stone without samples has neither mass nor outline.
pub proof fn lemma_stone_model_consistent(points: Seq<Vector2D>, thickness: Fixed)
    ensures
        stone_model(points, thickness).n == stone_model(points, thickness).collision_mesh_com.len(),
        stone_model(points, thickness).n == 0 ==> stone_model(points, thickness) == empty_stone(),
{
}

impl Default for StoneProperties {
    /// The empty stone.
    fn default() -> (r: Self)
        ensures
            r@ == empty_stone(),
    {
        StoneProperties {
            n: 0,
            mass: Fixed::zero(),
            inertia_tensor_x: Fixed::zero(),
            inertia_tensor_y: Fixed::zero(),
            outline_com: Vec::new(),
            collision_mesh_com: Vec::new(),
            d_max: Fixed::zero(),
        }
    }
}

/// Moves every point of an outline so that `origin` becomes `(0, 0)`.
fn shift(points: &[Vector2D], origin: Vector2D) -> (out: Vec<Vector2D>)
    ensures
        out@ == shifted(points@, origin),
{
    let n = points.len();
    let mut out: Vec<Vector2D> = Vec::new();
    let mut i: usize = 0;
    while i < n
        invariant
            n == points.len(),
            0 <= i <= n,
            out@.len() == i,
            forall|k: int| 0 <= k < i ==> out@[k] == points@[k].sub_spec(origin),
        decreases n - i,
    {
        out.push(points[i].sub(origin));
        i = i + 1;
    }
    assert(out@ =~= shifted(points@, origin));
    out
}

impl StoneProperties {
    /// Derives the physical properties of a stone from its blueprint.
    ///
    /// The mass is area times thickness times density. The outline is moved
    /// into the frame of its centroid and sampled on a grid; the moments of
    /// inertia and the largest squared radius are taken over the samples. A
    /// blueprint without area, or without any sample point, gives the empty
    /// stone; a caller must not start a simulation with a stone of no mass.
    pub fn new(blueprint: &StoneBlueprint) -> (r: Self)
        ensures
            r@ == stone_model(blueprint.points@, blueprint.thickness),
    {
        let area = polygon_area(blueprint.points.as_slice());
        if area.raw < AREA_EPSILON {
            return Self::default();
        }
        let centroid = calculate_centroid(blueprint.points.as_slice());
        let mass = area.mul(Fixed { raw: DENSITY_SLATE }).mul(blueprint.thickness);
        let outline_com = shift(blueprint.points.as_slice(), centroid);
        let collision_mesh_com = generate_collision_mesh(
            outline_com.as_slice(),
            COLLISION_MESH_POINTS,
            area,
        );
        if collision_mesh_com.len() == 0 {
            return Self::default();
        }
        let inertia_tensor_x = calculate_inertia_z(collision_mesh_com.as_slice(), mass);
        let inertia_tensor_y = calculate_inertia_y(collision_mesh_com.as_slice(), mass);
        let n = collision_mesh_com.len();
        let d_max = farthest_point_squared(collision_mesh_com.as_slice());
        StoneProperties {
            n,
            mass,
            inertia_tensor_x,
            inertia_tensor_y,
            outline_com,
            collision_mesh_com,
            d_max,
        }
    }
}

} // verus!
