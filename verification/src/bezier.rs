//! Bezier curves through the algorithm of de Casteljau.
use crate::basic_structs::Vector2D;
use crate::fixed::{Fixed, SCALE};
use vstd::prelude::*;

verus! {

/// Number of segments into which a curve is divided.
pub const CALCULATE_POINTS: usize = 1000;

/// Raw distance between the parameters of neighbouring points of the polyline.
pub const PARAMETER_STEP: i64 = 1_000_000;

/// The point that divides the segment from `a` to `b` in the ratio `t : 1 - t`.
pub open spec fn lerp_spec(a: Vector2D, b: Vector2D, t: Fixed) -> Vector2D {
    let rest = Fixed { raw: SCALE }.sub_spec(t);
    Vector2D {
        x: rest.mul_spec(a.x).add_spec(t.mul_spec(b.x)),
        y: rest.mul_spec(a.y).add_spec(t.mul_spec(b.y)),
    }
}

/// One level of de Casteljau's scheme: every pair of neighbours is replaced
/// by the point between them at the parameter `t`.
pub open spec fn reduced(points: Seq<Vector2D>, t: Fixed) -> Seq<Vector2D> {
    Seq::new((points.len() - 1) as nat, |i: int| lerp_spec(points[i], points[i + 1], t))
}

/// The point of the Bezier curve with the given control points at the
/// parameter `t`: the one point left when the list is reduced level by level.
pub open spec fn casteljau(points: Seq<Vector2D>, t: Fixed) -> Vector2D
    decreases points.len(),
{
    if points.len() <= 1 {
        points[0]
    } else {
        casteljau(reduced(points, t), t)
    }
}

/// The point of the curve at the parameter `t`; none without control points.
pub open spec fn de_iterative_spec(points: Seq<Vector2D>, t: Fixed) -> Option<Vector2D> {
    if points.len() == 0 {
        None
    } else {
        Some(casteljau(points, t))
    }
}

/// The parameter of point `i` of the polyline: `i / CALCULATE_POINTS`.
pub open spec fn parameter(i: int) -> Fixed {
    Fixed { raw: (i * PARAMETER_STEP) as i64 }
}

/// The polyline of a curve: its points at the parameters `0`, `1/1000`, up to
/// `1`; empty without control points.
pub open spec fn polyline_spec(points: Seq<Vector2D>) -> Seq<Vector2D> {
    if points.len() == 0 {
        Seq::empty()
    } else {
        Seq::new((CALCULATE_POINTS + 1) as nat, |i: int| casteljau(points, parameter(i)))
    }
}

/// Linear interpolation between two points: `a` at `t = 0`, `b` at `t = 1`.
pub fn lerp(a: Vector2D, b: Vector2D, t: Fixed) -> (r: Vector2D)
    ensures
        r == lerp_spec(a, b, t),
{
    let rest = Fixed::one().sub(t);
    Vector2D { x: rest.mul(a.x).add(t.mul(b.x)), y: rest.mul(a.y).add(t.mul(b.y)) }
}

/// The point of the Bezier curve of any order with the given control points
/// at the parameter `t`, which usually lies between zero and one.
pub fn de_iterative(points: &[Vector2D], t: Fixed) -> (r: Option<Vector2D>)
    ensures
        r == de_iterative_spec(points@, t),
{
    if points.len() == 0 {
        return None;
    }
    let mut buffer: Vec<Vector2D> = Vec::new();
    let mut k: usize = 0;
    while k < points.len()
        invariant
            0 <= k <= points.len(),
            buffer@ == points@.subrange(0, k as int),
        decreases points.len() - k,
    {
        buffer.push(points[k]);
        assert(buffer@ =~= points@.subrange(0, k + 1));
        k = k + 1;
    }
    assert(buffer@ =~= points@);
    let mut n = buffer.len();
    while n > 1
        invariant
            1 <= n <= buffer.len(),
            casteljau(points@, t) == casteljau(buffer@.subrange(0, n as int), t),
        decreases n,
    {
        let ghost level = buffer@.subrange(0, n as int);
        let mut i: usize = 0;
        while i < n - 1
            invariant
                2 <= n <= buffer.len(),
                0 <= i <= n - 1,
                level.len() == n,
                forall|j: int| 0 <= j < i ==> buffer@[j] == lerp_spec(level[j], level[j + 1], t),
                forall|j: int| i <= j < n ==> buffer@[j] == level[j],
            decreases n - 1 - i,
        {
            let p = lerp(buffer[i], buffer[i + 1], t);
            buffer.set(i, p);
            i = i + 1;
        }
        assert(buffer@.subrange(0, n - 1) =~= reduced(level, t));
        n = n - 1;
    }
    assert(buffer@.subrange(0, 1).len() == 1);
    Some(buffer[0])
}

/// A Bezier curve: its control points and the polyline that stands for it.
pub struct BezierInfo {
    /// A name for the curve.
    pub name: String,
    /// The control points.
    pub control_points: Vec<Vector2D>,
    /// The order of the curve: one less than the number of control points.
    pub order: usize,
    /// The points of the curve at evenly spaced parameters.
    pub polyline_points: Vec<Vector2D>,
}

impl BezierInfo {
    /// The curve with the given control points, with its polyline of
    /// `CALCULATE_POINTS` segments.
    pub fn new(name: String, points: Vec<Vector2D>) -> (r: Self)
        ensures
            r.name == name,
            r.control_points == points,
            r.order == if points@.len() > 0 {
                points@.len() - 1
            } else {
                0
            },
            r.polyline_points@ == polyline_spec(points@),
    {
        let order = if points.len() > 0 {
            points.len() - 1
        } else {
            0
        };
        let resolution = CALCULATE_POINTS;
        let mut polyline_points: Vec<Vector2D> = Vec::new();
        if points.len() > 0 {
            let mut i: usize = 0;
            while i <= resolution
                invariant
                    0 <= i <= resolution + 1,
                    resolution == CALCULATE_POINTS,
                    points@.len() > 0,
                    polyline_points@.len() == i,
                    forall|j: int|
                        0 <= j < i ==> polyline_points@[j] == casteljau(points@, parameter(j)),
                decreases resolution + 1 - i,
            {
                let t = Fixed { raw: (i as i64) * PARAMETER_STEP };
                if let Some(point) = de_iterative(points.as_slice(), t) {
                    polyline_points.push(point);
                }
                i = i + 1;
            }
        }
        assert(polyline_points@ =~= polyline_spec(points@));
        BezierInfo { name, order, control_points: points, polyline_points }
    }

    /// The polyline that stands for the curve.
    pub fn get_polyline_points(&self) -> (r: &Vec<Vector2D>)
        ensures
            r@ == self.polyline_points@,
    {
        &self.polyline_points
    }
}

} // verus!
