//! Turning a point about the origin keeps its distance from the origin, as
//! far as nine decimal places allow.
use crate::basic_structs::Vector2D;
use crate::fixed::{lemma_rounding_remainder, magnitude, Fixed, SCALE};
use crate::physics::simulation::rotated;
use crate::trig::{
    cos_spec, lemma_squares_of_sine_and_cosine, lemma_unit_range, nearly_unit, sin_spec,
};
use vstd::prelude::*;

verus! {

/// Largest raw magnitude of a coordinate for which the law of turning is
/// stated: four thousand million.
pub const TURN_REACH: i64 = 4_000_000_000_000_000_000;

/// The sum of the squared raw coordinates of a point.
pub open spec fn squared_distance(p: Vector2D) -> int {
    p.x.raw * p.x.raw + p.y.raw * p.y.raw
}

/// The product of a coordinate within reach with a sine or cosine: it lies
/// within one unit of the last place of the exact product and is no larger
/// than the coordinate.
proof fn lemma_turned_part(x: Fixed, c: Fixed)
    requires
        -TURN_REACH <= x.raw <= TURN_REACH,
        -SCALE <= c.raw <= SCALE,
    ensures
        -SCALE < x.raw * c.raw - x.mul_spec(c).raw * SCALE < SCALE,
        -TURN_REACH <= x.mul_spec(c).raw <= TURN_REACH,
{
    let n = x.raw * c.raw;
    assert(-(TURN_REACH * SCALE) <= n <= TURN_REACH * SCALE) by (nonlinear_arith)
        requires
            n == x.raw * c.raw,
            -TURN_REACH <= x.raw <= TURN_REACH,
            -SCALE <= c.raw <= SCALE,
            TURN_REACH >= 0,
            SCALE >= 0,
    ;
    lemma_rounding_remainder(n);
    let q = x.mul_spec(c).raw as int;
    assert(-TURN_REACH <= q <= TURN_REACH) by (nonlinear_arith)
        requires
            -SCALE < n - q * SCALE < SCALE,
            -(TURN_REACH * SCALE) <= n <= TURN_REACH * SCALE,
            SCALE > 0,
    ;
}

/// Turning a point by an angle whose cosine and sine are given keeps the
/// square of its distance from the origin, `d`, within
/// `d * (2 * SCALE + 1) / (SCALE * SCALE) + 8 * (|x| + |y| + 1)` in squared
/// raw units, where the squares of the cosine and the sine add up to one
/// within two billionths. For a point a meter from the origin this keeps the
/// distance within six billionths.
pub proof fn lemma_turning_keeps_distance(p: Vector2D, cosine: Fixed, sine: Fixed)
    requires
        -TURN_REACH <= p.x.raw <= TURN_REACH,
        -TURN_REACH <= p.y.raw <= TURN_REACH,
        -SCALE <= cosine.raw <= SCALE,
        -SCALE <= sine.raw <= SCALE,
        nearly_unit(sine, cosine),
    ensures
        ({
            let turned = rotated(p, cosine, sine);
            let change = squared_distance(turned) - squared_distance(p);
            let bound = squared_distance(p) * (2 * SCALE + 1) + 8 * (SCALE * SCALE) * (magnitude(
                p.x.raw as int,
            ) + magnitude(p.y.raw as int) + 1);
            -bound <= (SCALE * SCALE) * change <= bound
        }),
{
    let x = p.x.raw as int;
    let y = p.y.raw as int;
    let c = cosine.raw as int;
    let s = sine.raw as int;
    lemma_turned_part(p.x, cosine);
    lemma_turned_part(p.y, sine);
    lemma_turned_part(p.x, sine);
    lemma_turned_part(p.y, cosine);
    let turned = rotated(p, cosine, sine);
    let rx = turned.x.raw as int;
    let ry = turned.y.raw as int;
    let ex = x * c - y * s;
    let ey = x * s + y * c;
    let d1 = ex - SCALE * rx;
    let d2 = ey - SCALE * ry;
    assert(-2 * SCALE < d1 < 2 * SCALE);
    assert(-2 * SCALE < d2 < 2 * SCALE);
    let n = x * x + y * y;
    let units = c * c + s * s;
    let eta = units - SCALE * SCALE;
    let xc = x * c;
    let ys = y * s;
    let xs = x * s;
    let yc = y * c;
    let xx = x * x;
    let yy = y * y;
    let cc = c * c;
    let ss = s * s;
    assert(ex * ex == xc * xc - 2 * (xc * ys) + ys * ys) by (nonlinear_arith)
        requires
            ex == xc - ys,
    ;
    assert(ey * ey == xs * xs + 2 * (xs * yc) + yc * yc) by (nonlinear_arith)
        requires
            ey == xs + yc,
    ;
    assert(xc * ys == xs * yc) by (nonlinear_arith)
        requires
            xc == x * c,
            ys == y * s,
            xs == x * s,
            yc == y * c,
    ;
    assert(xc * xc == xx * cc) by (nonlinear_arith)
        requires
            xc == x * c,
            xx == x * x,
            cc == c * c,
    ;
    assert(ys * ys == yy * ss) by (nonlinear_arith)
        requires
            ys == y * s,
            yy == y * y,
            ss == s * s,
    ;
    assert(xs * xs == xx * ss) by (nonlinear_arith)
        requires
            xs == x * s,
            xx == x * x,
            ss == s * s,
    ;
    assert(yc * yc == yy * cc) by (nonlinear_arith)
        requires
            yc == y * c,
            yy == y * y,
            cc == c * c,
    ;
    assert(n * units == xx * cc + xx * ss + yy * cc + yy * ss) by (nonlinear_arith)
        requires
            n == xx + yy,
            units == cc + ss,
    ;
    assert(ex * ex + ey * ey == n * units);
    let big = rx * rx + ry * ry;
    let sr_x = SCALE * rx;
    let sr_y = SCALE * ry;
    assert(sr_x * sr_x + sr_y * sr_y == (SCALE * SCALE) * big) by (nonlinear_arith)
        requires
            sr_x == SCALE * rx,
            sr_y == SCALE * ry,
            big == rx * rx + ry * ry,
    ;
    assert(sr_x * sr_x == ex * ex - 2 * (ex * d1) + d1 * d1) by (nonlinear_arith)
        requires
            sr_x == ex - d1,
    ;
    assert(sr_y * sr_y == ey * ey - 2 * (ey * d2) + d2 * d2) by (nonlinear_arith)
        requires
            sr_y == ey - d2,
    ;
    assert(n * units == n * (SCALE * SCALE) + n * eta) by (nonlinear_arith)
        requires
            eta == units - SCALE * SCALE,
    ;
    let ax = magnitude(x);
    let ay = magnitude(y);
    let reach = (ax + ay) * SCALE;
    assert(-reach <= ex <= reach && -reach <= ey <= reach) by (nonlinear_arith)
        requires
            ex == x * c - y * s,
            ey == x * s + y * c,
            reach == (ax + ay) * SCALE,
            -ax <= x <= ax,
            -ay <= y <= ay,
            -SCALE <= c <= SCALE,
            -SCALE <= s <= SCALE,
    ;
    let cap = 2 * SCALE * reach;
    assert(-cap <= ex * d1 <= cap && -cap <= ey * d2 <= cap) by (nonlinear_arith)
        requires
            cap == 2 * SCALE * reach,
            -reach <= ex <= reach,
            -reach <= ey <= reach,
            -2 * SCALE < d1 < 2 * SCALE,
            -2 * SCALE < d2 < 2 * SCALE,
            reach >= 0,
    ;
    assert(0 <= d1 * d1 <= 4 * (SCALE * SCALE) && 0 <= d2 * d2 <= 4 * (SCALE * SCALE))
        by (nonlinear_arith)
        requires
            -2 * SCALE < d1 < 2 * SCALE,
            -2 * SCALE < d2 < 2 * SCALE,
    ;
    assert(n >= 0) by (nonlinear_arith)
        requires
            n == x * x + y * y,
    ;
    assert(-(n * (2 * SCALE + 1)) <= n * eta <= n * (2 * SCALE + 1)) by (nonlinear_arith)
        requires
            n >= 0,
            -(2 * SCALE + 1) <= eta <= 2 * SCALE + 1,
    ;
    assert(cap == 2 * (SCALE * SCALE) * (ax + ay)) by (nonlinear_arith)
        requires
            cap == 2 * SCALE * reach,
            reach == (ax + ay) * SCALE,
    ;
    assert(8 * (SCALE * SCALE) * (ax + ay + 1) == 4 * cap + 8 * (SCALE * SCALE))
        by (nonlinear_arith)
        requires
            cap == 2 * (SCALE * SCALE) * (ax + ay),
    ;
    let change = big - n;
    assert((SCALE * SCALE) * change == (SCALE * SCALE) * big - (SCALE * SCALE) * n)
        by (nonlinear_arith)
        requires
            change == big - n,
    ;
    assert(n * (SCALE * SCALE) == (SCALE * SCALE) * n) by (nonlinear_arith);
}

/// Turning a point by any angle keeps its distance from the origin, within
/// what `lemma_turning_keeps_distance` states.
pub proof fn lemma_turning_by_an_angle(p: Vector2D, angle: Fixed)
    requires
        -TURN_REACH <= p.x.raw <= TURN_REACH,
        -TURN_REACH <= p.y.raw <= TURN_REACH,
    ensures
        ({
            let turned = rotated(p, cos_spec(angle), sin_spec(angle));
            let change = squared_distance(turned) - squared_distance(p);
            let bound = squared_distance(p) * (2 * SCALE + 1) + 8 * (SCALE * SCALE) * (magnitude(
                p.x.raw as int,
            ) + magnitude(p.y.raw as int) + 1);
            -bound <= (SCALE * SCALE) * change <= bound
        }),
{
    lemma_unit_range(angle);
    lemma_squares_of_sine_and_cosine(angle);
    lemma_turning_keeps_distance(p, cos_spec(angle), sin_spec(angle));
}

} // verus!
