//! A normalized vector or quaternion has length one, as far as nine decimal
//! places allow, and a normalized vector points where the vector did.
use crate::basic_structs::{Quaternion, Vector2D, FINE_NORM_LIMIT, NORM_EPSILON, SCALE_SQUARED};
use crate::fixed::{
    div_toward_zero, floor_sqrt, lemma_division, lemma_floor_sqrt_exists, lemma_root_at_least,
    magnitude, saturate, SCALE,
};
use vstd::prelude::*;

verus! {

/// The factor by which a component is multiplied before it is divided by
/// `unit_root`.
pub open spec fn unit_factor(norm_squared: int) -> int {
    if norm_squared <= FINE_NORM_LIMIT {
        SCALE_SQUARED as int
    } else {
        SCALE as int
    }
}

/// The root by which a component is divided: the length of the vector, to
/// eighteen decimal places up to `FINE_NORM_LIMIT` and to nine beyond.
pub open spec fn unit_root(norm_squared: int) -> int {
    if norm_squared <= FINE_NORM_LIMIT {
        floor_sqrt(norm_squared * SCALE_SQUARED)
    } else {
        floor_sqrt(norm_squared)
    }
}

/// The root and the factor of a vector that is not zero: the root is at least
/// one, and the squared length times the squared factor lies between the
/// squares of the root and of its successor, times one squared.
proof fn lemma_unit_root(norm_squared: int)
    requires
        norm_squared >= 1,
    ensures
        ({
            let r = unit_root(norm_squared);
            let m = unit_factor(norm_squared);
            &&& r >= SCALE
            &&& m > 0
            &&& (SCALE * SCALE) * (r * r) <= (m * m) * norm_squared
            &&& (m * m) * norm_squared < (SCALE * SCALE) * ((r + 1) * (r + 1))
        }),
{
    let r = unit_root(norm_squared);
    let m = unit_factor(norm_squared);
    let s2 = SCALE * SCALE;
    assert(s2 == SCALE_SQUARED) by (nonlinear_arith)
        requires
            s2 == SCALE * SCALE,
            SCALE == 1_000_000_000,
            SCALE_SQUARED == 1_000_000_000_000_000_000,
    ;
    if norm_squared <= FINE_NORM_LIMIT {
        let v = norm_squared * SCALE_SQUARED;
        assert(SCALE * SCALE <= v) by (nonlinear_arith)
            requires
                v == norm_squared * s2,
                s2 == SCALE * SCALE,
                norm_squared >= 1,
                s2 >= 0,
        ;
        lemma_root_at_least(v, SCALE as int);
        lemma_floor_sqrt_exists(v);
        assert((m * m) * norm_squared == s2 * v) by (nonlinear_arith)
            requires
                m == s2,
                v == norm_squared * s2,
        ;
        assert(s2 * (r * r) <= s2 * v && s2 * v < s2 * ((r + 1) * (r + 1))) by (nonlinear_arith)
            requires
                r * r <= v,
                v < (r + 1) * (r + 1),
                s2 > 0,
        ;
    } else {
        assert(SCALE * SCALE <= norm_squared);
        lemma_root_at_least(norm_squared, SCALE as int);
        lemma_floor_sqrt_exists(norm_squared);
        assert(m * m == s2);
        assert(s2 * (r * r) <= s2 * norm_squared && s2 * norm_squared < s2 * ((r + 1) * (r + 1)))
            by (nonlinear_arith)
            requires
                r * r <= norm_squared,
                norm_squared < (r + 1) * (r + 1),
                s2 > 0,
        ;
    }
}

/// The square of a quotient rounded toward zero, times the squared divisor,
/// does not exceed the squared dividend, which stays below the same with the
/// quotient's magnitude raised by one.
proof fn lemma_quotient_squares(a: int, r: int)
    requires
        r > 0,
    ensures
        ({
            let q = div_toward_zero(a, r);
            &&& (r * r) * (q * q) <= a * a
            &&& a * a < (r * r) * (q * q + 2 * magnitude(q) + 1)
        }),
{
    let q = div_toward_zero(a, r);
    lemma_division(a, r);
    let aq = magnitude(q);
    let aa = magnitude(a);
    assert(r * aq <= aa < r * aq + r) by (nonlinear_arith)
        requires
            r > 0,
            r * aq <= aa,
            -r < a - r * q < r,
            aq == if q < 0 {
                -q
            } else {
                q
            },
            aa == if a < 0 {
                -a
            } else {
                a
            },
    ;
    assert(aq * aq == q * q && aa * aa == a * a) by (nonlinear_arith)
        requires
            aq == q || aq == -q,
            aa == a || aa == -a,
    ;
    let lo = r * aq;
    let hi = r * aq + r;
    assert(lo * lo <= aa * aa && aa * aa < hi * hi) by (nonlinear_arith)
        requires
            0 <= lo <= aa,
            aa < hi,
            0 <= aa,
    ;
    assert(lo * lo == (r * r) * (aq * aq)) by (nonlinear_arith)
        requires
            lo == r * aq,
    ;
    assert(hi * hi == (r * r) * (aq * aq + 2 * aq + 1)) by (nonlinear_arith)
        requires
            hi == r * aq + r,
    ;
}

/// Squares of components that add up to less than `s * s * (r + 1) * (r + 1)`
/// when multiplied by `r * r`, for a root `r` of at least `s`, add up to at
/// most `s * s + 2 * s`.
proof fn lemma_unit_upper(total: int, squares: int, r: int, s: int)
    requires
        0 < s <= r,
        (r * r) * squares <= total,
        total < (s * s) * ((r + 1) * (r + 1)),
    ensures
        squares <= s * s + 2 * s,
{
    if squares >= s * s + 2 * s + 1 {
        let u = r * (s + 1);
        let v = s * (r + 1);
        assert(u >= v && v >= 0) by (nonlinear_arith)
            requires
                u == r * (s + 1),
                v == s * (r + 1),
                0 < s <= r,
        ;
        assert(u * u >= v * v) by (nonlinear_arith)
            requires
                u >= v,
                v >= 0,
        ;
        assert(u * u == (r * r) * (s * s + 2 * s + 1)) by (nonlinear_arith)
            requires
                u == r * (s + 1),
        ;
        assert(v * v == (s * s) * ((r + 1) * (r + 1))) by (nonlinear_arith)
            requires
                v == s * (r + 1),
        ;
        assert((r * r) * squares >= (r * r) * (s * s + 2 * s + 1)) by (nonlinear_arith)
            requires
                squares >= s * s + 2 * s + 1,
        ;
        assert(false);
    }
}

/// A number whose square is at most `s * s + 2 * s` is at most `s` in magnitude.
proof fn lemma_component_bound(q: int, s: int)
    requires
        0 < s,
        q * q <= s * s + 2 * s,
    ensures
        -s <= q <= s,
{
    assert(-s <= q <= s) by (nonlinear_arith)
        requires
            0 < s,
            q * q <= s * s + 2 * s,
    ;
}

/// Squares of components that, with twice the magnitudes `spread` and the
/// number `count` of components added and multiplied by `r * r`, exceed
/// `s * s * r * r`, exceed `s * s - 2 * spread - count`.
proof fn lemma_unit_lower(total: int, squares: int, spread: int, count: int, r: int, s: int)
    requires
        0 < r,
        (s * s) * (r * r) <= total,
        total < (r * r) * (squares + 2 * spread + count),
    ensures
        squares + 2 * spread + count > s * s,
{
    assert(squares + 2 * spread + count > s * s) by (nonlinear_arith)
        requires
            0 < r,
            (s * s) * (r * r) < (r * r) * (squares + 2 * spread + count),
    ;
}

/// A normalized vector has length one within rounding, as `is_unit` has it:
/// within three billionths. Each component keeps its sign, and is the
/// component of the vector times `unit_factor`, divided by `unit_root`.
pub proof fn lemma_normalized_is_unit(v: Vector2D)
    requires
        v.length_spec().raw > 0,
    ensures
        ({
            let u = v.normalize_spec();
            &&& u.is_unit()
            &&& -SCALE <= u.x.raw <= SCALE
            &&& -SCALE <= u.y.raw <= SCALE
            &&& v.x.raw >= 0 ==> u.x.raw >= 0
            &&& v.x.raw <= 0 ==> u.x.raw <= 0
            &&& v.y.raw >= 0 ==> u.y.raw >= 0
            &&& v.y.raw <= 0 ==> u.y.raw <= 0
            &&& u.x.raw == div_toward_zero(
                v.x.raw * unit_factor(v.norm_squared_spec()),
                unit_root(v.norm_squared_spec()),
            )
            &&& u.y.raw == div_toward_zero(
                v.y.raw * unit_factor(v.norm_squared_spec()),
                unit_root(v.norm_squared_spec()),
            )
            &&& unit_root(v.norm_squared_spec()) >= SCALE
        }),
{
    let n2 = v.norm_squared_spec();
    assert(n2 >= 0) by (nonlinear_arith)
        requires
            n2 == v.x.raw * v.x.raw + v.y.raw * v.y.raw,
    ;
    lemma_floor_sqrt_exists(n2);
    assert(n2 >= 1) by (nonlinear_arith)
        requires
            n2 >= 0,
            floor_sqrt(n2) > 0,
            floor_sqrt(n2) * floor_sqrt(n2) <= n2,
    ;
    lemma_unit_root(n2);
    let r = unit_root(n2);
    let m = unit_factor(n2);
    let s = SCALE as int;
    let ax = v.x.raw * m;
    let ay = v.y.raw * m;
    let qx = div_toward_zero(ax, r);
    let qy = div_toward_zero(ay, r);
    lemma_quotient_squares(ax, r);
    lemma_quotient_squares(ay, r);
    lemma_division(ax, r);
    lemma_division(ay, r);
    let total = ax * ax + ay * ay;
    assert(total == (m * m) * n2) by (nonlinear_arith)
        requires
            total == ax * ax + ay * ay,
            ax == v.x.raw * m,
            ay == v.y.raw * m,
            n2 == v.x.raw * v.x.raw + v.y.raw * v.y.raw,
    ;
    let squares = qx * qx + qy * qy;
    assert((r * r) * squares == (r * r) * (qx * qx) + (r * r) * (qy * qy)) by (nonlinear_arith)
        requires
            squares == qx * qx + qy * qy,
    ;
    lemma_unit_upper(total, squares, r, s);
    assert(qx * qx >= 0 && qy * qy >= 0) by (nonlinear_arith);
    lemma_component_bound(qx, s);
    lemma_component_bound(qy, s);
    let spread = magnitude(qx) + magnitude(qy);
    assert((r * r) * (squares + 2 * spread + 2) == (r * r) * (qx * qx + 2 * magnitude(qx) + 1) + (r
        * r) * (qy * qy + 2 * magnitude(qy) + 1)) by (nonlinear_arith)
        requires
            squares == qx * qx + qy * qy,
            spread == magnitude(qx) + magnitude(qy),
    ;
    lemma_unit_lower(total, squares, spread, 2, r, s);
    assert(v.normalize_spec().x.raw == qx);
    assert(v.normalize_spec().y.raw == qy);
    assert(v.x.raw >= 0 ==> ax >= 0) by (nonlinear_arith)
        requires
            ax == v.x.raw * m,
            m > 0,
    ;
    assert(v.x.raw <= 0 ==> ax <= 0) by (nonlinear_arith)
        requires
            ax == v.x.raw * m,
            m > 0,
    ;
    assert(v.y.raw >= 0 ==> ay >= 0) by (nonlinear_arith)
        requires
            ay == v.y.raw * m,
            m > 0,
    ;
    assert(v.y.raw <= 0 ==> ay <= 0) by (nonlinear_arith)
        requires
            ay == v.y.raw * m,
            m > 0,
    ;
}

/// A normalized vector points where the vector points: the cross product of
/// the two, in raw units, is at most the sum of the magnitudes of the
/// vector's components, which is what rounding the two components can turn
/// the direction by.
pub proof fn lemma_normalized_is_parallel(v: Vector2D)
    requires
        v.length_spec().raw > 0,
    ensures
        ({
            let u = v.normalize_spec();
            let cross = u.x.raw * v.y.raw - u.y.raw * v.x.raw;
            -(magnitude(v.x.raw as int) + magnitude(v.y.raw as int)) <= cross <= magnitude(
                v.x.raw as int,
            ) + magnitude(v.y.raw as int)
        }),
{
    lemma_normalized_is_unit(v);
    let n2 = v.norm_squared_spec();
    let r = unit_root(n2);
    let m = unit_factor(n2);
    let cx = v.x.raw as int;
    let cy = v.y.raw as int;
    let qx = v.normalize_spec().x.raw as int;
    let qy = v.normalize_spec().y.raw as int;
    lemma_division(cx * m, r);
    lemma_division(cy * m, r);
    let px = cx * m - r * qx;
    let py = cy * m - r * qy;
    let cross = qx * cy - qy * cx;
    assert(r * cross == py * cx - px * cy) by (nonlinear_arith)
        requires
            px == cx * m - r * qx,
            py == cy * m - r * qy,
            cross == qx * cy - qy * cx,
    ;
    let bound = magnitude(cx) + magnitude(cy);
    assert(-(r * magnitude(cx)) <= py * cx <= r * magnitude(cx)) by (nonlinear_arith)
        requires
            -r < py < r,
            magnitude(cx) == if cx < 0 {
                -cx
            } else {
                cx
            },
    ;
    assert(-(r * magnitude(cy)) <= px * cy <= r * magnitude(cy)) by (nonlinear_arith)
        requires
            -r < px < r,
            magnitude(cy) == if cy < 0 {
                -cy
            } else {
                cy
            },
    ;
    assert(r * bound == r * magnitude(cx) + r * magnitude(cy)) by (nonlinear_arith)
        requires
            bound == magnitude(cx) + magnitude(cy),
    ;
    assert(-bound <= cross <= bound) by (nonlinear_arith)
        requires
            r > 0,
            -(r * bound) <= r * cross <= r * bound,
    ;
}

/// A normalized quaternion has magnitude one within rounding, as `is_unit`
/// has it: within five billionths. No component exceeds one in magnitude.
pub proof fn lemma_normalized_quaternion_is_unit(q: Quaternion)
    requires
        q.magnitude_spec().raw >= NORM_EPSILON,
    ensures
        ({
            let u = q.normalize_spec();
            &&& u.is_unit()
            &&& -SCALE <= u.w.raw <= SCALE
            &&& -SCALE <= u.x.raw <= SCALE
            &&& -SCALE <= u.y.raw <= SCALE
            &&& -SCALE <= u.z.raw <= SCALE
        }),
{
    let n2 = q.norm_squared_spec();
    let cw = saturate(q.w.raw as int);
    let cx = saturate(q.x.raw as int);
    let cy = saturate(q.y.raw as int);
    let cz = saturate(q.z.raw as int);
    assert(n2 >= 0) by (nonlinear_arith)
        requires
            n2 == cw * cw + cx * cx + cy * cy + cz * cz,
    ;
    lemma_floor_sqrt_exists(n2);
    assert(n2 >= 1) by (nonlinear_arith)
        requires
            n2 >= 0,
            floor_sqrt(n2) > 0,
            floor_sqrt(n2) * floor_sqrt(n2) <= n2,
    ;
    lemma_unit_root(n2);
    let r = unit_root(n2);
    let m = unit_factor(n2);
    let s = SCALE as int;
    let aw = cw * m;
    let ax = cx * m;
    let ay = cy * m;
    let az = cz * m;
    let qw = div_toward_zero(aw, r);
    let qx = div_toward_zero(ax, r);
    let qy = div_toward_zero(ay, r);
    let qz = div_toward_zero(az, r);
    lemma_quotient_squares(aw, r);
    lemma_quotient_squares(ax, r);
    lemma_quotient_squares(ay, r);
    lemma_quotient_squares(az, r);
    let total = aw * aw + ax * ax + ay * ay + az * az;
    let mm = m * m;
    assert(aw * aw == mm * (cw * cw)) by (nonlinear_arith)
        requires
            aw == cw * m,
            mm == m * m,
    ;
    assert(ax * ax == mm * (cx * cx)) by (nonlinear_arith)
        requires
            ax == cx * m,
            mm == m * m,
    ;
    assert(ay * ay == mm * (cy * cy)) by (nonlinear_arith)
        requires
            ay == cy * m,
            mm == m * m,
    ;
    assert(az * az == mm * (cz * cz)) by (nonlinear_arith)
        requires
            az == cz * m,
            mm == m * m,
    ;
    assert(mm * n2 == mm * (cw * cw) + mm * (cx * cx) + mm * (cy * cy) + mm * (cz * cz))
        by (nonlinear_arith)
        requires
            n2 == cw * cw + cx * cx + cy * cy + cz * cz,
    ;
    assert(total == (m * m) * n2);
    let squares = qw * qw + qx * qx + qy * qy + qz * qz;
    assert((r * r) * squares == (r * r) * (qw * qw) + (r * r) * (qx * qx) + (r * r) * (qy * qy)
        + (r * r) * (qz * qz)) by (nonlinear_arith)
        requires
            squares == qw * qw + qx * qx + qy * qy + qz * qz,
    ;
    lemma_unit_upper(total, squares, r, s);
    assert(qw * qw >= 0 && qx * qx >= 0 && qy * qy >= 0 && qz * qz >= 0) by (nonlinear_arith);
    lemma_component_bound(qw, s);
    lemma_component_bound(qx, s);
    lemma_component_bound(qy, s);
    lemma_component_bound(qz, s);
    let spread = magnitude(qw) + magnitude(qx) + magnitude(qy) + magnitude(qz);
    assert((r * r) * (squares + 2 * spread + 4) == (r * r) * (qw * qw + 2 * magnitude(qw) + 1) + (r
        * r) * (qx * qx + 2 * magnitude(qx) + 1) + (r * r) * (qy * qy + 2 * magnitude(qy) + 1) + (r
        * r) * (qz * qz + 2 * magnitude(qz) + 1)) by (nonlinear_arith)
        requires
            squares == qw * qw + qx * qx + qy * qy + qz * qz,
            spread == magnitude(qw) + magnitude(qx) + magnitude(qy) + magnitude(qz),
    ;
    lemma_unit_lower(total, squares, spread, 4, r, s);
    assert(q.normalize_spec().w.raw == qw);
    assert(q.normalize_spec().x.raw == qx);
    assert(q.normalize_spec().y.raw == qy);
    assert(q.normalize_spec().z.raw == qz);
}

} // verus!
