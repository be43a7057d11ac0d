//! Sine and cosine of a fixed-point angle in radians.
//!
//! The magnitude of the angle is first reduced to one turn, then folded into
//! the first eighth of a turn. There the sine is evaluated by the leading
//! terms of its power series in nested form, and the cosine is the root of
//! one less the square of that sine, so that the squares of the two add up to
//! one within two billionths. Both results lie between minus one and one, the
//! sine is odd and the cosine even, and the values at zero, at a quarter turn
//! and at half a turn are exact.
use crate::fixed::{
    in_range, is_floor_sqrt, lemma_floor_sqrt_is, lemma_rounding_remainder, lemma_sqrt_brackets, magnitude, Fixed,
    SCALE,
};
use vstd::prelude::*;

verus! {

/// A full turn, in raw units.
pub const TWO_PI: i64 = 6_283_185_307;

/// Half a turn, in raw units.
pub const PI: i64 = 3_141_592_654;

/// A quarter of a turn, in raw units.
pub const HALF_PI: i64 = 1_570_796_327;

/// An eighth of a turn, in raw units.
pub const QUARTER_PI: i64 = 785_398_163;

/// One nesting level of a power series: `1 - (a2 / k) * inner`.
pub open spec fn series_step(a2: Fixed, k: int, inner: Fixed) -> Fixed {
    Fixed { raw: SCALE }.sub_spec(a2.div_int_spec(k).mul_spec(inner))
}

/// `a - a^3/3! + a^5/5! - ... - a^11/11!`, limited to `[0, 1]`.
pub open spec fn sin_series(a: Fixed) -> Fixed {
    let one = Fixed { raw: SCALE };
    let a2 = a.mul_spec(a);
    a.mul_spec(
        series_step(
            a2,
            6,
            series_step(a2, 20, series_step(a2, 42, series_step(a2, 72, series_step(a2, 110, one)))),
        ),
    ).clamp_spec(Fixed { raw: 0 }, one)
}

/// The cosine of an angle in the first quadrant whose sine is `s`: the square
/// root of `1 - s * s`.
pub open spec fn cos_from_sin(s: Fixed) -> Fixed {
    Fixed { raw: SCALE }.sub_spec(s.mul_spec(s)).sqrt_spec()
}

/// Sine (`want_sin`) or cosine of an angle between zero and a quarter turn.
pub open spec fn first_quadrant(a: Fixed, want_sin: bool) -> Fixed {
    if a.raw <= QUARTER_PI {
        if want_sin {
            sin_series(a)
        } else {
            cos_from_sin(sin_series(a))
        }
    } else {
        let b = Fixed { raw: (HALF_PI - a.raw) as i64 };
        if want_sin {
            cos_from_sin(sin_series(b))
        } else {
            sin_series(b)
        }
    }
}

/// Sine (`want_sin`) or cosine of an angle between zero and a full turn.
pub open spec fn one_turn(r: int, want_sin: bool) -> Fixed {
    if r <= HALF_PI {
        first_quadrant(Fixed { raw: r as i64 }, want_sin)
    } else if r <= PI {
        let v = first_quadrant(Fixed { raw: (PI - r) as i64 }, want_sin);
        if want_sin {
            v
        } else {
            v.neg_spec()
        }
    } else if r <= PI + HALF_PI {
        first_quadrant(Fixed { raw: (r - PI) as i64 }, want_sin).neg_spec()
    } else {
        let v = first_quadrant(Fixed { raw: (TWO_PI - r) as i64 }, want_sin);
        if want_sin {
            v.neg_spec()
        } else {
            v
        }
    }
}

/// The magnitude of an angle, reduced to one turn.
pub open spec fn reduced_magnitude(angle: Fixed) -> int {
    magnitude(angle.raw as int) % (TWO_PI as int)
}

/// Sine of an angle in radians: that of its magnitude, with the sign of the angle.
pub open spec fn sin_spec(angle: Fixed) -> Fixed {
    let v = one_turn(reduced_magnitude(angle), true);
    if angle.raw < 0 {
        v.neg_spec()
    } else {
        v
    }
}

/// Cosine of an angle in radians: that of its magnitude.
pub open spec fn cos_spec(angle: Fixed) -> Fixed {
    one_turn(reduced_magnitude(angle), false)
}

/// The squares of a sine between zero and one and of the cosine that goes
/// with it add up to one within two billionths; the cosine lies between zero
/// and one as well.
pub proof fn lemma_squares_add_up(s: Fixed)
    requires
        0 <= s.raw <= SCALE,
    ensures
        ({
            let c = cos_from_sin(s);
            &&& 0 <= c.raw <= SCALE
            &&& SCALE * SCALE - 2 * SCALE - 1 < s.raw * s.raw + c.raw * c.raw < SCALE * SCALE
                + SCALE
        }),
{
    let n = s.raw * s.raw;
    assert(0 <= n <= SCALE * SCALE) by (nonlinear_arith)
        requires
            n == s.raw * s.raw,
            0 <= s.raw <= SCALE,
    ;
    lemma_rounding_remainder(n);
    let f = s.mul_spec(s).raw as int;
    assert(0 <= f <= SCALE) by (nonlinear_arith)
        requires
            0 <= n - f * SCALE < SCALE,
            0 <= n <= SCALE * SCALE,
            SCALE > 0,
    ;
    let x = Fixed { raw: SCALE }.sub_spec(s.mul_spec(s));
    assert(x.raw == SCALE - f);
    lemma_sqrt_brackets(x);
    let c = cos_from_sin(s).raw as int;
    assert(x.raw * SCALE == SCALE * SCALE - f * SCALE) by (nonlinear_arith)
        requires
            x.raw == SCALE - f,
    ;
    assert(c <= SCALE) by (nonlinear_arith)
        requires
            0 <= c,
            c * c <= SCALE * SCALE,
            SCALE > 0,
    ;
    assert((c + 1) * (c + 1) == c * c + 2 * c + 1) by (nonlinear_arith);
}

/// The series of the sine stays within `[0, 1]`, and so does the cosine that
/// goes with it.
pub proof fn lemma_series_range(a: Fixed)
    ensures
        0 <= sin_series(a).raw <= SCALE,
        0 <= cos_from_sin(sin_series(a)).raw <= SCALE,
{
    lemma_squares_add_up(sin_series(a));
}

/// In the first quadrant sine and cosine lie within `[0, 1]`.
pub proof fn lemma_first_quadrant_range(a: Fixed, want_sin: bool)
    ensures
        0 <= first_quadrant(a, want_sin).raw <= SCALE,
{
    lemma_series_range(a);
    lemma_series_range(Fixed { raw: (HALF_PI - a.raw) as i64 });
}

/// Within one turn sine and cosine lie within `[-1, 1]`.
pub proof fn lemma_one_turn_range(r: int, want_sin: bool)
    ensures
        -SCALE <= one_turn(r, want_sin).raw <= SCALE,
{
    lemma_first_quadrant_range(Fixed { raw: r as i64 }, want_sin);
    lemma_first_quadrant_range(Fixed { raw: (PI - r) as i64 }, want_sin);
    lemma_first_quadrant_range(Fixed { raw: (r - PI) as i64 }, want_sin);
    lemma_first_quadrant_range(Fixed { raw: (TWO_PI - r) as i64 }, want_sin);
}

/// Sine and cosine never leave `[-1, 1]`.
pub proof fn lemma_unit_range(angle: Fixed)
    ensures
        -SCALE <= sin_spec(angle).raw <= SCALE,
        -SCALE <= cos_spec(angle).raw <= SCALE,
{
    lemma_one_turn_range(reduced_magnitude(angle), true);
    lemma_one_turn_range(reduced_magnitude(angle), false);
}

/// Whether the squares of a sine and a cosine add up to one within two
/// billionths: in raw units, to more than `SCALE * SCALE - 2 * SCALE - 1` and
/// less than `SCALE * SCALE + SCALE`.
pub open spec fn nearly_unit(sine: Fixed, cosine: Fixed) -> bool {
    SCALE * SCALE - 2 * SCALE - 1 < sine.raw * sine.raw + cosine.raw * cosine.raw < SCALE * SCALE
        + SCALE
}

/// Changing the sign of a sine or of a cosine between minus one and one
/// leaves the sum of their squares as it is.
proof fn lemma_signs_keep_squares(sine: Fixed, cosine: Fixed)
    requires
        -SCALE <= sine.raw <= SCALE,
        -SCALE <= cosine.raw <= SCALE,
        nearly_unit(sine, cosine),
    ensures
        nearly_unit(sine.neg_spec(), cosine),
        nearly_unit(sine, cosine.neg_spec()),
        nearly_unit(sine.neg_spec(), cosine.neg_spec()),
{
    let s = sine.raw as int;
    let c = cosine.raw as int;
    assert((-s) * (-s) == s * s && (-c) * (-c) == c * c) by (nonlinear_arith);
}

/// In the first quadrant the squares of sine and cosine add up to one within
/// two billionths.
proof fn lemma_first_quadrant_squares(a: Fixed)
    ensures
        nearly_unit(first_quadrant(a, true), first_quadrant(a, false)),
{
    let b = Fixed { raw: (HALF_PI - a.raw) as i64 };
    lemma_squares_add_up(sin_series(a));
    lemma_squares_add_up(sin_series(b));
}

/// Within one turn the squares of sine and cosine add up to one within two
/// billionths.
proof fn lemma_one_turn_squares(r: int)
    ensures
        nearly_unit(one_turn(r, true), one_turn(r, false)),
{
    let a = if r <= HALF_PI {
        Fixed { raw: r as i64 }
    } else if r <= PI {
        Fixed { raw: (PI - r) as i64 }
    } else if r <= PI + HALF_PI {
        Fixed { raw: (r - PI) as i64 }
    } else {
        Fixed { raw: (TWO_PI - r) as i64 }
    };
    lemma_first_quadrant_squares(a);
    lemma_first_quadrant_range(a, true);
    lemma_first_quadrant_range(a, false);
    lemma_signs_keep_squares(first_quadrant(a, true), first_quadrant(a, false));
}

/// The squares of the sine and of the cosine of any angle add up to one
/// within two billionths, so that turning a vector by an angle keeps its
/// length as far as nine decimal places allow.
pub proof fn lemma_squares_of_sine_and_cosine(angle: Fixed)
    ensures
        nearly_unit(sin_spec(angle), cos_spec(angle)),
{
    let r = reduced_magnitude(angle);
    lemma_one_turn_squares(r);
    lemma_one_turn_range(r, true);
    lemma_one_turn_range(r, false);
    lemma_signs_keep_squares(one_turn(r, true), one_turn(r, false));
}

/// The sine is odd and the cosine even: turning the other way by the same
/// angle changes the sign of the sine and leaves the cosine as it is.
pub proof fn lemma_sine_odd_cosine_even(angle: Fixed)
    requires
        in_range(angle),
    ensures
        sin_spec(angle.neg_spec()) == sin_spec(angle).neg_spec(),
        cos_spec(angle.neg_spec()) == cos_spec(angle),
{
    lemma_one_turn_range(reduced_magnitude(angle), true);
    if angle.raw == 0 {
        lemma_at_zero();
    }
}

/// The product of two numbers between zero and one lies between zero and
/// the first of them.
proof fn lemma_fraction_of(a: Fixed, h: Fixed)
    requires
        0 <= a.raw <= SCALE,
        0 <= h.raw <= SCALE,
    ensures
        0 <= a.mul_spec(h).raw <= a.raw,
{
    let n = a.raw * h.raw;
    assert(0 <= n <= a.raw * SCALE) by (nonlinear_arith)
        requires
            n == a.raw * h.raw,
            0 <= a.raw,
            0 <= h.raw <= SCALE,
    ;
    assert(n / (SCALE as int) <= a.raw) by (nonlinear_arith)
        requires
            0 <= n <= a.raw * SCALE,
            SCALE > 0,
    ;
}

/// One nesting level of a series keeps a value between zero and one there,
/// for an argument between zero and one.
proof fn lemma_series_step_range(a2: Fixed, k: int, inner: Fixed)
    requires
        0 <= a2.raw <= SCALE,
        k >= 1,
        0 <= inner.raw <= SCALE,
    ensures
        0 <= series_step(a2, k, inner).raw <= SCALE,
{
    let part = a2.div_int_spec(k);
    assert(0 <= (a2.raw as int) / k <= a2.raw) by (nonlinear_arith)
        requires
            0 <= a2.raw,
            k >= 1,
    ;
    lemma_fraction_of(part, inner);
}

/// The sine of a small angle is at most the angle: for an angle between zero
/// and an eighth of a turn, `0 <= sin(a) <= a`.
pub proof fn lemma_sine_of_small_angle(angle: Fixed)
    requires
        0 <= angle.raw <= QUARTER_PI,
    ensures
        0 <= sin_spec(angle).raw <= angle.raw,
{
    let one = Fixed { raw: SCALE };
    let a2 = angle.mul_spec(angle);
    lemma_fraction_of(angle, angle);
    let s5 = series_step(a2, 110, one);
    lemma_series_step_range(a2, 110, one);
    let s4 = series_step(a2, 72, s5);
    lemma_series_step_range(a2, 72, s5);
    let s3 = series_step(a2, 42, s4);
    lemma_series_step_range(a2, 42, s4);
    let s2 = series_step(a2, 20, s3);
    lemma_series_step_range(a2, 20, s3);
    let s1 = series_step(a2, 6, s2);
    lemma_series_step_range(a2, 6, s2);
    lemma_fraction_of(angle, s1);
    assert(sin_series(angle) == angle.mul_spec(s1));
    assert(reduced_magnitude(angle) == angle.raw);
}

/// At zero the series of the sine is exactly zero and the cosine that goes
/// with it exactly one.
pub proof fn lemma_series_at_zero()
    ensures
        sin_series(Fixed { raw: 0 }) == (Fixed { raw: 0 }),
        cos_from_sin(Fixed { raw: 0 }) == (Fixed { raw: SCALE }),
{
    assert(is_floor_sqrt(SCALE as int, SCALE * SCALE)) by (nonlinear_arith)
        requires
            SCALE == 1_000_000_000,
            is_floor_sqrt(SCALE as int, SCALE * SCALE) == (0 <= SCALE && SCALE * SCALE <= SCALE
                * SCALE < (SCALE + 1) * (SCALE + 1)),
    ;
    lemma_floor_sqrt_is(SCALE as int, SCALE * SCALE);
    let zero = Fixed { raw: 0 };
    let one = Fixed { raw: SCALE };
    assert(zero.mul_spec(zero) == zero);
    assert forall|k: int, inner: Fixed| k > 0 implies #[trigger] series_step(zero, k, inner)
        == one by {
        assert(zero.div_int_spec(k) == zero);
        assert(zero.raw * inner.raw == 0);
        assert(zero.mul_spec(inner) == zero);
    }
    assert(zero.raw * one.raw == 0);
}

/// At the angle zero the sine is exactly zero and the cosine exactly one.
pub proof fn lemma_at_zero()
    ensures
        sin_spec(Fixed { raw: 0 }) == (Fixed { raw: 0 }),
        cos_spec(Fixed { raw: 0 }) == (Fixed { raw: SCALE }),
{
    lemma_series_at_zero();
}

/// At a quarter turn the sine is exactly one and the cosine exactly zero; at
/// half a turn the sine is exactly zero and the cosine exactly minus one.
pub proof fn lemma_at_quarter_turns()
    ensures
        sin_spec(Fixed { raw: HALF_PI }) == (Fixed { raw: SCALE }),
        cos_spec(Fixed { raw: HALF_PI }) == (Fixed { raw: 0 }),
        sin_spec(Fixed { raw: PI }) == (Fixed { raw: 0 }),
        cos_spec(Fixed { raw: PI }) == Fixed::of(-SCALE),
{
    lemma_series_at_zero();
    assert(reduced_magnitude(Fixed { raw: HALF_PI }) == HALF_PI);
    assert(reduced_magnitude(Fixed { raw: PI }) == PI);
    let zero = Fixed { raw: 0 };
    assert(first_quadrant(Fixed { raw: HALF_PI }, true) == cos_from_sin(sin_series(zero)));
    assert(first_quadrant(Fixed { raw: HALF_PI }, false) == sin_series(zero));
    assert(first_quadrant(zero, true) == sin_series(zero));
    assert(first_quadrant(zero, false) == cos_from_sin(sin_series(zero)));
}

fn step(a2: Fixed, k: i64, inner: Fixed) -> (r: Fixed)
    ensures
        r == series_step(a2, k as int, inner),
{
    Fixed::one().sub(a2.div_int(k).mul(inner))
}

fn sin_of_small(a: Fixed) -> (r: Fixed)
    ensures
        r == sin_series(a),
{
    let one = Fixed::one();
    let a2 = a.mul(a);
    a.mul(step(a2, 6, step(a2, 20, step(a2, 42, step(a2, 72, step(a2, 110, one)))))).clamp(
        Fixed::zero(),
        one,
    )
}

fn cos_from(s: Fixed) -> (r: Fixed)
    ensures
        r == cos_from_sin(s),
{
    Fixed::one().sub(s.mul(s)).sqrt()
}

fn in_first_quadrant(a: i64, want_sin: bool) -> (r: Fixed)
    requires
        0 <= a <= HALF_PI,
    ensures
        r == first_quadrant(Fixed { raw: a }, want_sin),
{
    if a <= QUARTER_PI {
        let s = sin_of_small(Fixed { raw: a });
        if want_sin {
            s
        } else {
            cos_from(s)
        }
    } else {
        let s = sin_of_small(Fixed { raw: HALF_PI - a });
        if want_sin {
            cos_from(s)
        } else {
            s
        }
    }
}

/// The angle reduced to one turn: the remainder of its raw value by `TWO_PI`,
/// never negative.
fn reduce(angle: Fixed) -> (r: i64)
    ensures
        r == reduced_magnitude(angle),
        0 <= r < TWO_PI,
{
    if angle.raw >= 0 {
        angle.raw % TWO_PI
    } else {
        let m: i128 = (-(angle.raw as i128)) % (TWO_PI as i128);
        m as i64
    }
}

fn within_turn(r: i64, want_sin: bool) -> (v: Fixed)
    requires
        0 <= r < TWO_PI,
    ensures
        v == one_turn(r as int, want_sin),
{
    if r <= HALF_PI {
        in_first_quadrant(r, want_sin)
    } else if r <= PI {
        let v = in_first_quadrant(PI - r, want_sin);
        if want_sin {
            v
        } else {
            v.neg()
        }
    } else if r <= PI + HALF_PI {
        in_first_quadrant(r - PI, want_sin).neg()
    } else {
        let v = in_first_quadrant(TWO_PI - r, want_sin);
        if want_sin {
            v.neg()
        } else {
            v
        }
    }
}

/// Sine of an angle given in radians.
pub fn sin(angle: Fixed) -> (r: Fixed)
    ensures
        r == sin_spec(angle),
        -SCALE <= r.raw <= SCALE,
{
    proof {
        lemma_unit_range(angle);
    }
    let v = within_turn(reduce(angle), true);
    if angle.raw < 0 {
        v.neg()
    } else {
        v
    }
}

/// Cosine of an angle given in radians.
pub fn cos(angle: Fixed) -> (r: Fixed)
    ensures
        r == cos_spec(angle),
        -SCALE <= r.raw <= SCALE,
{
    proof {
        lemma_unit_range(angle);
    }
    within_turn(reduce(angle), false)
}

} // verus!
