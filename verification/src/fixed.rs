//! Signed decimal fixed-point numbers.
//!
//! A [`Fixed`] stores a quantity as a whole number of billionths: the value
//! `1.5` is the raw integer `1_500_000_000`. Every operation is total. A result
//! that does not fit is clamped to the largest or smallest representable value,
//! and a quotient or product that is not a whole number of billionths is
//! rounded toward zero.
use vstd::prelude::*;

verus! {

/// Raw units per whole unit.
pub const SCALE: i64 = 1_000_000_000;

/// Largest raw value an operation produces; the smallest is its negation.
pub const RAW_MAX: i64 = 0x7fff_ffff_ffff_ffff;

/// Largest magnitude of a difference of two raw values.
pub const SPAN: i128 = 0xffff_ffff_ffff_ffff;

/// Absolute value of an integer.
pub open spec fn magnitude(v: int) -> int {
    if v < 0 {
        -v
    } else {
        v
    }
}

/// Clamps an integer to the symmetric raw range `[-RAW_MAX, RAW_MAX]`.
pub open spec fn saturate(v: int) -> int {
    if v > RAW_MAX {
        RAW_MAX as int
    } else if v < -RAW_MAX {
        -(RAW_MAX as int)
    } else {
        v
    }
}

/// Quotient of `n` by `d` rounded toward zero; `0` when `d` is zero.
pub open spec fn div_toward_zero(n: int, d: int) -> int {
    if d > 0 {
        if n >= 0 {
            n / d
        } else {
            -((-n) / d)
        }
    } else if d < 0 {
        if n >= 0 {
            -(n / (-d))
        } else {
            (-n) / (-d)
        }
    } else {
        0
    }
}

/// `n` is the largest integer whose square does not exceed `v`.
pub open spec fn is_floor_sqrt(n: int, v: int) -> bool {
    0 <= n && n * n <= v < (n + 1) * (n + 1)
}

/// Integer square root: the largest `n` with `n * n <= v`, and `0` for negative `v`.
pub open spec fn floor_sqrt(v: int) -> int {
    if v < 0 {
        0
    } else {
        choose|n: int| is_floor_sqrt(n, v)
    }
}

/// The product of two magnitudes is the magnitude of the product.
pub proof fn lemma_magnitude_mul(a: int, b: int)
    ensures
        magnitude(a) * magnitude(b) == magnitude(a * b),
        (a * b >= 0) == (a == 0 || b == 0 || (a > 0) == (b > 0)),
{
    assert(magnitude(a) * magnitude(b) == magnitude(a * b)) by (nonlinear_arith)
        requires
            magnitude(a) == if a < 0 { -a } else { a },
            magnitude(b) == if b < 0 { -b } else { b },
            magnitude(a * b) == if a * b < 0 { -(a * b) } else { a * b },
    ;
    assert((a * b >= 0) == (a == 0 || b == 0 || (a > 0) == (b > 0))) by (nonlinear_arith);
}

/// A product of two bounded natural numbers is bounded by the product of the bounds.
pub proof fn lemma_mul_bounded(a: int, b: int, ma: int, mb: int)
    requires
        0 <= a <= ma,
        0 <= b <= mb,
    ensures
        0 <= a * b <= ma * mb,
{
    assert(0 <= a * b <= ma * mb) by (nonlinear_arith)
        requires
            0 <= a <= ma,
            0 <= b <= mb,
    ;
}

/// At most one integer is the floor square root of a given value.
pub proof fn lemma_floor_sqrt_unique(n: int, m: int, v: int)
    requires
        is_floor_sqrt(n, v),
        is_floor_sqrt(m, v),
    ensures
        n == m,
{
    if n < m {
        assert((n + 1) * (n + 1) <= m * m) by (nonlinear_arith)
            requires
                0 <= n,
                n + 1 <= m,
        ;
    } else if m < n {
        assert((m + 1) * (m + 1) <= n * n) by (nonlinear_arith)
            requires
                0 <= m,
                m + 1 <= n,
        ;
    }
}

/// Any witness of `is_floor_sqrt` is the value of `floor_sqrt`.
pub proof fn lemma_floor_sqrt_is(n: int, v: int)
    requires
        is_floor_sqrt(n, v),
    ensures
        floor_sqrt(v) == n,
{
    assert(v >= 0) by (nonlinear_arith)
        requires
            n * n <= v,
    ;
    let m = choose|m: int| is_floor_sqrt(m, v);
    lemma_floor_sqrt_unique(n, m, v);
}

/// Clamps a wide integer to the raw range.
pub fn saturate_wide(v: i128) -> (r: i64)
    ensures
        r == saturate(v as int),
{
    if v > RAW_MAX as i128 {
        RAW_MAX
    } else if v < -(RAW_MAX as i128) {
        -RAW_MAX
    } else {
        v as i64
    }
}

/// The quotient of two wide integers, rounded toward zero and clamped; zero
/// where the divisor is zero.
pub fn div_wide(n: i128, d: i128) -> (r: i64)
    requires
        -0x7fff_ffff_ffff_ffff_ffff_ffff_ffff_ffff <= n,
        -0x7fff_ffff_ffff_ffff_ffff_ffff_ffff_ffff <= d,
    ensures
        r == saturate(div_toward_zero(n as int, d as int)),
{
    if d == 0 {
        return 0;
    }
    let un: u128 = if n < 0 {
        (-n) as u128
    } else {
        n as u128
    };
    let ud: u128 = if d < 0 {
        (-d) as u128
    } else {
        d as u128
    };
    let q = un / ud;
    if (n >= 0) == (d > 0) {
        if q > RAW_MAX as u128 {
            RAW_MAX
        } else {
            q as i64
        }
    } else {
        if q > RAW_MAX as u128 {
            -RAW_MAX
        } else {
            -(q as i64)
        }
    }
}

/// Magnitude of a wide integer that lies within `[-SPAN, SPAN]`.
fn magnitude_wide(v: i128) -> (r: u128)
    requires
        -SPAN <= v <= SPAN,
    ensures
        r == magnitude(v as int),
{
    if v < 0 {
        (-v) as u128
    } else {
        v as u128
    }
}

/// Magnitude of `a * b / c`, rounded down.
fn mul_div_magnitude(a: i128, b: i128, c: i128) -> (q: u128)
    requires
        -SPAN <= a <= SPAN,
        -SPAN <= b <= SPAN,
        -SPAN <= c <= SPAN,
        c != 0,
    ensures
        q == magnitude(a * b) / magnitude(c as int),
        magnitude(a as int) <= magnitude(c as int) ==> q <= magnitude(b as int),
{
    let ua = magnitude_wide(a);
    let ub = magnitude_wide(b);
    let uc = magnitude_wide(c);
    proof {
        lemma_magnitude_mul(a as int, b as int);
        lemma_mul_bounded(ua as int, ub as int, SPAN as int, SPAN as int);
        assert(SPAN * SPAN < 0x1_0000_0000_0000_0000_0000_0000_0000_0000) by (nonlinear_arith)
            requires
                SPAN == 0xffff_ffff_ffff_ffff,
        ;
        if ua <= uc {
            assert((ua * ub) / (uc as int) <= ub) by (nonlinear_arith)
                requires
                    0 <= ua <= uc,
                    0 < uc,
                    0 <= ub,
            ;
        }
    }
    (ua * ub) / uc
}

/// Whether `a * b / c` is not negative, for a nonzero `c`.
fn mul_div_sign(a: i128, b: i128, c: i128) -> (r: bool)
    requires
        c != 0,
    ensures
        r == ((a * b >= 0) == (c > 0)),
{
    proof {
        lemma_magnitude_mul(a as int, b as int);
    }
    (a == 0 || b == 0 || (a > 0) == (b > 0)) == (c > 0)
}

/// The product `a * b` as its magnitude and whether it is negative.
pub fn signed_product(a: i128, b: i128) -> (r: (bool, u128))
    requires
        -SPAN <= a <= SPAN,
        -SPAN <= b <= SPAN,
    ensures
        r.0 == (a * b < 0),
        r.1 == magnitude(a * b),
{
    let ua = magnitude_wide(a);
    let ub = magnitude_wide(b);
    proof {
        lemma_magnitude_mul(a as int, b as int);
        lemma_mul_bounded(ua as int, ub as int, SPAN as int, SPAN as int);
        assert(SPAN * SPAN < 0x1_0000_0000_0000_0000_0000_0000_0000_0000) by (nonlinear_arith)
            requires
                SPAN == 0xffff_ffff_ffff_ffff,
        ;
    }
    let negative = !(a == 0 || b == 0 || (a > 0) == (b > 0));
    (negative, ua * ub)
}

/// Computes `a * b / c` with a single rounding toward zero and clamps the result;
/// the result is `0` when `c` is zero.
pub fn mul_div_wide(a: i128, b: i128, c: i128) -> (r: i64)
    requires
        -SPAN <= a <= SPAN,
        -SPAN <= b <= SPAN,
        -SPAN <= c <= SPAN,
    ensures
        r == saturate(div_toward_zero(a * b, c as int)),
{
    if c == 0 {
        return 0;
    }
    let q = mul_div_magnitude(a, b, c);
    if mul_div_sign(a, b, c) {
        if q > RAW_MAX as u128 {
            RAW_MAX
        } else {
            q as i64
        }
    } else {
        if q > RAW_MAX as u128 {
            -RAW_MAX
        } else {
            -(q as i64)
        }
    }
}

/// Computes `a * b / c` with a single rounding toward zero, where `a` is no
/// larger in magnitude than `c`, so that the result is no larger than `b`;
/// the result is `0` when `c` is zero.
pub fn mul_div_exact(a: i128, b: i128, c: i128) -> (r: i128)
    requires
        -SPAN <= a <= SPAN,
        -SPAN <= b <= SPAN,
        -SPAN <= c <= SPAN,
        magnitude(a as int) <= magnitude(c as int),
    ensures
        r == div_toward_zero(a * b, c as int),
        -SPAN <= r <= SPAN,
{
    if c == 0 {
        return 0;
    }
    let q = mul_div_magnitude(a, b, c);
    if mul_div_sign(a, b, c) {
        q as i128
    } else {
        -(q as i128)
    }
}

/// Largest integer whose square does not exceed `v`.
pub fn isqrt_wide(v: u128) -> (r: u64)
    ensures
        r == floor_sqrt(v as int),
{
    let mut lo: u128 = 0;
    let mut hi: u128 = 0xffff_ffff_ffff_ffff;
    proof {
        assert(0xffff_ffff_ffff_ffffu128 + 1 == 0x1_0000_0000_0000_0000u128);
        assert(0x1_0000_0000_0000_0000int * 0x1_0000_0000_0000_0000int
            == 0x1_0000_0000_0000_0000_0000_0000_0000_0000int) by (nonlinear_arith);
    }
    while lo < hi
        invariant
            lo <= hi <= 0xffff_ffff_ffff_ffff,
            lo * lo <= v,
            v < (hi + 1) * (hi + 1),
        decreases hi - lo,
    {
        let mid: u128 = lo + (hi - lo + 1) / 2;
        proof {
            lemma_mul_bounded(mid as int, mid as int, SPAN as int, SPAN as int);
            assert(SPAN * SPAN < 0x1_0000_0000_0000_0000_0000_0000_0000_0000) by (nonlinear_arith)
            requires
                SPAN == 0xffff_ffff_ffff_ffff,
        ;
        }
        if mid * mid <= v {
            lo = mid;
        } else {
            hi = mid - 1;
        }
    }
    proof {
        lemma_floor_sqrt_is(lo as int, v as int);
    }
    lo as u64
}

/// A fixed-point number: `raw` billionths.
#[derive(Clone, Copy, PartialEq, Eq, Debug, Structural)]
pub struct Fixed {
    pub raw: i64,
}

impl View for Fixed {
    type V = int;

    /// The number of billionths the value stands for.
    open spec fn view(&self) -> int {
        self.raw as int
    }
}

impl Fixed {
    /// The fixed-point number nearest to `v` billionths that is representable.
    pub open spec fn of(v: int) -> Fixed {
        Fixed { raw: saturate(v) as i64 }
    }

    /// Sum, clamped.
    pub open spec fn add_spec(self, rhs: Fixed) -> Fixed {
        Fixed::of(self.raw + rhs.raw)
    }

    /// Difference, clamped.
    pub open spec fn sub_spec(self, rhs: Fixed) -> Fixed {
        Fixed::of(self.raw - rhs.raw)
    }

    /// Negation, clamped.
    pub open spec fn neg_spec(self) -> Fixed {
        Fixed::of(-self.raw)
    }

    /// Absolute value, clamped.
    pub open spec fn abs_spec(self) -> Fixed {
        Fixed::of(magnitude(self.raw as int))
    }

    /// Product, rounded toward zero and clamped.
    pub open spec fn mul_spec(self, rhs: Fixed) -> Fixed {
        Fixed::of(div_toward_zero(self.raw * rhs.raw, SCALE as int))
    }

    /// Quotient, rounded toward zero and clamped; zero when `rhs` is zero.
    pub open spec fn div_spec(self, rhs: Fixed) -> Fixed {
        Fixed::of(div_toward_zero(self.raw * SCALE, rhs.raw as int))
    }

    /// `self * num / den` with one rounding toward zero, clamped; zero when `den` is zero.
    pub open spec fn mul_div_spec(self, num: Fixed, den: Fixed) -> Fixed {
        Fixed::of(div_toward_zero(self.raw * num.raw, den.raw as int))
    }

    /// Product with a whole number, clamped.
    pub open spec fn mul_int_spec(self, n: int) -> Fixed {
        Fixed::of(self.raw * n)
    }

    /// Quotient by a whole number, rounded toward zero; zero when `n` is zero.
    pub open spec fn div_int_spec(self, n: int) -> Fixed {
        Fixed::of(div_toward_zero(self.raw as int, n))
    }

    /// Square root, rounded down; zero for a negative value.
    pub open spec fn sqrt_spec(self) -> Fixed {
        Fixed { raw: floor_sqrt(self.raw * SCALE) as i64 }
    }

    /// The smaller of two values.
    pub open spec fn min_spec(self, rhs: Fixed) -> Fixed {
        if rhs.raw < self.raw {
            rhs
        } else {
            self
        }
    }

    /// The larger of two values.
    pub open spec fn max_spec(self, rhs: Fixed) -> Fixed {
        if rhs.raw > self.raw {
            rhs
        } else {
            self
        }
    }

    /// `self` limited to `[lo, hi]`; `lo` wins when the bounds cross.
    pub open spec fn clamp_spec(self, lo: Fixed, hi: Fixed) -> Fixed {
        if self.raw < lo.raw {
            lo
        } else if self.raw > hi.raw {
            hi
        } else {
            self
        }
    }

    /// The number with the given count of billionths.
    pub fn from_raw(raw: i64) -> (r: Fixed)
        ensures
            r.raw == raw,
    {
        Fixed { raw }
    }

    /// The whole number `n`, clamped.
    pub fn from_int(n: i64) -> (r: Fixed)
        ensures
            r == Fixed::of(n * SCALE),
    {
        proof {
            assert(div_toward_zero(n * SCALE, 1) == n * SCALE);
        }
        Fixed { raw: mul_div_wide(n as i128, SCALE as i128, 1) }
    }

    /// Zero.
    pub fn zero() -> (r: Fixed)
        ensures
            r.raw == 0,
    {
        Fixed { raw: 0 }
    }

    /// One.
    pub fn one() -> (r: Fixed)
        ensures
            r.raw == SCALE,
    {
        Fixed { raw: SCALE }
    }

    /// `self + rhs`, clamped.
    pub fn add(self, rhs: Fixed) -> (r: Fixed)
        ensures
            r == self.add_spec(rhs),
    {
        Fixed { raw: saturate_wide(self.raw as i128 + rhs.raw as i128) }
    }

    /// `self - rhs`, clamped.
    pub fn sub(self, rhs: Fixed) -> (r: Fixed)
        ensures
            r == self.sub_spec(rhs),
    {
        Fixed { raw: saturate_wide(self.raw as i128 - rhs.raw as i128) }
    }

    /// `-self`, clamped.
    pub fn neg(self) -> (r: Fixed)
        ensures
            r == self.neg_spec(),
    {
        Fixed { raw: saturate_wide(-(self.raw as i128)) }
    }

    /// The absolute value, clamped.
    pub fn abs(self) -> (r: Fixed)
        ensures
            r == self.abs_spec(),
    {
        if self.raw < 0 {
            Fixed { raw: saturate_wide(-(self.raw as i128)) }
        } else {
            self
        }
    }

    /// `self * rhs`, rounded toward zero and clamped.
    pub fn mul(self, rhs: Fixed) -> (r: Fixed)
        ensures
            r == self.mul_spec(rhs),
    {
        Fixed { raw: mul_div_wide(self.raw as i128, rhs.raw as i128, SCALE as i128) }
    }

    /// `self / rhs`, rounded toward zero and clamped; zero when `rhs` is zero.
    pub fn div(self, rhs: Fixed) -> (r: Fixed)
        ensures
            r == self.div_spec(rhs),
    {
        Fixed { raw: mul_div_wide(self.raw as i128, SCALE as i128, rhs.raw as i128) }
    }

    /// `self * num / den` with one rounding toward zero, clamped; zero when `den` is zero.
    pub fn mul_div(self, num: Fixed, den: Fixed) -> (r: Fixed)
        ensures
            r == self.mul_div_spec(num, den),
    {
        Fixed { raw: mul_div_wide(self.raw as i128, num.raw as i128, den.raw as i128) }
    }

    /// `self * n` for a whole number `n`, clamped.
    pub fn mul_int(self, n: i64) -> (r: Fixed)
        ensures
            r == self.mul_int_spec(n as int),
    {
        proof {
            assert(div_toward_zero(self.raw * n, 1) == self.raw * n);
        }
        Fixed { raw: mul_div_wide(self.raw as i128, n as i128, 1) }
    }

    /// `self / n` for a whole number `n`, rounded toward zero; zero when `n` is zero.
    pub fn div_int(self, n: i64) -> (r: Fixed)
        ensures
            r == self.div_int_spec(n as int),
    {
        proof {
            assert(self.raw * 1 == self.raw);
        }
        Fixed { raw: mul_div_wide(self.raw as i128, 1, n as i128) }
    }

    /// Quotient by a count, rounded toward zero; zero when the count is zero.
    pub fn div_count(self, n: usize) -> (r: Fixed)
        ensures
            r == self.div_int_spec(n as int),
    {
        proof {
            assert(self.raw * 1 == self.raw);
        }
        Fixed { raw: mul_div_wide(self.raw as i128, 1, n as i128) }
    }

    /// The square root, rounded down; zero for a negative value.
    pub fn sqrt(self) -> (r: Fixed)
        ensures
            r == self.sqrt_spec(),
    {
        if self.raw <= 0 {
            proof {
                if self.raw == 0 {
                    lemma_floor_sqrt_is(0, 0);
                }
                assert(self.raw * SCALE <= 0) by (nonlinear_arith)
                    requires
                        self.raw <= 0,
                        SCALE > 0,
                ;
            }
            Fixed { raw: 0 }
        } else {
            proof {
                lemma_mul_bounded(self.raw as int, SCALE as int, RAW_MAX as int, SCALE as int);
            }
            let wide: u128 = (self.raw as u128) * (SCALE as u128);
            let root = isqrt_wide(wide);
            proof {
                lemma_sqrt_fits(root as int, wide as int);
            }
            Fixed { raw: root as i64 }
        }
    }

    /// The smaller of two values.
    pub fn min(self, rhs: Fixed) -> (r: Fixed)
        ensures
            r == self.min_spec(rhs),
    {
        if rhs.raw < self.raw {
            rhs
        } else {
            self
        }
    }

    /// The larger of two values.
    pub fn max(self, rhs: Fixed) -> (r: Fixed)
        ensures
            r == self.max_spec(rhs),
    {
        if rhs.raw > self.raw {
            rhs
        } else {
            self
        }
    }

    /// `self` limited to `[lo, hi]`; `lo` wins when the bounds cross.
    pub fn clamp(self, lo: Fixed, hi: Fixed) -> (r: Fixed)
        ensures
            r == self.clamp_spec(lo, hi),
    {
        if self.raw < lo.raw {
            lo
        } else if self.raw > hi.raw {
            hi
        } else {
            self
        }
    }
}

impl core::ops::Add for Fixed {
    type Output = Fixed;

    /// `self + rhs`, clamped.
    fn add(self, rhs: Fixed) -> (r: Fixed) {
        Fixed::add(self, rhs)
    }
}

impl vstd::std_specs::ops::AddSpecImpl for Fixed {
    open spec fn obeys_add_spec() -> bool {
        true
    }

    open spec fn add_req(self, rhs: Fixed) -> bool {
        true
    }

    open spec fn add_spec(self, rhs: Fixed) -> Fixed {
        Fixed::add_spec(self, rhs)
    }
}

impl core::ops::Sub for Fixed {
    type Output = Fixed;

    /// `self - rhs`, clamped.
    fn sub(self, rhs: Fixed) -> (r: Fixed) {
        Fixed::sub(self, rhs)
    }
}

impl vstd::std_specs::ops::SubSpecImpl for Fixed {
    open spec fn obeys_sub_spec() -> bool {
        true
    }

    open spec fn sub_req(self, rhs: Fixed) -> bool {
        true
    }

    open spec fn sub_spec(self, rhs: Fixed) -> Fixed {
        Fixed::sub_spec(self, rhs)
    }
}

impl core::ops::Mul for Fixed {
    type Output = Fixed;

    /// `self * rhs`, rounded toward zero and clamped.
    fn mul(self, rhs: Fixed) -> (r: Fixed) {
        Fixed::mul(self, rhs)
    }
}

impl vstd::std_specs::ops::MulSpecImpl for Fixed {
    open spec fn obeys_mul_spec() -> bool {
        true
    }

    open spec fn mul_req(self, rhs: Fixed) -> bool {
        true
    }

    open spec fn mul_spec(self, rhs: Fixed) -> Fixed {
        Fixed::mul_spec(self, rhs)
    }
}

impl core::ops::Div for Fixed {
    type Output = Fixed;

    /// `self / rhs`, rounded toward zero and clamped; zero when `rhs` is zero.
    fn div(self, rhs: Fixed) -> (r: Fixed) {
        Fixed::div(self, rhs)
    }
}

impl vstd::std_specs::ops::DivSpecImpl for Fixed {
    open spec fn obeys_div_spec() -> bool {
        true
    }

    open spec fn div_req(self, rhs: Fixed) -> bool {
        true
    }

    open spec fn div_spec(self, rhs: Fixed) -> Fixed {
        Fixed::div_spec(self, rhs)
    }
}

impl core::ops::Neg for Fixed {
    type Output = Fixed;

    /// `-self`, clamped.
    fn neg(self) -> (r: Fixed) {
        Fixed::neg(self)
    }
}

impl vstd::std_specs::ops::NegSpecImpl for Fixed {
    open spec fn obeys_neg_spec() -> bool {
        true
    }

    open spec fn neg_req(self) -> bool {
        true
    }

    open spec fn neg_spec(self) -> Fixed {
        Fixed::neg_spec(self)
    }
}

/// The floor square root of a value below `2^94` is below `2^47`.
proof fn lemma_sqrt_fits(n: int, v: int)
    requires
        n == floor_sqrt(v),
        0 <= v <= RAW_MAX * SCALE,
    ensures
        0 <= n < 0x8000_0000_0000,
{
    lemma_floor_sqrt_exists(v);
    if n >= 0x8000_0000_0000 {
        assert(n * n >= 0x8000_0000_0000 * 0x8000_0000_0000) by (nonlinear_arith)
            requires
                n >= 0x8000_0000_0000,
        ;
        assert(RAW_MAX * SCALE < 0x8000_0000_0000 * 0x8000_0000_0000) by (nonlinear_arith)
            requires
                RAW_MAX == 0x7fff_ffff_ffff_ffff,
                SCALE == 1_000_000_000,
        ;
    }
}

/// Every natural number has a floor square root.
pub proof fn lemma_floor_sqrt_exists(v: int)
    requires
        v >= 0,
    ensures
        is_floor_sqrt(floor_sqrt(v), v),
    decreases v,
{
    if v == 0 {
        assert(is_floor_sqrt(0, 0));
    } else {
        lemma_floor_sqrt_exists(v - 1);
        let p = floor_sqrt(v - 1);
        if (p + 1) * (p + 1) <= v {
            assert((p + 1) * (p + 1) == v);
            assert(v < (p + 2) * (p + 2)) by (nonlinear_arith)
                requires
                    (p + 1) * (p + 1) == v,
                    p >= 0,
            ;
            assert(is_floor_sqrt(p + 1, v));
        } else {
            assert(p * p <= v);
            assert(is_floor_sqrt(p, v));
        }
    }
}

/// Whether a raw value lies in the range that results are clamped to.
pub open spec fn in_range(a: Fixed) -> bool {
    -RAW_MAX <= a.raw <= RAW_MAX
}

/// Every arithmetic result lies in the clamped range.
pub proof fn lemma_results_in_range(a: Fixed, b: Fixed)
    ensures
        in_range(a.add_spec(b)),
        in_range(a.sub_spec(b)),
        in_range(a.neg_spec()),
        in_range(a.abs_spec()),
        in_range(a.mul_spec(b)),
        in_range(a.div_spec(b)),
        a.abs_spec().raw >= 0,
{
}

/// Sums and products do not depend on the order of their operands.
pub proof fn lemma_commutative(a: Fixed, b: Fixed)
    ensures
        a.add_spec(b) == b.add_spec(a),
        a.mul_spec(b) == b.mul_spec(a),
{
    assert(a.raw * b.raw == b.raw * a.raw) by (nonlinear_arith);
}

/// Whether the sum of two numbers lies within the clamped range.
pub open spec fn sum_fits(a: Fixed, b: Fixed) -> bool {
    -RAW_MAX <= a.raw + b.raw <= RAW_MAX
}

/// Whether the product of two numbers lies within the clamped range.
pub open spec fn product_fits(a: Fixed, k: Fixed) -> bool {
    -RAW_MAX * SCALE <= a.raw * k.raw <= RAW_MAX * SCALE
}

/// Whether two numbers differ by at most one unit of the last place.
pub open spec fn within_one(x: Fixed, y: Fixed) -> bool {
    -1 <= x.raw - y.raw <= 1
}

/// Sums that stay within the clamped range may be grouped either way.
pub proof fn lemma_add_associative(a: Fixed, b: Fixed, c: Fixed)
    requires
        sum_fits(a, b),
        sum_fits(b, c),
    ensures
        a.add_spec(b).add_spec(c) == a.add_spec(b.add_spec(c)),
{
}

/// Zero is neutral for the sum, one for the product, of a number in range;
/// the negative of a number undoes it, and a difference is the sum with the negative.
pub proof fn lemma_neutral_and_inverse(a: Fixed, b: Fixed)
    requires
        in_range(a),
        in_range(b),
    ensures
        a.add_spec(Fixed { raw: 0 }) == a,
        a.mul_spec(Fixed { raw: SCALE }) == a,
        a.div_spec(Fixed { raw: SCALE }) == a,
        a.add_spec(a.neg_spec()) == (Fixed { raw: 0 }),
        a.neg_spec().neg_spec() == a,
        a.sub_spec(b) == a.add_spec(b.neg_spec()),
{
    assert(div_toward_zero(a.raw * SCALE, SCALE as int) == a.raw) by {
        lemma_exact_quotient(SCALE as int, a.raw as int);
        assert(a.raw * SCALE == SCALE * a.raw) by (nonlinear_arith);
    }
}

/// The negative of a product is the product with one factor negated: rounding
/// toward zero treats both signs alike.
pub proof fn lemma_mul_negated(a: Fixed, b: Fixed)
    requires
        in_range(a),
    ensures
        a.neg_spec().mul_spec(b) == a.mul_spec(b).neg_spec(),
{
    assert((-a.raw) * b.raw == -(a.raw * b.raw)) by (nonlinear_arith);
}

/// The sign of a product follows from the signs of its factors: it is not
/// negative where both factors have one sign, not positive where they differ,
/// and zero where a factor is zero.
pub proof fn lemma_mul_sign(a: Fixed, b: Fixed)
    ensures
        (a.raw >= 0 && b.raw >= 0) || (a.raw <= 0 && b.raw <= 0) ==> a.mul_spec(b).raw >= 0,
        (a.raw >= 0 && b.raw <= 0) || (a.raw <= 0 && b.raw >= 0) ==> a.mul_spec(b).raw <= 0,
        a.raw == 0 || b.raw == 0 ==> a.mul_spec(b).raw == 0,
{
    lemma_magnitude_mul(a.raw as int, b.raw as int);
    assert(a.raw == 0 || b.raw == 0 ==> a.raw * b.raw == 0) by (nonlinear_arith);
    assert((a.raw >= 0 && b.raw <= 0) || (a.raw <= 0 && b.raw >= 0) ==> a.raw * b.raw <= 0)
        by (nonlinear_arith);
    let n = a.raw * b.raw;
    if n >= 0 {
        assert(n / (SCALE as int) >= 0);
    } else {
        assert((-n) / (SCALE as int) >= 0);
    }
}

/// The sign of a quotient follows from the signs of its terms, and a quotient
/// of zero is zero.
pub proof fn lemma_div_sign(a: Fixed, b: Fixed)
    ensures
        (a.raw >= 0 && b.raw >= 0) || (a.raw <= 0 && b.raw <= 0) ==> a.div_spec(b).raw >= 0,
        (a.raw >= 0 && b.raw <= 0) || (a.raw <= 0 && b.raw >= 0) ==> a.div_spec(b).raw <= 0,
        a.raw == 0 ==> a.div_spec(b).raw == 0,
{
    let n = a.raw * SCALE;
    let d = b.raw as int;
    assert(a.raw >= 0 ==> n >= 0) by (nonlinear_arith)
        requires
            n == a.raw * SCALE,
            SCALE > 0,
    ;
    assert(a.raw <= 0 ==> n <= 0) by (nonlinear_arith)
        requires
            n == a.raw * SCALE,
            SCALE > 0,
    ;
    if d > 0 {
        if n >= 0 {
            assert(n / d >= 0) by (nonlinear_arith)
                requires
                    n >= 0,
                    d > 0,
            ;
            assert(n == 0 ==> n / d == 0) by (nonlinear_arith)
                requires
                    d > 0,
            ;
        } else {
            assert((-n) / d >= 0) by (nonlinear_arith)
                requires
                    n < 0,
                    d > 0,
            ;
        }
    } else if d < 0 {
        if n >= 0 {
            assert(n / (-d) >= 0) by (nonlinear_arith)
                requires
                    n >= 0,
                    d < 0,
            ;
            assert(n == 0 ==> n / (-d) == 0) by (nonlinear_arith)
                requires
                    d < 0,
            ;
        } else {
            assert((-n) / (-d) >= 0) by (nonlinear_arith)
                requires
                    n < 0,
                    d < 0,
            ;
        }
    }
}

/// A product distributes over a sum within one unit of the last place, where
/// the sum stays within the clamped range and no product is clamped.
pub proof fn lemma_mul_distributes_within_one(a: Fixed, b: Fixed, k: Fixed)
    requires
        sum_fits(a, b),
        product_fits(a, k),
        product_fits(b, k),
        product_fits(a.add_spec(b), k),
    ensures
        within_one(a.add_spec(b).mul_spec(k), a.mul_spec(k).add_spec(b.mul_spec(k))),
{
    let x = a.raw * k.raw;
    let y = b.raw * k.raw;
    assert((a.raw + b.raw) * k.raw == x + y) by (nonlinear_arith)
        requires
            x == a.raw * k.raw,
            y == b.raw * k.raw,
    ;
    lemma_rounding_remainder(x);
    lemma_rounding_remainder(y);
    lemma_rounding_remainder(x + y);
    let sum = a.mul_spec(k).raw + b.mul_spec(k).raw;
    assert(-1 <= a.add_spec(b).mul_spec(k).raw - sum <= 1);
    assert(-RAW_MAX <= sum <= RAW_MAX);
}

/// Rounding toward zero leaves a remainder of the sign of the number, smaller
/// than one unit; a number within the range of products is not clamped.
pub proof fn lemma_rounding_remainder(n: int)
    ensures
        n >= 0 ==> 0 <= n - div_toward_zero(n, SCALE as int) * SCALE < SCALE,
        n <= 0 ==> -SCALE < n - div_toward_zero(n, SCALE as int) * SCALE <= 0,
        -RAW_MAX * SCALE <= n <= RAW_MAX * SCALE ==> -RAW_MAX <= div_toward_zero(n, SCALE as int)
            <= RAW_MAX,
{
}

/// A multiple of a positive number divided by that number is the other factor.
pub proof fn lemma_exact_quotient(d: int, w: int)
    requires
        d > 0,
    ensures
        div_toward_zero(d * w, d) == w,
{
    if w >= 0 {
        assert(d * w >= 0 && (d * w) / d == w) by (nonlinear_arith)
            requires
                d > 0,
                w >= 0,
        ;
    } else {
        assert(d * w < 0 && (-(d * w)) / d == -w) by (nonlinear_arith)
            requires
                d > 0,
                w < 0,
        ;
    }
}

/// The square root of a number that is not negative is not negative, and its
/// square does not exceed the number by more than rounding allows: in raw
/// units, `root * root <= value * SCALE < (root + 1) * (root + 1)`.
pub proof fn lemma_sqrt_brackets(a: Fixed)
    requires
        a.raw >= 0,
    ensures
        is_floor_sqrt(a.sqrt_spec().raw as int, a.raw * SCALE),
{
    assert(a.raw * SCALE >= 0) by (nonlinear_arith)
        requires
            a.raw >= 0,
            SCALE > 0,
    ;
    lemma_floor_sqrt_exists(a.raw * SCALE);
    lemma_mul_bounded(a.raw as int, SCALE as int, RAW_MAX as int, SCALE as int);
    lemma_sqrt_fits(floor_sqrt(a.raw * SCALE), a.raw * SCALE);
}

/// A quotient rounded toward zero, times the divisor, differs from the
/// dividend by less than the divisor, and is no larger in magnitude.
pub proof fn lemma_division(n: int, d: int)
    requires
        d != 0,
    ensures
        -magnitude(d) < n - d * div_toward_zero(n, d) < magnitude(d),
        magnitude(d) * magnitude(div_toward_zero(n, d)) <= magnitude(n),
{
    let q = div_toward_zero(n, d);
    let an = magnitude(n);
    let ad = magnitude(d);
    let aq = an / ad;
    assert(0 <= an - ad * aq < ad && aq >= 0) by (nonlinear_arith)
        requires
            an >= 0,
            ad > 0,
            aq == an / ad,
    ;
    if (d > 0) == (n >= 0) {
        assert(q == aq);
        assert(d * q == if d > 0 {
            ad * aq
        } else {
            -(ad * aq)
        }) by (nonlinear_arith)
            requires
                q == aq,
                ad == if d > 0 {
                    d
                } else {
                    -d
                },
        ;
    } else {
        assert(q == -aq);
        assert(d * q == if d > 0 {
            -(ad * aq)
        } else {
            ad * aq
        }) by (nonlinear_arith)
            requires
                q == -aq,
                ad == if d > 0 {
                    d
                } else {
                    -d
                },
        ;
    }
    assert(magnitude(q) == aq);
}

/// The root of a number that is at least `s * s` is at least `s`.
pub proof fn lemma_root_at_least(v: int, s: int)
    requires
        0 <= s,
        s * s <= v,
    ensures
        floor_sqrt(v) >= s,
{
    assert(v >= 0) by (nonlinear_arith)
        requires
            s * s <= v,
    ;
    lemma_floor_sqrt_exists(v);
    let r = floor_sqrt(v);
    assert(r >= s) by (nonlinear_arith)
        requires
            0 <= r,
            0 <= s,
            s * s <= v,
            v < (r + 1) * (r + 1),
    ;
}

} // verus!
