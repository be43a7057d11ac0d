//! Vectors in the plane and in space, quaternions, and tensors, over fixed-point numbers.
use crate::fixed::{
    div_toward_zero, floor_sqrt, isqrt_wide, lemma_floor_sqrt_exists, lemma_mul_bounded,
    lemma_mul_distributes_within_one, mul_div_wide, product_fits, saturate, sum_fits, within_one,
    Fixed, RAW_MAX, SCALE,
};
use crate::norm_laws::{lemma_normalized_is_unit, lemma_normalized_quaternion_is_unit};
use vstd::prelude::*;

verus! {

/// The square of one, in raw units.
pub const SCALE_SQUARED: u64 = 1_000_000_000_000_000_000;

/// Largest sum of squared raw components whose root is taken to eighteen
/// decimal places: beyond it, that is from a length of about 18.4, the root
/// is taken to nine.
pub const FINE_NORM_LIMIT: u128 = 340_000_000_000_000_000_000;

/// The component `c` of a vector divided by the length of the vector, where
/// `norm_squared` is the exact sum of the squared raw components: `c` divided
/// by the root of that sum, rounded toward zero once. The root itself is
/// rounded down at eighteen decimal places up to `FINE_NORM_LIMIT` and at
/// nine beyond, so that short vectors lose nothing.
pub open spec fn unit_component(c: int, norm_squared: int) -> Fixed {
    if norm_squared <= FINE_NORM_LIMIT {
        Fixed::of(
            div_toward_zero(c * SCALE_SQUARED, floor_sqrt(norm_squared * SCALE_SQUARED)),
        )
    } else {
        Fixed::of(div_toward_zero(c * SCALE, floor_sqrt(norm_squared)))
    }
}

/// `c` divided by the root of `norm_squared`.
fn unit_component_of(c: i64, norm_squared: u128) -> (r: Fixed)
    ensures
        r == unit_component(c as int, norm_squared as int),
{
    if norm_squared <= FINE_NORM_LIMIT {
        proof {
            assert(norm_squared * SCALE_SQUARED <= 340_000_000_000_000_000_000_000_000_000_000_000_000)
                by (nonlinear_arith)
                requires
                    norm_squared <= 340_000_000_000_000_000_000,
                    SCALE_SQUARED == 1_000_000_000_000_000_000,
            ;
        }
        let root = isqrt_wide(norm_squared * (SCALE_SQUARED as u128));
        Fixed { raw: mul_div_wide(c as i128, SCALE_SQUARED as i128, root as i128) }
    } else {
        let root = isqrt_wide(norm_squared);
        Fixed { raw: mul_div_wide(c as i128, SCALE as i128, root as i128) }
    }
}

/// A point or displacement in the plane.
#[derive(Clone, Copy, PartialEq, Eq, Debug, Structural)]
pub struct Vector2D {
    pub x: Fixed,
    pub y: Fixed,
}

impl Vector2D {
    /// Component-wise sum.
    pub open spec fn add_spec(self, rhs: Vector2D) -> Vector2D {
        Vector2D { x: self.x.add_spec(rhs.x), y: self.y.add_spec(rhs.y) }
    }

    /// Component-wise difference.
    pub open spec fn sub_spec(self, rhs: Vector2D) -> Vector2D {
        Vector2D { x: self.x.sub_spec(rhs.x), y: self.y.sub_spec(rhs.y) }
    }

    /// Both components multiplied by `k`.
    pub open spec fn mul_spec(self, k: Fixed) -> Vector2D {
        Vector2D { x: self.x.mul_spec(k), y: self.y.mul_spec(k) }
    }

    /// Both components divided by `k`.
    pub open spec fn div_spec(self, k: Fixed) -> Vector2D {
        Vector2D { x: self.x.div_spec(k), y: self.y.div_spec(k) }
    }

    /// Both components multiplied by `num` and divided by `den`, rounded once.
    pub open spec fn mul_div_spec(self, num: Fixed, den: Fixed) -> Vector2D {
        Vector2D { x: self.x.mul_div_spec(num, den), y: self.y.mul_div_spec(num, den) }
    }

    /// Scalar product `x1 * x2 + y1 * y2`.
    pub open spec fn dot_spec(self, rhs: Vector2D) -> Fixed {
        self.x.mul_spec(rhs.x).add_spec(self.y.mul_spec(rhs.y))
    }

    /// Scalar cross product `x1 * y2 - x2 * y1`.
    pub open spec fn cross_spec(self, rhs: Vector2D) -> Fixed {
        self.x.mul_spec(rhs.y).sub_spec(rhs.x.mul_spec(self.y))
    }

    /// Squared length `x * x + y * y`.
    pub open spec fn length_squared_spec(self) -> Fixed {
        self.x.mul_spec(self.x).add_spec(self.y.mul_spec(self.y))
    }

    /// Euclidean length: the square root of the exact sum of the squared raw
    /// components, rounded down and clamped.
    pub open spec fn length_spec(self) -> Fixed {
        Fixed::of(floor_sqrt(self.x.raw * self.x.raw + self.y.raw * self.y.raw))
    }

    /// The exact sum of the squared raw components.
    pub open spec fn norm_squared_spec(self) -> int {
        self.x.raw * self.x.raw + self.y.raw * self.y.raw
    }

    /// Whether the vector has length one within rounding: the sum of its
    /// squared raw components exceeds one squared by at most `2 * SCALE` and
    /// falls short of it by less than `4 * SCALE + 2`, so that its length
    /// lies within three billionths of one.
    pub open spec fn is_unit(self) -> bool {
        SCALE * SCALE - 4 * SCALE - 2 < self.norm_squared_spec() <= SCALE * SCALE + 2 * SCALE
    }

    /// The vector divided by its length, each component by `unit_component`;
    /// a vector of length zero is left as it is.
    pub open spec fn normalize_spec(self) -> Vector2D {
        if self.length_spec().raw > 0 {
            Vector2D {
                x: unit_component(self.x.raw as int, self.norm_squared_spec()),
                y: unit_component(self.y.raw as int, self.norm_squared_spec()),
            }
        } else {
            self
        }
    }

    pub fn new(x: Fixed, y: Fixed) -> (r: Vector2D)
        ensures
            r.x == x,
            r.y == y,
    {
        Vector2D { x, y }
    }

    pub fn add(self, rhs: Vector2D) -> (r: Vector2D)
        ensures
            r == self.add_spec(rhs),
    {
        Vector2D { x: self.x.add(rhs.x), y: self.y.add(rhs.y) }
    }

    pub fn sub(self, rhs: Vector2D) -> (r: Vector2D)
        ensures
            r == self.sub_spec(rhs),
    {
        Vector2D { x: self.x.sub(rhs.x), y: self.y.sub(rhs.y) }
    }

    pub fn mul(self, k: Fixed) -> (r: Vector2D)
        ensures
            r == self.mul_spec(k),
    {
        Vector2D { x: self.x.mul(k), y: self.y.mul(k) }
    }

    pub fn div(self, k: Fixed) -> (r: Vector2D)
        ensures
            r == self.div_spec(k),
    {
        Vector2D { x: self.x.div(k), y: self.y.div(k) }
    }

    pub fn mul_div(self, num: Fixed, den: Fixed) -> (r: Vector2D)
        ensures
            r == self.mul_div_spec(num, den),
    {
        Vector2D { x: self.x.mul_div(num, den), y: self.y.mul_div(num, den) }
    }

    pub fn dot(self, rhs: Vector2D) -> (r: Fixed)
        ensures
            r == self.dot_spec(rhs),
    {
        self.x.mul(rhs.x).add(self.y.mul(rhs.y))
    }

    pub fn cross(self, rhs: Vector2D) -> (r: Fixed)
        ensures
            r == self.cross_spec(rhs),
    {
        self.x.mul(rhs.y).sub(rhs.x.mul(self.y))
    }

    pub fn length_squared(self) -> (r: Fixed)
        ensures
            r == self.length_squared_spec(),
    {
        self.x.mul(self.x).add(self.y.mul(self.y))
    }

    pub fn length(self) -> (r: Fixed)
        ensures
            r == self.length_spec(),
            r.raw >= 0,
    {
        let root = isqrt_wide(square_wide(self.x.raw) + square_wide(self.y.raw));
        proof {
            lemma_floor_sqrt_exists(self.x.raw * self.x.raw + self.y.raw * self.y.raw);
        }
        if root > RAW_MAX as u64 {
            Fixed { raw: RAW_MAX }
        } else {
            Fixed { raw: root as i64 }
        }
    }

    /// The vector of length one that points where this vector points; the
    /// zero vector is left as it is.
    pub fn normalize(self) -> (r: Vector2D)
        ensures
            r == self.normalize_spec(),
            self.length_spec().raw > 0 ==> r.is_unit(),
            self.length_spec().raw <= 0 ==> r == self,
    {
        let len = self.length();
        proof {
            if len.raw > 0 {
                lemma_normalized_is_unit(self);
            }
        }
        if len.raw > 0 {
            let norm_squared = square_wide(self.x.raw) + square_wide(self.y.raw);
            Vector2D {
                x: unit_component_of(self.x.raw, norm_squared),
                y: unit_component_of(self.y.raw, norm_squared),
            }
        } else {
            self
        }
    }
}

/// Whether the sum of two plane vectors lies within the clamped range.
pub open spec fn vector_sum_fits(a: Vector2D, b: Vector2D) -> bool {
    sum_fits(a.x, b.x) && sum_fits(a.y, b.y)
}

/// Whether a plane vector times a number lies within the clamped range.
pub open spec fn vector_product_fits(a: Vector2D, k: Fixed) -> bool {
    product_fits(a.x, k) && product_fits(a.y, k)
}

/// Whether two plane vectors differ by at most one unit of the last place in
/// either component.
pub open spec fn vectors_within_one(a: Vector2D, b: Vector2D) -> bool {
    within_one(a.x, b.x) && within_one(a.y, b.y)
}

/// Sums of plane vectors that stay within the clamped range may be grouped
/// either way, and do not depend on the order of their terms.
pub proof fn lemma_vector_sums(a: Vector2D, b: Vector2D, c: Vector2D)
    requires
        vector_sum_fits(a, b),
        vector_sum_fits(b, c),
    ensures
        a.add_spec(b).add_spec(c) == a.add_spec(b.add_spec(c)),
        a.add_spec(b) == b.add_spec(a),
{
}

/// Scaling a sum of plane vectors gives the sum of the scaled vectors within
/// one unit of the last place in either component, where nothing is clamped.
pub proof fn lemma_vector_scaling_distributes(a: Vector2D, b: Vector2D, k: Fixed)
    requires
        vector_sum_fits(a, b),
        vector_product_fits(a, k),
        vector_product_fits(b, k),
        vector_product_fits(a.add_spec(b), k),
    ensures
        vectors_within_one(a.add_spec(b).mul_spec(k), a.mul_spec(k).add_spec(b.mul_spec(k))),
{
    lemma_mul_distributes_within_one(a.x, b.x, k);
    lemma_mul_distributes_within_one(a.y, b.y, k);
}

/// Square of a raw value, exactly.
fn square_wide(v: i64) -> (r: u128)
    ensures
        r == v * v,
        r <= 0x4000_0000_0000_0000_0000_0000_0000_0000,
{
    let m: u128 = if v < 0 {
        (-(v as i128)) as u128
    } else {
        v as u128
    };
    proof {
        lemma_mul_bounded(m as int, m as int, 0x8000_0000_0000_0000, 0x8000_0000_0000_0000);
        assert(0x8000_0000_0000_0000int * 0x8000_0000_0000_0000int
            == 0x4000_0000_0000_0000_0000_0000_0000_0000int) by (nonlinear_arith);
        assert(m * m == v * v) by (nonlinear_arith)
            requires
                m == v || m == -v,
        ;
    }
    m * m
}

/// A raw value clamped to the symmetric range.
fn clamped(v: i64) -> (r: i64)
    ensures
        r == saturate(v as int),
        -RAW_MAX <= r <= RAW_MAX,
{
    if v < -RAW_MAX {
        -RAW_MAX
    } else {
        v
    }
}

/// Square of a raw value within the symmetric range, exactly.
fn square_clamped(v: i64) -> (r: u128)
    requires
        -RAW_MAX <= v <= RAW_MAX,
    ensures
        r == v * v,
        r <= 0x3fff_ffff_ffff_ffff_0000_0000_0000_0001,
{
    let r = square_wide(v);
    proof {
        let m: int = if v < 0 {
            -(v as int)
        } else {
            v as int
        };
        lemma_mul_bounded(m, m, RAW_MAX as int, RAW_MAX as int);
        assert(m * m == v * v) by (nonlinear_arith)
            requires
                m == v || m == -v,
        ;
        assert(RAW_MAX * RAW_MAX == 0x3fff_ffff_ffff_ffff_0000_0000_0000_0001int)
            by (nonlinear_arith)
            requires
                RAW_MAX == 0x7fff_ffff_ffff_ffff,
        ;
    }
    r
}

/// Raw magnitude below which a quaternion cannot be normalized.
pub const NORM_EPSILON: i64 = 1;

/// A point or displacement in space.
#[derive(Clone, Copy, PartialEq, Eq, Debug, Structural)]
pub struct Vector3D {
    pub x: Fixed,
    pub y: Fixed,
    pub z: Fixed,
}

impl Vector3D {
    /// Component-wise sum.
    pub open spec fn add_spec(self, rhs: Vector3D) -> Vector3D {
        Vector3D {
            x: self.x.add_spec(rhs.x),
            y: self.y.add_spec(rhs.y),
            z: self.z.add_spec(rhs.z),
        }
    }

    /// Component-wise difference.
    pub open spec fn sub_spec(self, rhs: Vector3D) -> Vector3D {
        Vector3D {
            x: self.x.sub_spec(rhs.x),
            y: self.y.sub_spec(rhs.y),
            z: self.z.sub_spec(rhs.z),
        }
    }

    /// All components multiplied by `k`.
    pub open spec fn mul_spec(self, k: Fixed) -> Vector3D {
        Vector3D { x: self.x.mul_spec(k), y: self.y.mul_spec(k), z: self.z.mul_spec(k) }
    }

    /// All components divided by `k`.
    pub open spec fn div_spec(self, k: Fixed) -> Vector3D {
        Vector3D { x: self.x.div_spec(k), y: self.y.div_spec(k), z: self.z.div_spec(k) }
    }

    /// Component-wise product.
    pub open spec fn mul_elem_spec(self, rhs: Vector3D) -> Vector3D {
        Vector3D {
            x: self.x.mul_spec(rhs.x),
            y: self.y.mul_spec(rhs.y),
            z: self.z.mul_spec(rhs.z),
        }
    }

    /// Component-wise quotient.
    pub open spec fn div_elem_spec(self, rhs: Vector3D) -> Vector3D {
        Vector3D {
            x: self.x.div_spec(rhs.x),
            y: self.y.div_spec(rhs.y),
            z: self.z.div_spec(rhs.z),
        }
    }

    /// Scalar product `x1 * x2 + y1 * y2 + z1 * z2`.
    pub open spec fn dot_spec(self, rhs: Vector3D) -> Fixed {
        self.x.mul_spec(rhs.x).add_spec(self.y.mul_spec(rhs.y)).add_spec(self.z.mul_spec(rhs.z))
    }

    /// Vector product `(y1 * z2 - z1 * y2, z1 * x2 - x1 * z2, x1 * y2 - y1 * x2)`.
    pub open spec fn times_spec(self, rhs: Vector3D) -> Vector3D {
        Vector3D {
            x: self.y.mul_spec(rhs.z).sub_spec(self.z.mul_spec(rhs.y)),
            y: self.x.neg_spec().mul_spec(rhs.z).add_spec(self.z.mul_spec(rhs.x)),
            z: self.x.mul_spec(rhs.y).sub_spec(self.y.mul_spec(rhs.x)),
        }
    }

    /// Squared length `x * x + y * y + z * z`.
    pub open spec fn length_squared_spec(self) -> Fixed {
        self.x.mul_spec(self.x).add_spec(self.y.mul_spec(self.y)).add_spec(
            self.z.mul_spec(self.z),
        )
    }

    /// Euclidean length: the square root of the exact sum of the squared raw
    /// components, rounded down and clamped.
    pub open spec fn length_spec(self) -> Fixed {
        Fixed::of(
            floor_sqrt(
                self.x.raw * self.x.raw + self.y.raw * self.y.raw + self.z.raw * self.z.raw,
            ),
        )
    }

    pub fn new(x: Fixed, y: Fixed, z: Fixed) -> (r: Vector3D)
        ensures
            r.x == x,
            r.y == y,
            r.z == z,
    {
        Vector3D { x, y, z }
    }

    pub fn add(self, rhs: Vector3D) -> (r: Vector3D)
        ensures
            r == self.add_spec(rhs),
    {
        Vector3D { x: self.x.add(rhs.x), y: self.y.add(rhs.y), z: self.z.add(rhs.z) }
    }

    pub fn sub(self, rhs: Vector3D) -> (r: Vector3D)
        ensures
            r == self.sub_spec(rhs),
    {
        Vector3D { x: self.x.sub(rhs.x), y: self.y.sub(rhs.y), z: self.z.sub(rhs.z) }
    }

    pub fn mul(self, k: Fixed) -> (r: Vector3D)
        ensures
            r == self.mul_spec(k),
    {
        Vector3D { x: self.x.mul(k), y: self.y.mul(k), z: self.z.mul(k) }
    }

    pub fn div(self, k: Fixed) -> (r: Vector3D)
        ensures
            r == self.div_spec(k),
    {
        Vector3D { x: self.x.div(k), y: self.y.div(k), z: self.z.div(k) }
    }

    pub fn mul_elem(self, rhs: Vector3D) -> (r: Vector3D)
        ensures
            r == self.mul_elem_spec(rhs),
    {
        Vector3D { x: self.x.mul(rhs.x), y: self.y.mul(rhs.y), z: self.z.mul(rhs.z) }
    }

    pub fn div_elem(self, rhs: Vector3D) -> (r: Vector3D)
        ensures
            r == self.div_elem_spec(rhs),
    {
        Vector3D { x: self.x.div(rhs.x), y: self.y.div(rhs.y), z: self.z.div(rhs.z) }
    }

    pub fn dot(self, rhs: Vector3D) -> (r: Fixed)
        ensures
            r == self.dot_spec(rhs),
    {
        self.x.mul(rhs.x).add(self.y.mul(rhs.y)).add(self.z.mul(rhs.z))
    }

    pub fn times(self, rhs: Vector3D) -> (r: Vector3D)
        ensures
            r == self.times_spec(rhs),
    {
        Vector3D {
            x: self.y.mul(rhs.z).sub(self.z.mul(rhs.y)),
            y: self.x.neg().mul(rhs.z).add(self.z.mul(rhs.x)),
            z: self.x.mul(rhs.y).sub(self.y.mul(rhs.x)),
        }
    }

    pub fn length_squared(self) -> (r: Fixed)
        ensures
            r == self.length_squared_spec(),
    {
        self.x.mul(self.x).add(self.y.mul(self.y)).add(self.z.mul(self.z))
    }

    pub fn length(self) -> (r: Fixed)
        ensures
            r == self.length_spec(),
            r.raw >= 0,
    {
        let root = isqrt_wide(
            square_wide(self.x.raw) + square_wide(self.y.raw) + square_wide(self.z.raw),
        );
        proof {
            lemma_floor_sqrt_exists(
                self.x.raw * self.x.raw + self.y.raw * self.y.raw + self.z.raw * self.z.raw,
            );
        }
        if root > RAW_MAX as u64 {
            Fixed { raw: RAW_MAX }
        } else {
            Fixed { raw: root as i64 }
        }
    }
}

/// A quaternion `w + x i + y j + z k`.
#[derive(Clone, Copy, PartialEq, Eq, Debug, Structural)]
pub struct Quaternion {
    pub w: Fixed,
    pub x: Fixed,
    pub y: Fixed,
    pub z: Fixed,
}

impl Quaternion {
    /// The quaternion `1`.
    pub open spec fn identity_spec() -> Quaternion {
        Quaternion {
            w: Fixed { raw: SCALE },
            x: Fixed { raw: 0 },
            y: Fixed { raw: 0 },
            z: Fixed { raw: 0 },
        }
    }

    /// The exact sum of the squared raw components, each clamped to the
    /// symmetric range first.
    pub open spec fn norm_squared_spec(self) -> int {
        saturate(self.w.raw as int) * saturate(self.w.raw as int) + saturate(self.x.raw as int)
            * saturate(self.x.raw as int) + saturate(self.y.raw as int) * saturate(
            self.y.raw as int,
        ) + saturate(self.z.raw as int) * saturate(self.z.raw as int)
    }

    /// Magnitude: the square root of `w * w + x * x + y * y + z * z`, taken of
    /// the exact sum, rounded down and clamped.
    pub open spec fn magnitude_spec(self) -> Fixed {
        Fixed::of(floor_sqrt(self.norm_squared_spec()))
    }

    /// Whether the quaternion has magnitude one within rounding: the sum of
    /// its squared raw components exceeds one squared by at most `2 * SCALE`
    /// and falls short of it by less than `8 * SCALE + 4`, so that its
    /// magnitude lies within five billionths of one.
    pub open spec fn is_unit(self) -> bool {
        SCALE * SCALE - 8 * SCALE - 4 < self.w.raw * self.w.raw + self.x.raw * self.x.raw
            + self.y.raw * self.y.raw + self.z.raw * self.z.raw <= SCALE * SCALE + 2 * SCALE
    }

    /// The quaternion divided by its magnitude, each component by
    /// `unit_component`; the identity where the magnitude is below
    /// `NORM_EPSILON`.
    pub open spec fn normalize_spec(self) -> Quaternion {
        if self.magnitude_spec().raw < NORM_EPSILON {
            Quaternion::identity_spec()
        } else {
            Quaternion {
                w: unit_component(saturate(self.w.raw as int), self.norm_squared_spec()),
                x: unit_component(saturate(self.x.raw as int), self.norm_squared_spec()),
                y: unit_component(saturate(self.y.raw as int), self.norm_squared_spec()),
                z: unit_component(saturate(self.z.raw as int), self.norm_squared_spec()),
            }
        }
    }

    /// Hamilton product.
    pub open spec fn mul_spec(self, rhs: Quaternion) -> Quaternion {
        Quaternion {
            w: self.w.mul_spec(rhs.w).sub_spec(self.x.mul_spec(rhs.x)).sub_spec(
                self.y.mul_spec(rhs.y),
            ).sub_spec(self.z.mul_spec(rhs.z)),
            x: self.w.mul_spec(rhs.x).add_spec(self.x.mul_spec(rhs.w)).add_spec(
                self.y.mul_spec(rhs.z),
            ).sub_spec(self.z.mul_spec(rhs.y)),
            y: self.w.mul_spec(rhs.y).sub_spec(self.x.mul_spec(rhs.z)).add_spec(
                self.y.mul_spec(rhs.w),
            ).add_spec(self.z.mul_spec(rhs.x)),
            z: self.w.mul_spec(rhs.z).add_spec(self.x.mul_spec(rhs.y)).sub_spec(
                self.y.mul_spec(rhs.x),
            ).add_spec(self.z.mul_spec(rhs.w)),
        }
    }

    /// All components multiplied by `k`.
    pub open spec fn scale_spec(self, k: Fixed) -> Quaternion {
        Quaternion {
            w: self.w.mul_spec(k),
            x: self.x.mul_spec(k),
            y: self.y.mul_spec(k),
            z: self.z.mul_spec(k),
        }
    }

    /// Component-wise sum.
    pub open spec fn add_spec(self, rhs: Quaternion) -> Quaternion {
        Quaternion {
            w: self.w.add_spec(rhs.w),
            x: self.x.add_spec(rhs.x),
            y: self.y.add_spec(rhs.y),
            z: self.z.add_spec(rhs.z),
        }
    }

    /// The quaternion `1`, which stands for no rotation.
    pub fn identity() -> (r: Quaternion)
        ensures
            r == Quaternion::identity_spec(),
    {
        Quaternion { w: Fixed::one(), x: Fixed::zero(), y: Fixed::zero(), z: Fixed::zero() }
    }

    /// The pure quaternion `(0, v.x, v.y, v.z)`.
    pub fn from_vector(v: Vector3D) -> (r: Quaternion)
        ensures
            r.w.raw == 0,
            r.x == v.x,
            r.y == v.y,
            r.z == v.z,
    {
        Quaternion { w: Fixed::zero(), x: v.x, y: v.y, z: v.z }
    }

    /// The quaternion scaled to magnitude one. A quaternion whose magnitude
    /// is below `NORM_EPSILON` has no direction and gives the identity.
    pub fn normalize(self) -> (r: Quaternion)
        ensures
            r == self.normalize_spec(),
            r.is_unit(),
    {
        proof {
            if self.magnitude_spec().raw >= NORM_EPSILON {
                lemma_normalized_quaternion_is_unit(self);
            } else {
                assert(SCALE * SCALE == 1_000_000_000_000_000_000int) by (nonlinear_arith)
                    requires
                        SCALE == 1_000_000_000,
                ;
            }
        }
        let w = clamped(self.w.raw);
        let x = clamped(self.x.raw);
        let y = clamped(self.y.raw);
        let z = clamped(self.z.raw);
        let norm_squared = square_clamped(w) + square_clamped(x) + square_clamped(y)
            + square_clamped(z);
        proof {
            lemma_floor_sqrt_exists(norm_squared as int);
            let root = floor_sqrt(norm_squared as int);
            assert((root < 1) == (norm_squared == 0)) by (nonlinear_arith)
                requires
                    0 <= root,
                    root * root <= norm_squared < (root + 1) * (root + 1),
            ;
        }
        if norm_squared == 0 {
            return Quaternion::identity();
        }
        Quaternion {
            w: unit_component_of(w, norm_squared),
            x: unit_component_of(x, norm_squared),
            y: unit_component_of(y, norm_squared),
            z: unit_component_of(z, norm_squared),
        }
    }

    pub fn mul(self, rhs: Quaternion) -> (r: Quaternion)
        ensures
            r == self.mul_spec(rhs),
    {
        Quaternion {
            w: self.w.mul(rhs.w).sub(self.x.mul(rhs.x)).sub(self.y.mul(rhs.y)).sub(
                self.z.mul(rhs.z),
            ),
            x: self.w.mul(rhs.x).add(self.x.mul(rhs.w)).add(self.y.mul(rhs.z)).sub(
                self.z.mul(rhs.y),
            ),
            y: self.w.mul(rhs.y).sub(self.x.mul(rhs.z)).add(self.y.mul(rhs.w)).add(
                self.z.mul(rhs.x),
            ),
            z: self.w.mul(rhs.z).add(self.x.mul(rhs.y)).sub(self.y.mul(rhs.x)).add(
                self.z.mul(rhs.w),
            ),
        }
    }

    pub fn scale(self, k: Fixed) -> (r: Quaternion)
        ensures
            r == self.scale_spec(k),
    {
        Quaternion { w: self.w.mul(k), x: self.x.mul(k), y: self.y.mul(k), z: self.z.mul(k) }
    }

    pub fn add(self, rhs: Quaternion) -> (r: Quaternion)
        ensures
            r == self.add_spec(rhs),
    {
        Quaternion {
            w: self.w.add(rhs.w),
            x: self.x.add(rhs.x),
            y: self.y.add(rhs.y),
            z: self.z.add(rhs.z),
        }
    }
}

/// A tensor of second order in space, given by its three rows.
#[derive(Clone, Copy, PartialEq, Eq, Debug, Structural)]
pub struct Tensor3d {
    pub x: Vector3D,
    pub y: Vector3D,
    pub z: Vector3D,
}

impl Tensor3d {
    pub fn new(x: Vector3D, y: Vector3D, z: Vector3D) -> (r: Tensor3d)
        ensures
            r.x == x,
            r.y == y,
            r.z == z,
    {
        Tensor3d { x, y, z }
    }
}

impl core::ops::Add for Vector2D {
    type Output = Vector2D;

    /// `self + rhs`, component by component.
    fn add(self, rhs: Vector2D) -> (r: Vector2D) {
        Vector2D::add(self, rhs)
    }
}

impl vstd::std_specs::ops::AddSpecImpl for Vector2D {
    open spec fn obeys_add_spec() -> bool {
        true
    }

    open spec fn add_req(self, rhs: Vector2D) -> bool {
        true
    }

    open spec fn add_spec(self, rhs: Vector2D) -> Vector2D {
        Vector2D::add_spec(self, rhs)
    }
}

impl core::ops::Sub for Vector2D {
    type Output = Vector2D;

    /// `self - rhs`, component by component.
    fn sub(self, rhs: Vector2D) -> (r: Vector2D) {
        Vector2D::sub(self, rhs)
    }
}

impl vstd::std_specs::ops::SubSpecImpl for Vector2D {
    open spec fn obeys_sub_spec() -> bool {
        true
    }

    open spec fn sub_req(self, rhs: Vector2D) -> bool {
        true
    }

    open spec fn sub_spec(self, rhs: Vector2D) -> Vector2D {
        Vector2D::sub_spec(self, rhs)
    }
}

impl core::ops::Mul<Fixed> for Vector2D {
    type Output = Vector2D;

    /// `self * rhs`: both components multiplied by a number.
    fn mul(self, rhs: Fixed) -> (r: Vector2D) {
        Vector2D::mul(self, rhs)
    }
}

impl vstd::std_specs::ops::MulSpecImpl<Fixed> for Vector2D {
    open spec fn obeys_mul_spec() -> bool {
        true
    }

    open spec fn mul_req(self, rhs: Fixed) -> bool {
        true
    }

    open spec fn mul_spec(self, rhs: Fixed) -> Vector2D {
        Vector2D::mul_spec(self, rhs)
    }
}

impl core::ops::Add for Vector3D {
    type Output = Vector3D;

    /// `self + rhs`, component by component.
    fn add(self, rhs: Vector3D) -> (r: Vector3D) {
        Vector3D::add(self, rhs)
    }
}

impl vstd::std_specs::ops::AddSpecImpl for Vector3D {
    open spec fn obeys_add_spec() -> bool {
        true
    }

    open spec fn add_req(self, rhs: Vector3D) -> bool {
        true
    }

    open spec fn add_spec(self, rhs: Vector3D) -> Vector3D {
        Vector3D::add_spec(self, rhs)
    }
}

impl core::ops::Sub for Vector3D {
    type Output = Vector3D;

    /// `self - rhs`, component by component.
    fn sub(self, rhs: Vector3D) -> (r: Vector3D) {
        Vector3D::sub(self, rhs)
    }
}

impl vstd::std_specs::ops::SubSpecImpl for Vector3D {
    open spec fn obeys_sub_spec() -> bool {
        true
    }

    open spec fn sub_req(self, rhs: Vector3D) -> bool {
        true
    }

    open spec fn sub_spec(self, rhs: Vector3D) -> Vector3D {
        Vector3D::sub_spec(self, rhs)
    }
}

impl core::ops::Mul<Fixed> for Vector3D {
    type Output = Vector3D;

    /// `self * rhs`: all components multiplied by a number.
    fn mul(self, rhs: Fixed) -> (r: Vector3D) {
        Vector3D::mul(self, rhs)
    }
}

impl vstd::std_specs::ops::MulSpecImpl<Fixed> for Vector3D {
    open spec fn obeys_mul_spec() -> bool {
        true
    }

    open spec fn mul_req(self, rhs: Fixed) -> bool {
        true
    }

    open spec fn mul_spec(self, rhs: Fixed) -> Vector3D {
        Vector3D::mul_spec(self, rhs)
    }
}

impl core::ops::Div<Fixed> for Vector3D {
    type Output = Vector3D;

    /// `self / rhs`: all components divided by a number.
    fn div(self, rhs: Fixed) -> (r: Vector3D) {
        Vector3D::div(self, rhs)
    }
}

impl vstd::std_specs::ops::DivSpecImpl<Fixed> for Vector3D {
    open spec fn obeys_div_spec() -> bool {
        true
    }

    open spec fn div_req(self, rhs: Fixed) -> bool {
        true
    }

    open spec fn div_spec(self, rhs: Fixed) -> Vector3D {
        Vector3D::div_spec(self, rhs)
    }
}

impl core::ops::Mul for Vector3D {
    type Output = Vector3D;

    /// `self * rhs`, component by component.
    fn mul(self, rhs: Vector3D) -> (r: Vector3D) {
        Vector3D::mul_elem(self, rhs)
    }
}

impl vstd::std_specs::ops::MulSpecImpl for Vector3D {
    open spec fn obeys_mul_spec() -> bool {
        true
    }

    open spec fn mul_req(self, rhs: Vector3D) -> bool {
        true
    }

    open spec fn mul_spec(self, rhs: Vector3D) -> Vector3D {
        Vector3D::mul_elem_spec(self, rhs)
    }
}

impl core::ops::Div for Vector3D {
    type Output = Vector3D;

    /// `self / rhs`, component by component.
    fn div(self, rhs: Vector3D) -> (r: Vector3D) {
        Vector3D::div_elem(self, rhs)
    }
}

impl vstd::std_specs::ops::DivSpecImpl for Vector3D {
    open spec fn obeys_div_spec() -> bool {
        true
    }

    open spec fn div_req(self, rhs: Vector3D) -> bool {
        true
    }

    open spec fn div_spec(self, rhs: Vector3D) -> Vector3D {
        Vector3D::div_elem_spec(self, rhs)
    }
}

impl core::ops::Mul for Quaternion {
    type Output = Quaternion;

    /// `self * rhs`: the Hamilton product.
    fn mul(self, rhs: Quaternion) -> (r: Quaternion) {
        Quaternion::mul(self, rhs)
    }
}

impl vstd::std_specs::ops::MulSpecImpl for Quaternion {
    open spec fn obeys_mul_spec() -> bool {
        true
    }

    open spec fn mul_req(self, rhs: Quaternion) -> bool {
        true
    }

    open spec fn mul_spec(self, rhs: Quaternion) -> Quaternion {
        Quaternion::mul_spec(self, rhs)
    }
}

impl core::ops::Mul<Fixed> for Quaternion {
    type Output = Quaternion;

    /// `self * rhs`: all components multiplied by a number.
    fn mul(self, rhs: Fixed) -> (r: Quaternion) {
        Quaternion::scale(self, rhs)
    }
}

impl vstd::std_specs::ops::MulSpecImpl<Fixed> for Quaternion {
    open spec fn obeys_mul_spec() -> bool {
        true
    }

    open spec fn mul_req(self, rhs: Fixed) -> bool {
        true
    }

    open spec fn mul_spec(self, rhs: Fixed) -> Quaternion {
        Quaternion::scale_spec(self, rhs)
    }
}

impl core::ops::Add for Quaternion {
    type Output = Quaternion;

    /// `self + rhs`, component by component.
    fn add(self, rhs: Quaternion) -> (r: Quaternion) {
        Quaternion::add(self, rhs)
    }
}

impl vstd::std_specs::ops::AddSpecImpl for Quaternion {
    open spec fn obeys_add_spec() -> bool {
        true
    }

    open spec fn add_req(self, rhs: Quaternion) -> bool {
        true
    }

    open spec fn add_spec(self, rhs: Quaternion) -> Quaternion {
        Quaternion::add_spec(self, rhs)
    }
}

} // verus!
