//! Small fixed-arity vectors.
//!
//! The structs are generic over their component type; arithmetic is provided
//! for `i64` components, whose values the contracts read as mathematical
//! integers.
use vstd::prelude::*;

verus! {

/// Marker for the numeric types that vector components may have.
pub trait Number: Copy {}

impl Number for i32 {}

impl Number for i64 {}

impl Number for i128 {}

#[derive(Clone, Copy, Debug, PartialEq, Eq, Structural)]
pub struct Vector2<T> {
    pub x: T,
    pub y: T,
}

#[derive(Clone, Copy, Debug, PartialEq, Eq, Structural)]
pub struct Vector3<T> {
    pub x: T,
    pub y: T,
    pub z: T,
}

#[derive(Clone, Copy, Debug, PartialEq, Eq, Structural)]
pub struct Vector4<T> {
    pub x: T,
    pub y: T,
    pub z: T,
    pub w: T,
}

/// True when `v` lies in the range of `i64`.
pub open spec fn fits_i64(v: int) -> bool {
    i64::MIN <= v <= i64::MAX
}

/// z component of the cross product of two plane vectors.
pub open spec fn cross2(ax: int, ay: int, bx: int, by: int) -> int {
    ax * by - ay * bx
}

/// Rust's integer division: the quotient rounded toward zero.
pub open spec fn quot(a: int, b: int) -> int {
    if a >= 0 {
        a / b
    } else {
        -((-a) / b)
    }
}

/// The divisor of the homogeneous divide: `w`, or 1 where `w` is 0.
pub open spec fn homogeneous_divisor(w: int) -> int {
    if w == 0 {
        1
    } else {
        w
    }
}

/// Product bound: `|a * b| <= ma * mb` where `|a| <= ma` and `|b| <= mb`.
pub proof fn lemma_mul_bounded(a: int, b: int, ma: int, mb: int)
    requires
        -ma <= a <= ma,
        -mb <= b <= mb,
    ensures
        -(ma * mb) <= a * b <= ma * mb,
{
    let pa: int = if a >= 0 { a } else { -a };
    let pb: int = if b >= 0 { b } else { -b };
    vstd::arithmetic::mul::lemma_mul_inequality(pa, ma, pb);
    vstd::arithmetic::mul::lemma_mul_inequality(pb, mb, ma);
    assert(pa * pb == pb * pa && pb * ma == ma * pb && mb * ma == ma * mb) by (nonlinear_arith);
    assert(a * b == pa * pb || a * b == -(pa * pb)) by (nonlinear_arith)
        requires
            pa == a || pa == -a,
            pb == b || pb == -b,
    ;
    assert(0 <= pa * pb) by (nonlinear_arith)
        requires
            pa >= 0,
            pb >= 0,
    ;
}

/// Dividing by a negative number negates the quotient by its magnitude.
pub proof fn lemma_div_by_negative(a: int, b: int)
    requires
        a >= 0,
        b < 0,
    ensures
        a / b == -(a / (-b)),
{
    let q = a / (-b);
    let r = a % (-b);
    vstd::arithmetic::div_mod::lemma_fundamental_div_mod(a, -b);
    assert(a == (-q) * b + r) by (nonlinear_arith)
        requires
            a == (-b) * q + r,
    ;
    let q2 = a / b;
    let r2 = a % b;
    vstd::arithmetic::div_mod::lemma_fundamental_div_mod(a, b);
    assert(0 <= r2 < -b) by (nonlinear_arith)
        requires
            b < 0,
            r2 == a % b,
    ;
    assert(q2 == -q) by (nonlinear_arith)
        requires
            a == (-q) * b + r,
            a == b * q2 + r2,
            0 <= r < -b,
            0 <= r2 < -b,
            b < 0,
    ;
}

/// A quotient rounded toward zero is no larger in magnitude than its dividend.
pub proof fn lemma_quot_bounded(a: int, b: int)
    requires
        b != 0,
    ensures
        a >= 0 ==> 0 <= a / b <= a || (b < 0 && -a <= a / b <= 0),
        a < 0 ==> 0 <= (-a) / b <= -a || (b < 0 && a <= (-a) / b <= 0),
{
    if b > 0 {
        if a >= 0 {
            vstd::arithmetic::div_mod::lemma_div_pos_is_pos(a, b);
            vstd::arithmetic::div_mod::lemma_div_is_ordered_by_denominator(a, 1, b);
        } else {
            vstd::arithmetic::div_mod::lemma_div_pos_is_pos(-a, b);
            vstd::arithmetic::div_mod::lemma_div_is_ordered_by_denominator(-a, 1, b);
        }
    } else {
        if a >= 0 {
            lemma_div_by_negative(a, b);
            vstd::arithmetic::div_mod::lemma_div_pos_is_pos(a, -b);
            vstd::arithmetic::div_mod::lemma_div_is_ordered_by_denominator(a, 1, -b);
        } else {
            lemma_div_by_negative(-a, b);
            vstd::arithmetic::div_mod::lemma_div_pos_is_pos(-a, -b);
            vstd::arithmetic::div_mod::lemma_div_is_ordered_by_denominator(-a, 1, -b);
        }
    }
}

impl<T: Number> Vector2<T> {
    pub fn new(x: T, y: T) -> (r: Self)
        ensures
            r.x == x,
            r.y == y,
    {
        Self { x, y }
    }
}

impl<T: Number> Vector3<T> {
    pub fn new(x: T, y: T, z: T) -> (r: Self)
        ensures
            r.x == x,
            r.y == y,
            r.z == z,
    {
        Self { x, y, z }
    }
}

impl<T: Number> Vector4<T> {
    pub fn new(x: T, y: T, z: T, w: T) -> (r: Self)
        ensures
            r.x == x,
            r.y == y,
            r.z == z,
            r.w == w,
    {
        Self { x, y, z, w }
    }
}

impl Vector2<i64> {
    pub fn add(self, rhs: Self) -> (r: Self)
        requires
            fits_i64(self.x + rhs.x),
            fits_i64(self.y + rhs.y),
        ensures
            r.x == self.x + rhs.x,
            r.y == self.y + rhs.y,
    {
        Self::new(self.x + rhs.x, self.y + rhs.y)
    }

    pub fn neg(self) -> (r: Self)
        requires
            self.x > i64::MIN,
            self.y > i64::MIN,
        ensures
            r.x == -self.x,
            r.y == -self.y,
    {
        Self::new(-self.x, -self.y)
    }

    pub fn sub(self, rhs: Self) -> (r: Self)
        requires
            fits_i64(self.x - rhs.x),
            fits_i64(self.y - rhs.y),
        ensures
            r.x == self.x - rhs.x,
            r.y == self.y - rhs.y,
    {
        Self::new(self.x - rhs.x, self.y - rhs.y)
    }

    /// Dot product.
    pub fn dot(self, rhs: Self) -> (r: i64)
        requires
            fits_i64(self.x * rhs.x),
            fits_i64(self.y * rhs.y),
            fits_i64(self.x * rhs.x + self.y * rhs.y),
        ensures
            r == self.x * rhs.x + self.y * rhs.y,
    {
        self.x * rhs.x + self.y * rhs.y
    }

    /// Each component multiplied by `factor`.
    pub fn scale(self, factor: i64) -> (r: Self)
        requires
            fits_i64(self.x * factor),
            fits_i64(self.y * factor),
        ensures
            r.x == self.x * factor,
            r.y == self.y * factor,
    {
        Self::new(self.x * factor, self.y * factor)
    }

    /// Each component divided by `divisor`, rounded toward zero.
    pub fn div(self, divisor: i64) -> (r: Self)
        requires
            divisor > 0,
        ensures
            r.x == quot(self.x as int, divisor as int),
            r.y == quot(self.y as int, divisor as int),
    {
        Self::new(self.x / divisor, self.y / divisor)
    }

    /// z component of the cross product, the plane vectors lifted to 3D.
    pub fn cross(self, rhs: Self) -> (r: i64)
        requires
            fits_i64(self.x * rhs.y),
            fits_i64(self.y * rhs.x),
            fits_i64(cross2(self.x as int, self.y as int, rhs.x as int, rhs.y as int)),
        ensures
            r == cross2(self.x as int, self.y as int, rhs.x as int, rhs.y as int),
    {
        self.x * rhs.y - self.y * rhs.x
    }
}

impl Vector3<i64> {
    pub fn add(self, rhs: Self) -> (r: Self)
        requires
            fits_i64(self.x + rhs.x),
            fits_i64(self.y + rhs.y),
            fits_i64(self.z + rhs.z),
        ensures
            r.x == self.x + rhs.x,
            r.y == self.y + rhs.y,
            r.z == self.z + rhs.z,
    {
        Self::new(self.x + rhs.x, self.y + rhs.y, self.z + rhs.z)
    }

    pub fn neg(self) -> (r: Self)
        requires
            self.x > i64::MIN,
            self.y > i64::MIN,
            self.z > i64::MIN,
        ensures
            r.x == -self.x,
            r.y == -self.y,
            r.z == -self.z,
    {
        Self::new(-self.x, -self.y, -self.z)
    }

    pub fn sub(self, rhs: Self) -> (r: Self)
        requires
            fits_i64(self.x - rhs.x),
            fits_i64(self.y - rhs.y),
            fits_i64(self.z - rhs.z),
        ensures
            r.x == self.x - rhs.x,
            r.y == self.y - rhs.y,
            r.z == self.z - rhs.z,
    {
        Self::new(self.x - rhs.x, self.y - rhs.y, self.z - rhs.z)
    }

    /// Dot product.
    pub fn dot(self, rhs: Self) -> (r: i64)
        requires
            fits_i64(self.x * rhs.x),
            fits_i64(self.y * rhs.y),
            fits_i64(self.z * rhs.z),
            fits_i64(self.x * rhs.x + self.y * rhs.y),
            fits_i64(self.x * rhs.x + self.y * rhs.y + self.z * rhs.z),
        ensures
            r == self.x * rhs.x + self.y * rhs.y + self.z * rhs.z,
    {
        self.x * rhs.x + self.y * rhs.y + self.z * rhs.z
    }

    /// Each component multiplied by `factor`.
    pub fn scale(self, factor: i64) -> (r: Self)
        requires
            fits_i64(self.x * factor),
            fits_i64(self.y * factor),
            fits_i64(self.z * factor),
        ensures
            r.x == self.x * factor,
            r.y == self.y * factor,
            r.z == self.z * factor,
    {
        Self::new(self.x * factor, self.y * factor, self.z * factor)
    }

    /// Each component divided by `divisor`, rounded toward zero.
    pub fn div(self, divisor: i64) -> (r: Self)
        requires
            divisor > 0,
        ensures
            r.x == quot(self.x as int, divisor as int),
            r.y == quot(self.y as int, divisor as int),
            r.z == quot(self.z as int, divisor as int),
    {
        Self::new(self.x / divisor, self.y / divisor, self.z / divisor)
    }

    /// Cross product.
    pub fn cross(self, rhs: Self) -> (r: Self)
        requires
            fits_i64(self.y * rhs.z),
            fits_i64(self.z * rhs.y),
            fits_i64(self.z * rhs.x),
            fits_i64(self.x * rhs.z),
            fits_i64(self.x * rhs.y),
            fits_i64(self.y * rhs.x),
            fits_i64(self.y * rhs.z - self.z * rhs.y),
            fits_i64(self.z * rhs.x - self.x * rhs.z),
            fits_i64(self.x * rhs.y - self.y * rhs.x),
        ensures
            r.x == self.y * rhs.z - self.z * rhs.y,
            r.y == self.z * rhs.x - self.x * rhs.z,
            r.z == self.x * rhs.y - self.y * rhs.x,
    {
        Self::new(
            self.y * rhs.z - self.z * rhs.y,
            self.z * rhs.x - self.x * rhs.z,
            self.x * rhs.y - self.y * rhs.x,
        )
    }

    /// The first two components.
    pub fn xy(self) -> (r: Vector2<i64>)
        ensures
            r.x == self.x,
            r.y == self.y,
    {
        Vector2::new(self.x, self.y)
    }

    /// Homogeneous form of a point: the same components and `w == 1`.
    pub fn to_homogeneous(self) -> (r: Vector4<i64>)
        ensures
            r.x == self.x,
            r.y == self.y,
            r.z == self.z,
            r.w == 1,
    {
        Vector4::new(self.x, self.y, self.z, 1)
    }
}

impl Vector4<i64> {
    /// Dot product.
    pub fn dot(self, rhs: Self) -> (r: i64)
        requires
            fits_i64(self.x * rhs.x),
            fits_i64(self.y * rhs.y),
            fits_i64(self.z * rhs.z),
            fits_i64(self.w * rhs.w),
            fits_i64(self.x * rhs.x + self.y * rhs.y),
            fits_i64(self.x * rhs.x + self.y * rhs.y + self.z * rhs.z),
            fits_i64(self.x * rhs.x + self.y * rhs.y + self.z * rhs.z + self.w * rhs.w),
        ensures
            r == self.x * rhs.x + self.y * rhs.y + self.z * rhs.z + self.w * rhs.w,
    {
        self.x * rhs.x + self.y * rhs.y + self.z * rhs.z + self.w * rhs.w
    }

    /// Perspective divide: x, y and z divided by w (rounded toward zero), a
    /// `w` of 0 being read as 1.
    pub fn to_cartesian(self) -> (r: Vector3<i64>)
        requires
            self.x > i64::MIN,
            self.y > i64::MIN,
            self.z > i64::MIN,
        ensures
            r.x == quot(self.x as int, homogeneous_divisor(self.w as int)),
            r.y == quot(self.y as int, homogeneous_divisor(self.w as int)),
            r.z == quot(self.z as int, homogeneous_divisor(self.w as int)),
    {
        let div: i64 = if self.w == 0 { 1 } else { self.w };
        proof {
            lemma_quot_bounded(self.x as int, div as int);
            lemma_quot_bounded(self.y as int, div as int);
            lemma_quot_bounded(self.z as int, div as int);
        }
        let x = self.x / div;
        let y = self.y / div;
        let z = self.z / div;
        Vector3::new(x, y, z)
    }
}

} // verus!
