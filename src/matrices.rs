//! 4×4 transforms on homogeneous integer coordinates.
//!
//! A matrix and its multiples by a positive factor describe the same
//! projective transform, so the constructors below keep every entry an
//! integer by scaling the whole matrix where the usual form has fractions.
use vstd::prelude::*;
use crate::vectors::{Number, Vector2, Vector4};

verus! {

/// Mathematical form of a homogeneous vector.
pub type V4 = (int, int, int, int);

/// Mathematical form of a matrix: its four rows.
pub type M4 = (V4, V4, V4, V4);

/// Bound on the magnitude of matrix and vector entries that `mul` and
/// `mul_vec` accept and produce; products of two such entries, and sums of
/// four of those, fit in `i128`.
pub const ENTRY_LIMIT: i64 = 0x4000_0000_0000_0000;

/// The unit of the fixed-point numbers handed to `projection` and
/// `rotation_x`.
pub const FIXED_ONE: i64 = 65536;

/// Depth that the viewport transform gives to normalized device z = 1;
/// z = -1 maps to 0. `projection` sends the near plane to z = 0 and the far
/// plane to z = -1, so nearer points get larger depths.
pub const DEPTH_MAX: i64 = 65536;

pub open spec fn dot4(a: V4, b: V4) -> int {
    a.0 * b.0 + a.1 * b.1 + a.2 * b.2 + a.3 * b.3
}

/// Matrix times column vector.
pub open spec fn mat_vec(m: M4, v: V4) -> V4 {
    (dot4(m.0, v), dot4(m.1, v), dot4(m.2, v), dot4(m.3, v))
}

/// Row vector times matrix: one row of a matrix product.
pub open spec fn row_mul(r: V4, m: M4) -> V4 {
    (
        r.0 * m.0.0 + r.1 * m.1.0 + r.2 * m.2.0 + r.3 * m.3.0,
        r.0 * m.0.1 + r.1 * m.1.1 + r.2 * m.2.1 + r.3 * m.3.1,
        r.0 * m.0.2 + r.1 * m.1.2 + r.2 * m.2.2 + r.3 * m.3.2,
        r.0 * m.0.3 + r.1 * m.1.3 + r.2 * m.2.3 + r.3 * m.3.3,
    )
}

/// Matrix product, each entry the dot product of a row and a column.
pub open spec fn mat_mul(a: M4, b: M4) -> M4 {
    (row_mul(a.0, b), row_mul(a.1, b), row_mul(a.2, b), row_mul(a.3, b))
}

pub open spec fn identity_m4() -> M4 {
    ((1, 0, 0, 0), (0, 1, 0, 0), (0, 0, 1, 0), (0, 0, 0, 1))
}

pub open spec fn entry_fits(e: int) -> bool {
    -ENTRY_LIMIT <= e <= ENTRY_LIMIT
}

pub open spec fn v4_fits(v: V4) -> bool {
    entry_fits(v.0) && entry_fits(v.1) && entry_fits(v.2) && entry_fits(v.3)
}

pub open spec fn m4_fits(m: M4) -> bool {
    v4_fits(m.0) && v4_fits(m.1) && v4_fits(m.2) && v4_fits(m.3)
}

/// The viewport transform, doubled: normalized device coordinates in
/// [-1, 1] map to x in [0, width], y in [height, 0] and depth in
/// [0, DEPTH_MAX].
pub open spec fn viewport_m4(width: int, height: int) -> M4 {
    (
        (width, 0, 0, width),
        (0, -height, 0, height),
        (0, 0, DEPTH_MAX as int, DEPTH_MAX as int),
        (0, 0, 0, 2),
    )
}

/// The perspective projection for a view of `width`:`height`, focal length
/// `focal / FIXED_ONE` (the cotangent of half the vertical field of view)
/// and clip planes at distances `near` and `far`, multiplied by
/// `FIXED_ONE * width * (far - near)` so that every entry is an integer.
pub open spec fn projection_m4(width: int, height: int, focal: int, near: int, far: int) -> M4 {
    (
        (height * focal * (far - near), 0, 0, 0),
        (0, width * focal * (far - near), 0, 0),
        (0, 0, FIXED_ONE * width * far, FIXED_ONE * width * near * far),
        (0, 0, -(FIXED_ONE * width * (far - near)), 0),
    )
}

/// Rotation about the x axis by the angle whose cosine and sine are
/// `cos / FIXED_ONE` and `sin / FIXED_ONE`, multiplied by `FIXED_ONE`.
pub open spec fn rotation_x_m4(cos: int, sin: int) -> M4 {
    (
        (FIXED_ONE as int, 0, 0, 0),
        (0, cos, -sin, 0),
        (0, sin, cos, 0),
        (0, 0, 0, FIXED_ONE as int),
    )
}

impl View for Vector4<i64> {
    type V = V4;

    open spec fn view(&self) -> V4 {
        (self.x as int, self.y as int, self.z as int, self.w as int)
    }
}

#[derive(Clone, Copy, Debug, PartialEq, Eq, Structural)]
pub struct Matrix4<T> {
    pub x: Vector4<T>,
    pub y: Vector4<T>,
    pub z: Vector4<T>,
    pub w: Vector4<T>,
}

impl View for Matrix4<i64> {
    type V = M4;

    open spec fn view(&self) -> M4 {
        (self.x@, self.y@, self.z@, self.w@)
    }
}

/// Composing two transforms and then applying the result equals applying
/// them one after the other.
pub proof fn lemma_mat_mul_vec(a: M4, b: M4, v: V4)
    ensures
        mat_vec(mat_mul(a, b), v) == mat_vec(a, mat_vec(b, v)),
{
    lemma_row_mul_dot(a.0, b, v);
    lemma_row_mul_dot(a.1, b, v);
    lemma_row_mul_dot(a.2, b, v);
    lemma_row_mul_dot(a.3, b, v);
}

proof fn lemma_sum4_mul(a: int, b: int, c: int, d: int, y: int)
    ensures
        (a + b + c + d) * y == a * y + b * y + c * y + d * y,
{
    assert((a + b + c + d) * y == a * y + b * y + c * y + d * y) by (nonlinear_arith);
}

proof fn lemma_mul_sum4(y: int, a: int, b: int, c: int, d: int)
    ensures
        y * (a + b + c + d) == y * a + y * b + y * c + y * d,
{
    assert(y * (a + b + c + d) == y * a + y * b + y * c + y * d) by (nonlinear_arith);
}

proof fn lemma_mul_assoc3(a: int, b: int, c: int)
    ensures
        (a * b) * c == a * (b * c),
{
    assert((a * b) * c == a * (b * c)) by (nonlinear_arith);
}

/// Column `j` of a matrix, for `j` in 0..4.
pub open spec fn column(m: M4, j: int) -> V4 {
    if j == 0 {
        (m.0.0, m.1.0, m.2.0, m.3.0)
    } else if j == 1 {
        (m.0.1, m.1.1, m.2.1, m.3.1)
    } else if j == 2 {
        (m.0.2, m.1.2, m.2.2, m.3.2)
    } else {
        (m.0.3, m.1.3, m.2.3, m.3.3)
    }
}

proof fn lemma_row_mul_dot(r: V4, b: M4, v: V4)
    ensures
        dot4(row_mul(r, b), v) == dot4(r, mat_vec(b, v)),
{
    let p = row_mul(r, b);
    lemma_sum4_mul(r.0 * b.0.0, r.1 * b.1.0, r.2 * b.2.0, r.3 * b.3.0, v.0);
    lemma_sum4_mul(r.0 * b.0.1, r.1 * b.1.1, r.2 * b.2.1, r.3 * b.3.1, v.1);
    lemma_sum4_mul(r.0 * b.0.2, r.1 * b.1.2, r.2 * b.2.2, r.3 * b.3.2, v.2);
    lemma_sum4_mul(r.0 * b.0.3, r.1 * b.1.3, r.2 * b.2.3, r.3 * b.3.3, v.3);
    lemma_mul_sum4(r.0, b.0.0 * v.0, b.0.1 * v.1, b.0.2 * v.2, b.0.3 * v.3);
    lemma_mul_sum4(r.1, b.1.0 * v.0, b.1.1 * v.1, b.1.2 * v.2, b.1.3 * v.3);
    lemma_mul_sum4(r.2, b.2.0 * v.0, b.2.1 * v.1, b.2.2 * v.2, b.2.3 * v.3);
    lemma_mul_sum4(r.3, b.3.0 * v.0, b.3.1 * v.1, b.3.2 * v.2, b.3.3 * v.3);
    lemma_mul_assoc3(r.0, b.0.0, v.0);
    lemma_mul_assoc3(r.0, b.0.1, v.1);
    lemma_mul_assoc3(r.0, b.0.2, v.2);
    lemma_mul_assoc3(r.0, b.0.3, v.3);
    lemma_mul_assoc3(r.1, b.1.0, v.0);
    lemma_mul_assoc3(r.1, b.1.1, v.1);
    lemma_mul_assoc3(r.1, b.1.2, v.2);
    lemma_mul_assoc3(r.1, b.1.3, v.3);
    lemma_mul_assoc3(r.2, b.2.0, v.0);
    lemma_mul_assoc3(r.2, b.2.1, v.1);
    lemma_mul_assoc3(r.2, b.2.2, v.2);
    lemma_mul_assoc3(r.2, b.2.3, v.3);
    lemma_mul_assoc3(r.3, b.3.0, v.0);
    lemma_mul_assoc3(r.3, b.3.1, v.1);
    lemma_mul_assoc3(r.3, b.3.2, v.2);
    lemma_mul_assoc3(r.3, b.3.3, v.3);
}

/// Matrix multiplication is associative when applied to a vector:
/// `(A·B)·C·v == A·(B·(C·v))`.
pub proof fn lemma_mul_associative_on_vector(a: M4, b: M4, c: M4, v: V4)
    ensures
        mat_vec(mat_mul(mat_mul(a, b), c), v) == mat_vec(a, mat_vec(b, mat_vec(c, v))),
{
    lemma_mat_mul_vec(mat_mul(a, b), c, v);
    lemma_mat_mul_vec(a, b, mat_vec(c, v));
}

/// Matrix multiplication is associative: `(A·B)·C == A·(B·C)`.
pub proof fn lemma_mul_associative(a: M4, b: M4, c: M4)
    ensures
        mat_mul(mat_mul(a, b), c) == mat_mul(a, mat_mul(b, c)),
{
    lemma_row_mul_assoc(a.0, b, c);
    lemma_row_mul_assoc(a.1, b, c);
    lemma_row_mul_assoc(a.2, b, c);
    lemma_row_mul_assoc(a.3, b, c);
}

proof fn lemma_row_mul_assoc(r: V4, b: M4, c: M4)
    ensures
        row_mul(row_mul(r, b), c) == row_mul(r, mat_mul(b, c)),
{
    let p = row_mul(r, b);
    let bc = mat_mul(b, c);
    lemma_row_mul_dot(r, b, column(c, 0));
    lemma_row_mul_dot(r, b, column(c, 1));
    lemma_row_mul_dot(r, b, column(c, 2));
    lemma_row_mul_dot(r, b, column(c, 3));
    assert(mat_vec(b, column(c, 0)) == column(bc, 0));
    assert(mat_vec(b, column(c, 1)) == column(bc, 1));
    assert(mat_vec(b, column(c, 2)) == column(bc, 2));
    assert(mat_vec(b, column(c, 3)) == column(bc, 3));
}

/// The identity matrix leaves every vector and every matrix unchanged, on
/// either side of a product.
pub proof fn lemma_identity(m: M4, v: V4)
    ensures
        mat_vec(identity_m4(), v) == v,
        mat_mul(identity_m4(), m) == m,
        mat_mul(m, identity_m4()) == m,
{
}

/// Dot product of two vectors whose entries are within `ENTRY_LIMIT`,
/// computed without overflow.
fn dot_wide(a: Vector4<i64>, b: Vector4<i64>) -> (r: i128)
    requires
        v4_fits(a@),
        v4_fits(b@),
    ensures
        r == dot4(a@, b@),
{
    proof {
        lemma_entry_product(a.x as int, b.x as int);
        lemma_entry_product(a.y as int, b.y as int);
        lemma_entry_product(a.z as int, b.z as int);
        lemma_entry_product(a.w as int, b.w as int);
    }
    (a.x as i128) * (b.x as i128) + (a.y as i128) * (b.y as i128) + (a.z as i128) * (b.z as i128)
        + (a.w as i128) * (b.w as i128)
}

proof fn lemma_entry_product(a: int, b: int)
    requires
        entry_fits(a),
        entry_fits(b),
    ensures
        -0x1000_0000_0000_0000_0000_0000_0000_0000 <= a * b <= 0x1000_0000_0000_0000_0000_0000_0000_0000,
{
    let l: int = 0x4000_0000_0000_0000;
    let pa: int = if a >= 0 { a } else { -a };
    let pb: int = if b >= 0 { b } else { -b };
    vstd::arithmetic::mul::lemma_mul_inequality(pa, l, pb);
    vstd::arithmetic::mul::lemma_mul_inequality(pb, l, l);
    assert(pa * pb == pb * pa) by (nonlinear_arith);
    assert(pb * l == l * pb) by (nonlinear_arith);
    assert(a * b == pa * pb || a * b == -(pa * pb)) by (nonlinear_arith)
        requires
            pa == a || pa == -a,
            pb == b || pb == -b,
    ;
    assert(l * l == 0x1000_0000_0000_0000_0000_0000_0000_0000);
}

/// `v` as an `i64`, where it lies within `ENTRY_LIMIT`.
fn narrow(v: i128) -> (r: Option<i64>)
    ensures
        r.is_some() <==> entry_fits(v as int),
        r.is_some() ==> r.unwrap() == v,
{
    if -(ENTRY_LIMIT as i128) <= v && v <= ENTRY_LIMIT as i128 {
        Some(v as i64)
    } else {
        None
    }
}

impl Vector4<i64> {
    /// True when every entry lies within `ENTRY_LIMIT`.
    pub fn within_limit(&self) -> (r: bool)
        ensures
            r == v4_fits(self@),
    {
        -ENTRY_LIMIT <= self.x && self.x <= ENTRY_LIMIT && -ENTRY_LIMIT <= self.y && self.y
            <= ENTRY_LIMIT && -ENTRY_LIMIT <= self.z && self.z <= ENTRY_LIMIT && -ENTRY_LIMIT
            <= self.w && self.w <= ENTRY_LIMIT
    }
}

impl<T: Number> Matrix4<T> {
    /// The matrix with rows `x`, `y`, `z` and `w`.
    pub fn new(x: Vector4<T>, y: Vector4<T>, z: Vector4<T>, w: Vector4<T>) -> (r: Self)
        ensures
            r.x == x,
            r.y == y,
            r.z == z,
            r.w == w,
    {
        Self { x, y, z, w }
    }
}

impl Matrix4<i64> {
    pub fn identity() -> (r: Self)
        ensures
            r@ == identity_m4(),
    {
        Self::new(
            Vector4::new(1, 0, 0, 0),
            Vector4::new(0, 1, 0, 0),
            Vector4::new(0, 0, 1, 0),
            Vector4::new(0, 0, 0, 1),
        )
    }

    /// True when every entry lies within `ENTRY_LIMIT`.
    pub fn within_limit(&self) -> (r: bool)
        ensures
            r == m4_fits(self@),
    {
        self.x.within_limit() && self.y.within_limit() && self.z.within_limit()
            && self.w.within_limit()
    }

    /// Column `j` of the matrix.
    fn column(&self, j: usize) -> (r: Vector4<i64>)
        requires
            j < 4,
        ensures
            r@ == column(self@, j as int),
    {
        if j == 0 {
            Vector4::new(self.x.x, self.y.x, self.z.x, self.w.x)
        } else if j == 1 {
            Vector4::new(self.x.y, self.y.y, self.z.y, self.w.y)
        } else if j == 2 {
            Vector4::new(self.x.z, self.y.z, self.z.z, self.w.z)
        } else {
            Vector4::new(self.x.w, self.y.w, self.z.w, self.w.w)
        }
    }

    /// The product `self · v`, where the entries of both and of the result
    /// lie within `ENTRY_LIMIT`; `None` where one does not.
    pub fn mul_vec(&self, v: Vector4<i64>) -> (r: Option<Vector4<i64>>)
        ensures
            r.is_some() <==> (m4_fits(self@) && v4_fits(v@) && v4_fits(mat_vec(self@, v@))),
            r.is_some() ==> r.unwrap()@ == mat_vec(self@, v@),
    {
        if !self.within_limit() || !v.within_limit() {
            return None;
        }
        let x = narrow(dot_wide(self.x, v))?;
        let y = narrow(dot_wide(self.y, v))?;
        let z = narrow(dot_wide(self.z, v))?;
        let w = narrow(dot_wide(self.w, v))?;
        Some(Vector4::new(x, y, z, w))
    }

    /// The row vector `row · self`, or `None` where an entry of the result
    /// exceeds `ENTRY_LIMIT`.
    fn row_mul(&self, row: Vector4<i64>) -> (r: Option<Vector4<i64>>)
        requires
            m4_fits(self@),
            v4_fits(row@),
        ensures
            r.is_some() <==> v4_fits(row_mul(row@, self@)),
            r.is_some() ==> r.unwrap()@ == row_mul(row@, self@),
    {
        let x = narrow(dot_wide(row, self.column(0)))?;
        let y = narrow(dot_wide(row, self.column(1)))?;
        let z = narrow(dot_wide(row, self.column(2)))?;
        let w = narrow(dot_wide(row, self.column(3)))?;
        Some(Vector4::new(x, y, z, w))
    }

    /// The product `self · rhs`, where the entries of both factors and of the
    /// product lie within `ENTRY_LIMIT`; `None` where one does not.
    pub fn mul(&self, rhs: &Matrix4<i64>) -> (r: Option<Matrix4<i64>>)
        ensures
            r.is_some() <==> (m4_fits(self@) && m4_fits(rhs@) && m4_fits(mat_mul(self@, rhs@))),
            r.is_some() ==> r.unwrap()@ == mat_mul(self@, rhs@),
    {
        if !self.within_limit() || !rhs.within_limit() {
            return None;
        }
        let x = rhs.row_mul(self.x)?;
        let y = rhs.row_mul(self.y)?;
        let z = rhs.row_mul(self.z)?;
        let w = rhs.row_mul(self.w)?;
        Some(Matrix4::new(x, y, z, w))
    }

    /// Maps normalized device coordinates onto a `size.x` × `size.y` pixel
    /// grid, y growing downward, and z in [-1, 1] onto depth in
    /// [0, DEPTH_MAX].
    pub fn viewport(size: Vector2<i32>) -> (r: Self)
        ensures
            r@ == viewport_m4(size.x as int, size.y as int),
    {
        let w = size.x as i64;
        let h = size.y as i64;
        Self::new(
            Vector4::new(w, 0, 0, w),
            Vector4::new(0, -h, 0, h),
            Vector4::new(0, 0, DEPTH_MAX, DEPTH_MAX),
            Vector4::new(0, 0, 0, 2),
        )
    }

    /// The perspective projection for an aspect ratio of
    /// `aspect.x`:`aspect.y`, a focal length of `focal / FIXED_ONE` (the
    /// cotangent of half the vertical field of view) and clip planes at
    /// `z_near` and `z_far`.
    pub fn projection(aspect: Vector2<i64>, focal: i64, z_near: i64, z_far: i64) -> (r: Self)
        requires
            aspect.x > 0,
            aspect.y > 0,
            focal > 0,
            0 < z_near < z_far,
            m4_fits(projection_m4(aspect.x as int, aspect.y as int, focal as int, z_near as int, z_far as int)),
        ensures
            r@ == projection_m4(aspect.x as int, aspect.y as int, focal as int, z_near as int, z_far as int),
    {
        let depth = z_far - z_near;
        proof {
            let m = projection_m4(aspect.x as int, aspect.y as int, focal as int, z_near as int, z_far as int);
            assert(aspect.y * focal * depth == m.0.0);
            assert(aspect.y * focal <= aspect.y * focal * depth) by (nonlinear_arith)
                requires aspect.y > 0, focal > 0, depth > 0;
            assert(aspect.x * focal * depth == m.1.1);
            assert(aspect.x * focal <= aspect.x * focal * depth) by (nonlinear_arith)
                requires aspect.x > 0, focal > 0, depth > 0;
            assert(FIXED_ONE * aspect.x * z_far == m.2.2);
            assert(FIXED_ONE * aspect.x <= FIXED_ONE * aspect.x * z_far) by (nonlinear_arith)
                requires aspect.x > 0, z_far > 0;
            assert(FIXED_ONE * aspect.x * z_near * z_far == m.2.3);
            assert(FIXED_ONE * aspect.x * z_near <= FIXED_ONE * aspect.x * z_near * z_far) by (nonlinear_arith)
                requires aspect.x > 0, z_near > 0, z_far > 0;
            assert(FIXED_ONE * aspect.x <= FIXED_ONE * aspect.x * z_near) by (nonlinear_arith)
                requires aspect.x > 0, z_near > 0;
            assert(FIXED_ONE * aspect.x * depth == -m.3.2);
            assert(FIXED_ONE * aspect.x <= FIXED_ONE * aspect.x * depth) by (nonlinear_arith)
                requires aspect.x > 0, depth > 0;
        }
        let sx = aspect.y * focal * depth;
        let sy = aspect.x * focal * depth;
        let unit = FIXED_ONE * aspect.x;
        Self::new(
            Vector4::new(sx, 0, 0, 0),
            Vector4::new(0, sy, 0, 0),
            Vector4::new(0, 0, unit * z_far, unit * z_near * z_far),
            Vector4::new(0, 0, -(unit * depth), 0),
        )
    }

    /// Rotation about the x axis by the angle whose cosine and sine are
    /// `cos / FIXED_ONE` and `sin / FIXED_ONE`.
    pub fn rotation_x(cos: i64, sin: i64) -> (r: Self)
        requires
            sin > i64::MIN,
        ensures
            r@ == rotation_x_m4(cos as int, sin as int),
    {
        Self::new(
            Vector4::new(FIXED_ONE, 0, 0, 0),
            Vector4::new(0, cos, -sin, 0),
            Vector4::new(0, sin, cos, 0),
            Vector4::new(0, 0, 0, FIXED_ONE),
        )
    }
}

} // verus!
