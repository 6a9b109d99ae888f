//! Integer plane vectors and half-open pixel rectangles.
use vstd::prelude::*;

verus! {

pub open spec fn fits_i32(v: int) -> bool {
    i32::MIN <= v <= i32::MAX
}

/// Range of a product of two `i32` values.
proof fn lemma_i32_product(a: int, b: int)
    requires
        fits_i32(a),
        fits_i32(b),
    ensures
        -0x4000_0000_0000_0000 + 0x8000_0000 <= a * b <= 0x4000_0000_0000_0000,
{
    if (a >= 0) == (b >= 0) {
        crate::vectors::lemma_mul_bounded(a, b, 0x8000_0000, 0x8000_0000);
        assert(0 <= a * b) by (nonlinear_arith)
            requires
                (a >= 0) == (b >= 0),
        ;
    } else if a >= 0 {
        assert(0x7fff_ffff * (-0x8000_0000) <= a * b <= 0) by (nonlinear_arith)
            requires
                0 <= a <= 0x7fff_ffff,
                -0x8000_0000 <= b < 0,
        ;
    } else {
        assert((-0x8000_0000) * 0x7fff_ffff <= a * b <= 0) by (nonlinear_arith)
            requires
                -0x8000_0000 <= a < 0,
                0 <= b <= 0x7fff_ffff,
        ;
    }
}

#[derive(Clone, Copy, Debug, PartialEq, Eq, Structural)]
pub struct VecI2 {
    pub x: i32,
    pub y: i32,
}

impl VecI2 {
    pub fn new(x: i32, y: i32) -> (r: Self)
        ensures
            r.x == x,
            r.y == y,
    {
        Self { x, y }
    }

    /// Dot product.
    pub fn scalar(self, another: Self) -> (r: i32)
        requires
            fits_i32(self.x * another.x),
            fits_i32(self.y * another.y),
            fits_i32(self.x * another.x + self.y * another.y),
        ensures
            r == self.x * another.x + self.y * another.y,
    {
        self.x * another.x + self.y * another.y
    }

    /// z component of the cross product, the plane vectors lifted to 3D.
    pub fn cross(self, another: Self) -> (r: i64)
        ensures
            r == self.x * another.y - self.y * another.x,
    {
        proof {
            lemma_i32_product(self.x as int, another.y as int);
            lemma_i32_product(self.y as int, another.x as int);
        }
        (self.x as i64) * (another.y as i64) - (self.y as i64) * (another.x as i64)
    }

    pub fn add(self, another: Self) -> (r: Self)
        requires
            fits_i32(self.x + another.x),
            fits_i32(self.y + another.y),
        ensures
            r.x == self.x + another.x,
            r.y == self.y + another.y,
    {
        Self::new(self.x + another.x, self.y + another.y)
    }

    pub fn neg(self) -> (r: Self)
        requires
            self.x > i32::MIN,
            self.y > i32::MIN,
        ensures
            r.x == -self.x,
            r.y == -self.y,
    {
        Self::new(-self.x, -self.y)
    }

    pub fn sub(self, another: Self) -> (r: Self)
        requires
            fits_i32(self.x - another.x),
            fits_i32(self.y - another.y),
        ensures
            r.x == self.x - another.x,
            r.y == self.y - another.y,
    {
        Self::new(self.x - another.x, self.y - another.y)
    }
}

impl From<(i32, i32)> for VecI2 {
    fn from(item: (i32, i32)) -> (r: Self) {
        Self::new(item.0, item.1)
    }
}

impl vstd::std_specs::convert::FromSpecImpl<(i32, i32)> for VecI2 {
    open spec fn obeys_from_spec() -> bool {
        true
    }

    open spec fn from_spec(item: (i32, i32)) -> VecI2 {
        VecI2 { x: item.0, y: item.1 }
    }
}

/// A rectangle of pixels from `start` (included) to `end` (excluded).
#[derive(Clone, Copy, Debug)]
pub struct RectI2 {
    start: VecI2,
    end: VecI2,
}

impl RectI2 {
    pub closed spec fn start_spec(&self) -> VecI2 {
        self.start
    }

    pub closed spec fn end_spec(&self) -> VecI2 {
        self.end
    }

    pub open spec fn wf(&self) -> bool {
        &&& self.start_spec().x < self.end_spec().x
        &&& self.start_spec().y < self.end_spec().y
        &&& fits_i32(self.end_spec().x - self.start_spec().x)
        &&& fits_i32(self.end_spec().y - self.start_spec().y)
    }

    /// The rectangle from `start` to `end`, or `None` where it holds no
    /// pixel.
    pub fn new(start: VecI2, end: VecI2) -> (r: Option<Self>)
        requires
            fits_i32(end.x - start.x),
            fits_i32(end.y - start.y),
        ensures
            r.is_some() <==> (start.x < end.x && start.y < end.y),
            r.is_some() ==> r.unwrap().wf() && r.unwrap().start_spec() == start
                && r.unwrap().end_spec() == end,
    {
        let diff = end.sub(start);
        if diff.x > 0 && diff.y > 0 {
            Some(Self { start, end })
        } else {
            None
        }
    }

    pub fn start(&self) -> (r: VecI2)
        ensures
            r == self.start_spec(),
    {
        self.start
    }

    pub fn end(&self) -> (r: VecI2)
        ensures
            r == self.end_spec(),
    {
        self.end
    }

    /// Width and height.
    pub fn size(&self) -> (r: VecI2)
        requires
            self.wf(),
        ensures
            r.x == self.end_spec().x - self.start_spec().x,
            r.y == self.end_spec().y - self.start_spec().y,
    {
        self.end.sub(self.start)
    }

    /// The pixels of the rectangle, row by row.
    pub fn into_iter(self) -> (r: RectI2Iter)
        requires
            self.wf(),
        ensures
            r.wf(),
            r.rect_spec() == self,
            r.index_spec() == 0,
    {
        RectI2Iter::new(self)
    }
}

/// Walks the pixels of a rectangle row by row, x varying fastest.
pub struct RectI2Iter {
    rect: RectI2,
    size: VecI2,
    index: i64,
}

impl RectI2Iter {
    pub closed spec fn rect_spec(&self) -> RectI2 {
        self.rect
    }

    /// How many pixels have been yielded.
    pub closed spec fn index_spec(&self) -> int {
        self.index as int
    }

    /// Number of pixels in the rectangle.
    pub open spec fn count(&self) -> int {
        let r = self.rect_spec();
        (r.end_spec().x - r.start_spec().x) * (r.end_spec().y - r.start_spec().y)
    }

    /// Pixel `k` of the walk.
    pub open spec fn pixel(&self, k: int) -> (int, int) {
        let r = self.rect_spec();
        let w = r.end_spec().x - r.start_spec().x;
        (r.start_spec().x + k % w, r.start_spec().y + k / w)
    }

    pub closed spec fn wf(&self) -> bool {
        &&& self.rect.wf()
        &&& self.size.x == self.rect.end.x - self.rect.start.x
        &&& self.size.y == self.rect.end.y - self.rect.start.y
        &&& 0 <= self.index <= self.count()
    }

    pub fn new(rect: RectI2) -> (r: Self)
        requires
            rect.wf(),
        ensures
            r.wf(),
            r.rect_spec() == rect,
            r.index_spec() == 0,
    {
        let size = rect.size();
        proof {
            assert(0 <= size.x * size.y) by (nonlinear_arith)
                requires
                    size.x > 0,
                    size.y > 0,
            ;
        }
        Self { rect, size, index: 0 }
    }

    pub fn rect(&self) -> (r: RectI2)
        ensures
            r == self.rect_spec(),
    {
        self.rect
    }

    /// Pixel number `index` of the walk, after which the walk moves on;
    /// `None` once all the pixels have been yielded.
    pub fn next(&mut self) -> (r: Option<VecI2>)
        requires
            old(self).wf(),
        ensures
            final(self).wf(),
            final(self).rect_spec() == old(self).rect_spec(),
            old(self).index_spec() >= old(self).count() ==> r.is_none()
                && final(self).index_spec() == old(self).index_spec(),
            old(self).index_spec() < old(self).count() ==> {
                &&& r.is_some()
                &&& (r.unwrap().x as int, r.unwrap().y as int) == old(self).pixel(
                    old(self).index_spec(),
                )
                &&& final(self).index_spec() == old(self).index_spec() + 1
            },
    {
        let w = self.size.x as i64;
        let h = self.size.y as i64;
        proof {
            assert(w * h <= 0x4000_0000_0000_0000) by (nonlinear_arith)
                requires
                    0 < w <= i32::MAX,
                    0 < h <= i32::MAX,
            ;
        }
        if self.index >= w * h {
            return None;
        }
        let start = self.rect.start();
        proof {
            let k = self.index as int;
            let w = w as int;
            let h = h as int;
            vstd::arithmetic::div_mod::lemma_div_pos_is_pos(k, w);
            vstd::arithmetic::div_mod::lemma_fundamental_div_mod(k, w);
            vstd::arithmetic::div_mod::lemma_mod_pos_bound(k, w);
            assert(k / w < h) by (nonlinear_arith)
                requires
                    0 <= k < w * h,
                    k == w * (k / w) + k % w,
                    0 <= k % w,
                    w > 0,
            ;
        }
        let output = VecI2::new(
            start.x + (self.index % w) as i32,
            start.y + (self.index / w) as i32,
        );
        self.index = self.index + 1;
        Some(output)
    }
}

} // verus!
