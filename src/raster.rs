//! Triangle setup and scan conversion.
//!
//! A triangle arrives as three clip-space vertices. Setup divides them by
//! their w components, rejects back-facing triangles and builds the bounding
//! rectangle; scan conversion walks that rectangle row by row and yields a
//! fragment for each pixel strictly inside all three edges, carrying exact
//! perspective-correct barycentric weights and an interpolated depth.
//!
//! Weights are kept as integer numerators over a shared positive total, so
//! they sum to exactly one. Only the ratios of the three w components matter
//! to them, and setup divides the w components by their common factor,
//! which integer transforms otherwise carry into every w. Vertices whose
//! coordinates exceed `COORD_LIMIT` are rejected like back faces.
use vstd::prelude::*;
use crate::vectors::{
    Vector2, Vector3, Vector4, cross2, quot, homogeneous_divisor, lemma_quot_bounded, lemma_mul_bounded,
};

verus! {

/// Bound on the magnitude of screen-space coordinates, depths and w
/// components that triangle setup accepts; within it every edge function and
/// every weight is computed exactly.
pub const COORD_LIMIT: i64 = 0x100_0000;

pub open spec fn coord_fits(v: int) -> bool {
    -COORD_LIMIT <= v <= COORD_LIMIT
}

/// Row-major order of pixels: `a` comes before `b`.
pub open spec fn before(a: (int, int), b: (int, int)) -> bool {
    a.1 < b.1 || (a.1 == b.1 && a.0 < b.0)
}

/// Mathematical form of a rectangle: its two corners.
pub ghost struct RectView {
    pub start: (int, int),
    pub end: (int, int),
}

impl RectView {
    /// The least corner.
    pub open spec fn low(self) -> (int, int) {
        (
            if self.start.0 <= self.end.0 { self.start.0 } else { self.end.0 },
            if self.start.1 <= self.end.1 { self.start.1 } else { self.end.1 },
        )
    }

    /// The greatest corner.
    pub open spec fn high(self) -> (int, int) {
        (
            if self.start.0 <= self.end.0 { self.end.0 } else { self.start.0 },
            if self.start.1 <= self.end.1 { self.end.1 } else { self.start.1 },
        )
    }
}

/// An axis-aligned rectangle of pixels, both corners included.
#[derive(Clone, Copy, Debug)]
pub struct Rect2 {
    start: Vector2<i64>,
    end: Vector2<i64>,
}

impl View for Rect2 {
    type V = RectView;

    closed spec fn view(&self) -> RectView {
        RectView {
            start: (self.start.x as int, self.start.y as int),
            end: (self.end.x as int, self.end.y as int),
        }
    }
}

impl Rect2 {
    /// True when both corners lie within `COORD_LIMIT`.
    pub closed spec fn wf(&self) -> bool {
        coord_fits(self.start.x as int) && coord_fits(self.start.y as int) && coord_fits(
            self.end.x as int,
        ) && coord_fits(self.end.y as int)
    }

    /// The rectangle with corners `start` and `end`, in either order, or
    /// `None` where it has no extent along x or along y.
    pub fn new(start: Vector2<i64>, end: Vector2<i64>) -> (r: Option<Self>)
        requires
            coord_fits(start.x as int),
            coord_fits(start.y as int),
            coord_fits(end.x as int),
            coord_fits(end.y as int),
        ensures
            r.is_some() <==> (start.x != end.x && start.y != end.y),
            r.is_some() ==> r.unwrap().wf(),
            r.is_some() ==> r.unwrap()@ == (RectView {
                start: (start.x as int, start.y as int),
                end: (end.x as int, end.y as int),
            }),
    {
        if start.x == end.x || start.y == end.y {
            return None;
        }
        Some(Self { start, end })
    }

    pub fn start(&self) -> (r: Vector2<i64>)
        ensures
            (r.x as int, r.y as int) == self@.start,
    {
        self.start
    }

    pub fn end(&self) -> (r: Vector2<i64>)
        ensures
            (r.x as int, r.y as int) == self@.end,
    {
        self.end
    }

    /// The pixels of the rectangle, row by row.
    pub fn into_iter(self) -> (r: Rect2Iter)
        requires
            self.wf(),
        ensures
            r.wf(),
            r.low() == self@.low(),
            r.high() == self@.high(),
            r.current() == self@.low(),
    {
        Rect2Iter::new(self)
    }
}

/// Walks the pixels of a rectangle row by row, x varying fastest.
#[derive(Debug)]
pub struct Rect2Iter {
    start: Vector2<i64>,
    end: Vector2<i64>,
    current: Vector2<i64>,
}

impl Rect2Iter {
    /// First pixel of the rectangle.
    pub closed spec fn low(&self) -> (int, int) {
        (self.start.x as int, self.start.y as int)
    }

    /// Last pixel of the rectangle.
    pub closed spec fn high(&self) -> (int, int) {
        (self.end.x as int, self.end.y as int)
    }

    /// The pixel that `next` yields, or the one past the last row when the
    /// walk is over.
    pub closed spec fn current(&self) -> (int, int) {
        (self.current.x as int, self.current.y as int)
    }

    pub open spec fn done(&self) -> bool {
        self.current().1 > self.high().1
    }

    /// The pixel after `p` in row-major order.
    pub open spec fn successor(&self, p: (int, int)) -> (int, int) {
        if p.0 + 1 > self.high().0 {
            (self.low().0, p.1 + 1)
        } else {
            (p.0 + 1, p.1)
        }
    }

    pub open spec fn wf(&self) -> bool {
        &&& coord_fits(self.low().0)
        &&& coord_fits(self.low().1)
        &&& coord_fits(self.high().0)
        &&& coord_fits(self.high().1)
        &&& self.low().0 <= self.high().0
        &&& self.low().1 <= self.high().1
        &&& self.low().0 <= self.current().0 <= self.high().0
        &&& self.low().1 <= self.current().1 <= self.high().1 + 1
        &&& self.done() ==> self.current().0 == self.low().0
    }

    pub fn new(rect: Rect2) -> (r: Self)
        requires
            rect.wf(),
        ensures
            r.wf(),
            r.low() == rect@.low(),
            r.high() == rect@.high(),
            r.current() == rect@.low(),
    {
        let start = rect.start();
        let end = rect.end();
        let (start_x, end_x) = if start.x < end.x {
            (start.x, end.x)
        } else {
            (end.x, start.x)
        };
        let (start_y, end_y) = if start.y < end.y {
            (start.y, end.y)
        } else {
            (end.y, start.y)
        };
        let start = Vector2::new(start_x, start_y);
        let end = Vector2::new(end_x, end_y);
        Self { start, end, current: start }
    }

    /// The current pixel, after which the walk moves one pixel on; `None`
    /// once every pixel has been yielded.
    pub fn next(&mut self) -> (r: Option<Vector2<i64>>)
        requires
            old(self).wf(),
        ensures
            final(self).wf(),
            final(self).low() == old(self).low(),
            final(self).high() == old(self).high(),
            old(self).done() ==> r.is_none() && final(self).current() == old(self).current(),
            !old(self).done() ==> r.is_some() && (r.unwrap().x as int, r.unwrap().y as int)
                == old(self).current() && final(self).current() == old(self).successor(
                old(self).current(),
            ),
    {
        if self.current.y > self.end.y {
            return None;
        }
        let result = self.current;
        self.current.x = self.current.x + 1;
        if self.current.x > self.end.x {
            self.current.x = self.start.x;
            self.current.y = self.current.y + 1;
        }
        Some(result)
    }
}


/// The walk over the pixels from (0, 0) to (100, 100), both included.
pub fn _test_iter() -> (r: Rect2Iter)
    ensures
        r.wf(),
        r.low() == (0int, 0int),
        r.high() == (100int, 100int),
        r.current() == (0int, 0int),
{
    let rect = Rect2::new(Vector2::new(0, 0), Vector2::new(100, 100));
    Rect2Iter::new(rect.unwrap())
}

/// Mathematical form of a set-up triangle: its screen-space vertices
/// (x, y in pixels, z the depth) and the clip-space w components they were
/// divided by.
pub ghost struct TriangleView {
    pub v0: (int, int, int),
    pub v1: (int, int, int),
    pub v2: (int, int, int),
    pub w0: int,
    pub w1: int,
    pub w2: int,
}

pub open spec fn min3(a: int, b: int, c: int) -> int {
    if a <= b && a <= c {
        a
    } else if b <= c {
        b
    } else {
        c
    }
}

pub open spec fn max3(a: int, b: int, c: int) -> int {
    if a >= b && a >= c {
        a
    } else if b >= c {
        b
    } else {
        c
    }
}

impl TriangleView {
    /// Vertex `i`, for `i` in 0..3.
    pub open spec fn vertex(self, i: int) -> (int, int, int) {
        if i == 0 {
            self.v0
        } else if i == 1 {
            self.v1
        } else {
            self.v2
        }
    }

    /// Edge function of the edge from vertex `i` to vertex `i + 1` (mod 3)
    /// at pixel `p`: positive on the inner side of a counter-clockwise
    /// triangle.
    pub open spec fn edge(self, i: int, p: (int, int)) -> int {
        let a = self.vertex(i);
        let b = self.vertex(if i == 2 { 0 } else { i + 1 });
        cross2(b.0 - a.0, b.1 - a.1, p.0 - a.0, p.1 - a.1)
    }

    /// Twice the signed area.
    pub open spec fn area2(self) -> int {
        self.edge(0, (self.v2.0, self.v2.1))
    }

    pub open spec fn low(self) -> (int, int) {
        (min3(self.v0.0, self.v1.0, self.v2.0), min3(self.v0.1, self.v1.1, self.v2.1))
    }

    pub open spec fn high(self) -> (int, int) {
        (max3(self.v0.0, self.v1.0, self.v2.0), max3(self.v0.1, self.v1.1, self.v2.1))
    }

    pub open spec fn in_rect(self, p: (int, int)) -> bool {
        self.low().0 <= p.0 <= self.high().0 && self.low().1 <= p.1 <= self.high().1
    }

    /// Strictly inside all three edges.
    pub open spec fn inside(self, p: (int, int)) -> bool {
        self.edge(0, p) > 0 && self.edge(1, p) > 0 && self.edge(2, p) > 0
    }

    /// The common factor of the three w components. Only their ratios enter
    /// the perspective-correct weights; a homogeneous transform scaled to
    /// integer entries otherwise leaves that factor in every w.
    pub open spec fn w_scale(self) -> nat {
        gcd(gcd(abs_nat(self.w0), abs_nat(self.w1)), abs_nat(self.w2))
    }

    /// The w components divided by their common factor.
    pub open spec fn reduced_w(self) -> (int, int, int) {
        (
            reduce_w(self.w0, self.w_scale()),
            reduce_w(self.w1, self.w_scale()),
            reduce_w(self.w2, self.w_scale()),
        )
    }

    /// Barycentric weights of the three vertices before normalisation, each
    /// the edge function opposite the vertex divided by the vertex's w, all
    /// multiplied by the product of the three w components divided by the cube
    /// of their common factor.
    pub open spec fn numerators(self, p: (int, int)) -> (int, int, int) {
        let r = self.reduced_w();
        (
            self.edge(1, p) * r.1 * r.2,
            self.edge(2, p) * r.0 * r.2,
            self.edge(0, p) * r.0 * r.1,
        )
    }

    pub open spec fn numerator_sum(self, p: (int, int)) -> int {
        let n = self.numerators(p);
        n.0 + n.1 + n.2
    }

    /// A fragment comes from pixel `p`: it lies inside the triangle and its
    /// weights can be normalised.
    pub open spec fn yields(self, p: (int, int)) -> bool {
        self.in_rect(p) && self.inside(p) && self.numerator_sum(p) != 0
    }

    /// `f` is the fragment of pixel `p`: weights `f.coefs / f.total` with a
    /// positive `f.total`, and the depth those weights give, rounded toward
    /// zero.
    pub open spec fn is_fragment(self, p: (int, int), f: Fragment) -> bool {
        let n = self.numerators(p);
        let keep = self.numerator_sum(p) > 0;
        &&& f.position.x == p.0
        &&& f.position.y == p.1
        &&& f.coefs.x == signed(keep, n.0)
        &&& f.coefs.y == signed(keep, n.1)
        &&& f.coefs.z == signed(keep, n.2)
        &&& f.total == signed(keep, self.numerator_sum(p))
        &&& f.depth == quot(
            signed(keep, n.0 * self.v0.2 + n.1 * self.v1.2 + n.2 * self.v2.2),
            signed(keep, self.numerator_sum(p)),
        )
    }
}

/// Weights within the range that scan conversion produces, summing to a
/// positive total.
pub open spec fn fragment_fits(f: Fragment) -> bool {
    let m: int = 0x8_0000_0000_0000_0000_0000_0000;
    &&& -m <= f.coefs.x <= m
    &&& -m <= f.coefs.y <= m
    &&& -m <= f.coefs.z <= m
    &&& f.total > 0
    &&& f.total == f.coefs.x + f.coefs.y + f.coefs.z
}

/// `v`, or its negation where `keep` is false.
pub open spec fn signed(keep: bool, v: int) -> int {
    if keep {
        v
    } else {
        -v
    }
}

/// Screen-space position of a clip-space vertex: its homogeneous divide.
pub open spec fn screen_of(v: Vector4<i64>) -> (int, int, int) {
    let d = homogeneous_divisor(v.w as int);
    (quot(v.x as int, d), quot(v.y as int, d), quot(v.z as int, d))
}

pub open spec fn vertex_fits(v: Vector4<i64>) -> bool {
    let s = screen_of(v);
    &&& v.x > i64::MIN
    &&& v.y > i64::MIN
    &&& v.z > i64::MIN
    &&& v.w > i64::MIN
    &&& coord_fits(s.0)
    &&& coord_fits(s.1)
    &&& coord_fits(s.2)
}

/// Greatest common divisor.
pub open spec fn gcd(a: nat, b: nat) -> nat
    decreases b,
{
    if b == 0 {
        a
    } else {
        gcd(b, a % b)
    }
}

proof fn lemma_gcd_le(a: nat, b: nat)
    ensures
        gcd(a, b) <= if a >= b { a } else { b },
    decreases b,
{
    if b != 0 {
        lemma_gcd_le(b, a % b);
    }
}

proof fn lemma_multiple(x: int, d: int)
    requires
        d > 0,
        x % d == 0,
    ensures
        x == d * (x / d),
{
    vstd::arithmetic::div_mod::lemma_fundamental_div_mod(x, d);
}

proof fn lemma_divides_trans(x: int, g: int, h: int)
    requires
        g > 0,
        h > 0,
        x % g == 0,
        g % h == 0,
    ensures
        x % h == 0,
{
    lemma_multiple(x, g);
    lemma_multiple(g, h);
    let k = (g / h) * (x / g);
    assert(x == k * h) by (nonlinear_arith)
        requires
            x == g * (x / g),
            g == h * (g / h),
            k == (g / h) * (x / g),
    ;
    vstd::arithmetic::div_mod::lemma_mod_multiples_basic(k, h);
}

/// The greatest common divisor divides both arguments, and is positive
/// unless both are 0.
proof fn lemma_gcd_divides(a: nat, b: nat)
    ensures
        a > 0 || b > 0 ==> gcd(a, b) > 0 && a % gcd(a, b) == 0 && b % gcd(a, b) == 0,
    decreases b,
{
    if b == 0 {
        if a > 0 {
            vstd::arithmetic::div_mod::lemma_mod_self_0(a as int);
            vstd::arithmetic::div_mod::lemma_mod_multiples_basic(0, a as int);
        }
    } else {
        let r = a % b;
        lemma_gcd_divides(b, r);
        let g = gcd(b, r) as int;
        let (a, b, r) = (a as int, b as int, r as int);
        lemma_multiple(b, g);
        lemma_multiple(r, g);
        vstd::arithmetic::div_mod::lemma_fundamental_div_mod(a, b);
        let k = (b / g) * (a / b) + (r / g);
        assert(a == k * g) by (nonlinear_arith)
            requires
                a == b * (a / b) + r,
                b == g * (b / g),
                r == g * (r / g),
                k == (b / g) * (a / b) + (r / g),
        ;
        vstd::arithmetic::div_mod::lemma_mod_multiples_basic(k, g);
    }
}

/// Dividing the w components by their common factor keeps each one's sign.
pub proof fn lemma_reduced_w_sign(vertices: [Vector4<i64>; 3])
    ensures
        vertices[0].w > 0 ==> view_of(vertices).reduced_w().0 > 0,
        vertices[0].w < 0 ==> view_of(vertices).reduced_w().0 < 0,
        vertices[1].w > 0 ==> view_of(vertices).reduced_w().1 > 0,
        vertices[1].w < 0 ==> view_of(vertices).reduced_w().1 < 0,
        vertices[2].w > 0 ==> view_of(vertices).reduced_w().2 > 0,
        vertices[2].w < 0 ==> view_of(vertices).reduced_w().2 < 0,
{
    let a = abs_nat(vertices[0].w as int);
    let b = abs_nat(vertices[1].w as int);
    let c = abs_nat(vertices[2].w as int);
    let g2 = gcd(a, b);
    let g = gcd(g2, c);
    lemma_gcd_divides(a, b);
    lemma_gcd_divides(g2, c);
    if a > 0 {
        lemma_divides_trans(a as int, g2 as int, g as int);
        lemma_reduce_keeps_sign(vertices[0].w as int, g);
    }
    if b > 0 {
        lemma_divides_trans(b as int, g2 as int, g as int);
        lemma_reduce_keeps_sign(vertices[1].w as int, g);
    }
    if c > 0 {
        lemma_reduce_keeps_sign(vertices[2].w as int, g);
    }
}

proof fn lemma_reduce_keeps_sign(w: int, g: nat)
    requires
        g > 0,
        (abs_nat(w) as int) % (g as int) == 0,
    ensures
        w > 0 ==> reduce_w(w, g) > 0,
        w < 0 ==> reduce_w(w, g) < 0,
{
    let m = abs_nat(w) as int;
    if m > 0 {
        lemma_multiple(m, g as int);
        assert(m / (g as int) >= 1) by (nonlinear_arith)
            requires
                m == g * (m / (g as int)),
                m > 0,
                g > 0,
        ;
    }
}

pub open spec fn abs_nat(v: int) -> nat {
    if v < 0 {
        (-v) as nat
    } else {
        v as nat
    }
}

/// `w` divided by the common factor `g` (unchanged where `g` is 0).
pub open spec fn reduce_w(w: int, g: nat) -> int {
    if g == 0 {
        w
    } else {
        quot(w, g as int)
    }
}

/// The triangle that three clip-space vertices describe.
pub open spec fn view_of(vertices: [Vector4<i64>; 3]) -> TriangleView {
    TriangleView {
        v0: screen_of(vertices[0]),
        v1: screen_of(vertices[1]),
        v2: screen_of(vertices[2]),
        w0: vertices[0].w as int,
        w1: vertices[1].w as int,
        w2: vertices[2].w as int,
    }
}

/// Triangle setup accepts `vertices`: they lie in the representable range,
/// the triangle is wound counter-clockwise or degenerate (signed area not
/// negative), and its bounding rectangle has extent along both axes.
pub open spec fn accepts(vertices: [Vector4<i64>; 3]) -> bool {
    let t = view_of(vertices);
    &&& vertex_fits(vertices[0])
    &&& vertex_fits(vertices[1])
    &&& vertex_fits(vertices[2])
    &&& coord_fits(t.reduced_w().0)
    &&& coord_fits(t.reduced_w().1)
    &&& coord_fits(t.reduced_w().2)
    &&& t.area2() >= 0
    &&& t.low().0 != t.high().0
    &&& t.low().1 != t.high().1
}

/// A pixel that passed the inside test, with its depth and its
/// perspective-correct barycentric weights `coefs / total`.
#[derive(Clone, Copy, Debug)]
pub struct Fragment {
    pub position: Vector2<i64>,
    pub depth: i128,
    pub coefs: Vector3<i128>,
    pub total: i128,
}

/// A triangle ready for scan conversion.
#[derive(Clone, Copy, Debug)]
pub struct Triangle {
    vertices: [Vector3<i64>; 3],
    segments: [Vector3<i64>; 3],
    ws: Vector3<i64>,
    reduced_ws: Vector3<i64>,
    rect: Rect2,
}

impl View for Triangle {
    type V = TriangleView;

    closed spec fn view(&self) -> TriangleView {
        TriangleView {
            v0: (self.vertices[0].x as int, self.vertices[0].y as int, self.vertices[0].z as int),
            v1: (self.vertices[1].x as int, self.vertices[1].y as int, self.vertices[1].z as int),
            v2: (self.vertices[2].x as int, self.vertices[2].y as int, self.vertices[2].z as int),
            w0: self.ws.x as int,
            w1: self.ws.y as int,
            w2: self.ws.z as int,
        }
    }
}

/// Every coordinate of three screen-space points lies within `COORD_LIMIT`.
pub open spec fn screen_fits(vs: [Vector3<i64>; 3]) -> bool {
    &&& coord_fits(vs[0].x as int) && coord_fits(vs[0].y as int) && coord_fits(vs[0].z as int)
    &&& coord_fits(vs[1].x as int) && coord_fits(vs[1].y as int) && coord_fits(vs[1].z as int)
    &&& coord_fits(vs[2].x as int) && coord_fits(vs[2].y as int) && coord_fits(vs[2].z as int)
}

pub open spec fn view_fits(t: TriangleView) -> bool {
    &&& coord_fits(t.v0.0) && coord_fits(t.v0.1) && coord_fits(t.v0.2)
    &&& coord_fits(t.v1.0) && coord_fits(t.v1.1) && coord_fits(t.v1.2)
    &&& coord_fits(t.v2.0) && coord_fits(t.v2.1) && coord_fits(t.v2.2)
    &&& coord_fits(t.reduced_w().0) && coord_fits(t.reduced_w().1) && coord_fits(t.reduced_w().2)
}

impl Triangle {
    pub closed spec fn wf(&self) -> bool {
        let t = self@;
        &&& view_fits(t)
        &&& t.area2() >= 0
        &&& t.low().0 != t.high().0
        &&& t.low().1 != t.high().1
        &&& self.rect.wf()
        &&& self.reduced_ws.x == t.reduced_w().0
        &&& self.reduced_ws.y == t.reduced_w().1
        &&& self.reduced_ws.z == t.reduced_w().2
        &&& self.rect@ == (RectView { start: t.low(), end: t.high() })
        &&& self.segments[0].x == t.v1.0 - t.v0.0 && self.segments[0].y == t.v1.1 - t.v0.1
        &&& self.segments[1].x == t.v2.0 - t.v1.0 && self.segments[1].y == t.v2.1 - t.v1.1
        &&& self.segments[2].x == t.v0.0 - t.v2.0 && self.segments[2].y == t.v0.1 - t.v2.1
    }

    /// Sets up the triangle with clip-space `vertices`: divides each by its
    /// w, and returns `None` where the triangle is wound clockwise, its
    /// bounding rectangle is flat, or a coordinate lies outside
    /// `COORD_LIMIT`.
    pub fn new(vertices: [Vector4<i64>; 3]) -> (r: Option<Self>)
        ensures
            r.is_some() <==> accepts(vertices),
            r.is_some() ==> r.unwrap().wf() && r.unwrap()@ == view_of(vertices),
    {
        if !Self::fits(&vertices) {
            return None;
        }
        let g = gcd_u64(
            gcd_u64(abs_u64(vertices[0].w), abs_u64(vertices[1].w)),
            abs_u64(vertices[2].w),
        );
        proof {
            lemma_gcd_le(abs_nat(vertices[0].w as int), abs_nat(vertices[1].w as int));
            lemma_gcd_le(
                gcd(abs_nat(vertices[0].w as int), abs_nat(vertices[1].w as int)),
                abs_nat(vertices[2].w as int),
            );
        }
        let ws = Vector3::new(vertices[0].w, vertices[1].w, vertices[2].w);
        let reduced_ws = Vector3::new(
            reduce_w_exec(vertices[0].w, g),
            reduce_w_exec(vertices[1].w, g),
            reduce_w_exec(vertices[2].w, g),
        );
        if reduced_ws.x < -COORD_LIMIT || reduced_ws.x > COORD_LIMIT || reduced_ws.y < -COORD_LIMIT
            || reduced_ws.y > COORD_LIMIT || reduced_ws.z < -COORD_LIMIT || reduced_ws.z
            > COORD_LIMIT {
            return None;
        }
        let vertices: [Vector3<i64>; 3] = [
            vertices[0].to_cartesian(),
            vertices[1].to_cartesian(),
            vertices[2].to_cartesian(),
        ];
        let segments = Self::segments(&vertices);
        let rect = match Self::get_rect(&vertices) {
            Some(rect) => rect,
            None => return None,
        };
        if Self::check(&vertices, &segments) {
            Some(Self { vertices, segments, ws, reduced_ws, rect })
        } else {
            None
        }
    }

    fn fits(vertices: &[Vector4<i64>; 3]) -> (r: bool)
        ensures
            r == (vertex_fits(vertices[0]) && vertex_fits(vertices[1]) && vertex_fits(vertices[2])),
    {
        let mut i: usize = 0;
        while i < 3
            invariant
                i <= 3,
                forall|j: int| 0 <= j < i ==> vertex_fits(#[trigger] vertices[j]),
            decreases 3 - i,
        {
            let v = vertices[i];
            if v.x == i64::MIN || v.y == i64::MIN || v.z == i64::MIN || v.w == i64::MIN {
                return false;
            }
            let s = v.to_cartesian();
            if s.x < -COORD_LIMIT || s.x > COORD_LIMIT || s.y < -COORD_LIMIT || s.y > COORD_LIMIT
                || s.z < -COORD_LIMIT || s.z > COORD_LIMIT {
                return false;
            }
            i = i + 1;
        }
        true
    }

    /// The edge vectors `v1 - v0`, `v2 - v1` and `v0 - v2`.
    fn segments(vertices: &[Vector3<i64>; 3]) -> (r: [Vector3<i64>; 3])
        requires
            screen_fits(*vertices),
        ensures
            forall|i: int|
                0 <= i < 3 ==> {
                    let a = vertices[i];
                    let b = vertices[if i == 2 { 0 } else { i + 1 }];
                    &&& (#[trigger] r[i]).x == b.x - a.x
                    &&& r[i].y == b.y - a.y
                    &&& r[i].z == b.z - a.z
                },
    {
        let p1 = vertices[1].sub(vertices[0]);
        let p2 = vertices[2].sub(vertices[1]);
        let p3 = vertices[0].sub(vertices[2]);
        [p1, p2, p3]
    }

    /// Winding test: for each edge, the cross product of the edge with the
    /// vector from its first vertex to the centroid is not negative. The
    /// centroid is taken three times over so that it stays an integer.
    fn check(vertices: &[Vector3<i64>; 3], segments: &[Vector3<i64>; 3]) -> (r: bool)
        requires
            screen_fits(*vertices),
            forall|i: int|
                0 <= i < 3 ==> {
                    let a = vertices[i];
                    let b = vertices[if i == 2 { 0 } else { i + 1 }];
                    &&& (#[trigger] segments[i]).x == b.x - a.x
                    &&& segments[i].y == b.y - a.y
                },
        ensures
            r == (cross2(
                vertices[1].x - vertices[0].x,
                vertices[1].y - vertices[0].y,
                vertices[2].x - vertices[0].x,
                vertices[2].y - vertices[0].y,
            ) >= 0),
    {
        let sum_x = vertices[0].x + vertices[1].x + vertices[2].x;
        let sum_y = vertices[0].y + vertices[1].y + vertices[2].y;
        proof {
            lemma_centroid_cross(vertices[0].x as int, vertices[0].y as int, vertices[1].x as int,
                vertices[1].y as int, vertices[2].x as int, vertices[2].y as int);
            assert(segments[0].x == vertices[1].x - vertices[0].x);
            assert(segments[1].x == vertices[2].x - vertices[1].x);
            assert(segments[2].x == vertices[0].x - vertices[2].x);
        }
        let c0 = Self::winding_term(segments[0], sum_x, sum_y, vertices[0]);
        let c1 = Self::winding_term(segments[1], sum_x, sum_y, vertices[1]);
        let c2 = Self::winding_term(segments[2], sum_x, sum_y, vertices[2]);
        c0 >= 0 && c1 >= 0 && c2 >= 0
    }

    /// Cross product of an edge with three times the vector from its first
    /// vertex `v` to the centroid, whose coordinates sum to `sum_x`, `sum_y`.
    fn winding_term(segment: Vector3<i64>, sum_x: i64, sum_y: i64, v: Vector3<i64>) -> (r: i64)
        requires
            -0x200_0000 <= segment.x <= 0x200_0000,
            -0x200_0000 <= segment.y <= 0x200_0000,
            -0x300_0000 <= sum_x <= 0x300_0000,
            -0x300_0000 <= sum_y <= 0x300_0000,
            coord_fits(v.x as int),
            coord_fits(v.y as int),
        ensures
            r == cross2(segment.x as int, segment.y as int, sum_x - 3 * v.x, sum_y - 3 * v.y),
    {
        let delta = Vector2::new(sum_x - 3 * v.x, sum_y - 3 * v.y);
        proof {
            lemma_mul_bounded(segment.x as int, delta.y as int, 0x200_0000, 0x600_0000);
            lemma_mul_bounded(segment.y as int, delta.x as int, 0x200_0000, 0x600_0000);
        }
        segment.xy().cross(delta)
    }

    /// Bounding rectangle of the vertices, or `None` where it is flat.
    fn get_rect(vertices: &[Vector3<i64>; 3]) -> (r: Option<Rect2>)
        requires
            screen_fits(*vertices),
        ensures
            ({
                let low = (
                    min3(vertices[0].x as int, vertices[1].x as int, vertices[2].x as int),
                    min3(vertices[0].y as int, vertices[1].y as int, vertices[2].y as int),
                );
                let high = (
                    max3(vertices[0].x as int, vertices[1].x as int, vertices[2].x as int),
                    max3(vertices[0].y as int, vertices[1].y as int, vertices[2].y as int),
                );
                &&& r.is_some() <==> (low.0 != high.0 && low.1 != high.1)
                &&& r.is_some() ==> r.unwrap().wf() && r.unwrap()@ == (RectView {
                    start: low,
                    end: high,
                })
            }),
    {
        let (max_x, min_x) = get_max_min([vertices[0].x, vertices[1].x, vertices[2].x]);
        let (max_y, min_y) = get_max_min([vertices[0].y, vertices[1].y, vertices[2].y]);
        let start = Vector2::new(min_x, min_y);
        let end = Vector2::new(max_x, max_y);
        Rect2::new(start, end)
    }


    /// The fragments of the triangle, row by row.
    pub fn into_iter(self) -> (r: TriangleIter)
        requires
            self.wf(),
        ensures
            r.wf(),
            r.cursor_in_walk(),
            r.triangle() == self@,
            r.cursor() == self@.low(),
    {
        TriangleIter::new(self)
    }
}

fn abs_u64(v: i64) -> (r: u64)
    requires
        v > i64::MIN,
    ensures
        r == abs_nat(v as int),
{
    if v < 0 {
        (-v) as u64
    } else {
        v as u64
    }
}

fn gcd_u64(a: u64, b: u64) -> (r: u64)
    ensures
        r == gcd(a as nat, b as nat),
{
    let mut x = a;
    let mut y = b;
    while y != 0
        invariant
            gcd(x as nat, y as nat) == gcd(a as nat, b as nat),
        decreases y,
    {
        let m = x % y;
        x = y;
        y = m;
    }
    x
}

fn reduce_w_exec(w: i64, g: u64) -> (r: i64)
    requires
        w > i64::MIN,
        g <= i64::MAX,
    ensures
        r == reduce_w(w as int, g as nat),
{
    if g == 0 {
        w
    } else {
        w / (g as i64)
    }
}

/// Each of the three winding terms equals twice the signed area.
proof fn lemma_centroid_cross(x0: int, y0: int, x1: int, y1: int, x2: int, y2: int)
    ensures
        cross2(x1 - x0, y1 - y0, (x0 + x1 + x2) - 3 * x0, (y0 + y1 + y2) - 3 * y0) == cross2(
            x1 - x0,
            y1 - y0,
            x2 - x0,
            y2 - y0,
        ),
        cross2(x2 - x1, y2 - y1, (x0 + x1 + x2) - 3 * x1, (y0 + y1 + y2) - 3 * y1) == cross2(
            x1 - x0,
            y1 - y0,
            x2 - x0,
            y2 - y0,
        ),
        cross2(x0 - x2, y0 - y2, (x0 + x1 + x2) - 3 * x2, (y0 + y1 + y2) - 3 * y2) == cross2(
            x1 - x0,
            y1 - y0,
            x2 - x0,
            y2 - y0,
        ),
{
    assert(cross2(x1 - x0, y1 - y0, (x0 + x1 + x2) - 3 * x0, (y0 + y1 + y2) - 3 * y0) == cross2(
        x1 - x0,
        y1 - y0,
        x2 - x0,
        y2 - y0,
    )) by (nonlinear_arith);
    assert(cross2(x2 - x1, y2 - y1, (x0 + x1 + x2) - 3 * x1, (y0 + y1 + y2) - 3 * y1) == cross2(
        x1 - x0,
        y1 - y0,
        x2 - x0,
        y2 - y0,
    )) by (nonlinear_arith);
    assert(cross2(x0 - x2, y0 - y2, (x0 + x1 + x2) - 3 * x2, (y0 + y1 + y2) - 3 * y2) == cross2(
        x1 - x0,
        y1 - y0,
        x2 - x0,
        y2 - y0,
    )) by (nonlinear_arith);
}

/// The greatest and the least of three values.
pub fn get_max_min(coords: [i64; 3]) -> (r: (i64, i64))
    ensures
        r.0 == max3(coords[0] as int, coords[1] as int, coords[2] as int),
        r.1 == min3(coords[0] as int, coords[1] as int, coords[2] as int),
{
    let mut max = coords[0];
    let mut min = coords[0];
    if coords[1] > max {
        max = coords[1];
    }
    if coords[2] > max {
        max = coords[2];
    }
    if coords[1] < min {
        min = coords[1];
    }
    if coords[2] < min {
        min = coords[2];
    }
    (max, min)
}

/// A linear function of the offset `(dx, dy)` from a start pixel: the value
/// there plus `dx` and `dy` times the function's slopes.
#[derive(Clone, Copy, Debug)]
struct LinearInterpolator {
    start: i64,
    dx: i64,
    dy: i64,
}

impl LinearInterpolator {
    fn new(start: i64, dx: i64, dy: i64) -> (r: Self)
        ensures
            r.start == start,
            r.dx == dx,
            r.dy == dy,
    {
        Self { start, dx, dy }
    }

    fn calc(&self, dx: i64, dy: i64) -> (r: i64)
        requires
            -0x8_0000_0000_0000 <= self.start <= 0x8_0000_0000_0000,
            -0x200_0000 <= self.dx <= 0x200_0000,
            -0x200_0000 <= self.dy <= 0x200_0000,
            -0x200_0000 <= dx <= 0x200_0000,
            -0x200_0000 <= dy <= 0x200_0000,
        ensures
            r == self.start + self.dx * dx + self.dy * dy,
    {
        proof {
            lemma_mul_bounded(self.dx as int, dx as int, 0x200_0000, 0x200_0000);
            lemma_mul_bounded(self.dy as int, dy as int, 0x200_0000, 0x200_0000);
        }
        self.start + self.dx * dx + self.dy * dy
    }
}

/// The edge function at `p` equals its value at `s` plus the offset from
/// `s` times the edge's slopes `(-e.y, e.x)`: the incremental form that
/// scan conversion uses.
proof fn lemma_edge_increment(ax: int, ay: int, ex: int, ey: int, s: (int, int), p: (int, int))
    ensures
        cross2(ex, ey, p.0 - ax, p.1 - ay) == cross2(ex, ey, s.0 - ax, s.1 - ay) + (-ey) * (p.0
            - s.0) + ex * (p.1 - s.1),
{
    assert(cross2(ex, ey, p.0 - ax, p.1 - ay) == cross2(ex, ey, s.0 - ax, s.1 - ay) + (-ey) * (
    p.0 - s.0) + ex * (p.1 - s.1)) by (nonlinear_arith);
}

/// Within the bounding rectangle of a triangle in range, every edge function
/// is bounded by `8 * COORD_LIMIT^2`.
proof fn lemma_edge_bounded(t: TriangleView, i: int, p: (int, int))
    requires
        view_fits(t),
        t.in_rect(p),
        0 <= i < 3,
    ensures
        -0x8_0000_0000_0000 <= t.edge(i, p) <= 0x8_0000_0000_0000,
{
    let a = t.vertex(i);
    let b = t.vertex(if i == 2 { 0 } else { i + 1 });
    lemma_mul_bounded(b.0 - a.0, p.1 - a.1, 0x200_0000, 0x200_0000);
    lemma_mul_bounded(b.1 - a.1, p.0 - a.0, 0x200_0000, 0x200_0000);
}

/// A weight numerator is bounded by `8 * COORD_LIMIT^4`.
proof fn lemma_numerator_bounded(e: int, wa: int, wb: int)
    requires
        -0x8_0000_0000_0000 <= e <= 0x8_0000_0000_0000,
        coord_fits(wa),
        coord_fits(wb),
    ensures
        -0x8_0000_0000_0000_0000_00 <= e * wa <= 0x8_0000_0000_0000_0000_00,
        -0x8_0000_0000_0000_0000_0000_0000 <= e * wa * wb <= 0x8_0000_0000_0000_0000_0000_0000,
{
    lemma_mul_bounded(e, wa, 0x8_0000_0000_0000, 0x100_0000);
    lemma_mul_bounded(e * wa, wb, 0x8_0000_0000_0000_0000_00, 0x100_0000);
}

/// Walks the bounding rectangle of a triangle and yields its fragments.
pub struct TriangleIter {
    rect_iter: Rect2Iter,
    crosses: [LinearInterpolator; 3],
    start: Vector2<i64>,
    triangle: Triangle,
    zs: Vector3<i64>,
}

/// `c` lies on a pixel of the bounding rectangle of `t`, or at the start of
/// the row past its last one.
pub open spec fn in_walk(t: TriangleView, c: (int, int)) -> bool {
    &&& t.low().0 <= c.0 <= t.high().0
    &&& t.low().1 <= c.1 <= t.high().1 + 1
    &&& c.1 == t.high().1 + 1 ==> c.0 == t.low().0
}

/// The fragment of pixel `p` of `t`: the one value that `is_fragment`
/// allows.
pub open spec fn fragment_of(t: TriangleView, p: (int, int)) -> Fragment {
    let n = t.numerators(p);
    let keep = t.numerator_sum(p) > 0;
    Fragment {
        position: Vector2 { x: p.0 as i64, y: p.1 as i64 },
        depth: quot(
            signed(keep, n.0 * t.v0.2 + n.1 * t.v1.2 + n.2 * t.v2.2),
            signed(keep, t.numerator_sum(p)),
        ) as i128,
        coefs: Vector3 {
            x: signed(keep, n.0) as i128,
            y: signed(keep, n.1) as i128,
            z: signed(keep, n.2) as i128,
        },
        total: signed(keep, t.numerator_sum(p)) as i128,
    }
}

/// A fragment of pixel `p` is `fragment_of(t, p)`.
pub proof fn lemma_fragment_of(t: TriangleView, p: (int, int), f: Fragment)
    requires
        t.is_fragment(p, f),
    ensures
        f == fragment_of(t, p),
{
    let g = fragment_of(t, p);
    assert(f.position == g.position);
    assert(f.coefs == g.coefs);
}

/// The pixel after `p` in row-major order within the bounding rectangle of
/// `t`.
pub open spec fn successor(t: TriangleView, p: (int, int)) -> (int, int) {
    if p.0 + 1 > t.high().0 {
        (t.low().0, p.1 + 1)
    } else {
        (p.0 + 1, p.1)
    }
}

impl TriangleIter {
    /// The triangle being scanned.
    pub closed spec fn triangle(&self) -> TriangleView {
        self.triangle@
    }

    /// The next pixel to be examined.
    pub closed spec fn cursor(&self) -> (int, int) {
        self.rect_iter.current()
    }

    /// The cursor lies on a pixel of the bounding rectangle, or at the start
    /// of the row past its last one.
    pub open spec fn cursor_in_walk(&self) -> bool {
        in_walk(self.triangle(), self.cursor())
    }

    /// Every pixel has been examined.
    pub open spec fn done(&self) -> bool {
        self.cursor().1 > self.triangle().high().1
    }

    pub closed spec fn wf(&self) -> bool {
        let t = self.triangle@;
        &&& self.triangle.wf()
        &&& self.rect_iter.wf()
        &&& self.rect_iter.low() == t.low()
        &&& self.rect_iter.high() == t.high()
        &&& self.start.x == t.low().0
        &&& self.start.y == t.low().1
        &&& self.zs.x == t.v0.2
        &&& self.zs.y == t.v1.2
        &&& self.zs.z == t.v2.2
        &&& self.crosses[0].start == t.edge(0, t.low())
        &&& self.crosses[1].start == t.edge(1, t.low())
        &&& self.crosses[2].start == t.edge(2, t.low())
        &&& self.crosses[0].dx == -(t.v1.1 - t.v0.1) && self.crosses[0].dy == t.v1.0 - t.v0.0
        &&& self.crosses[1].dx == -(t.v2.1 - t.v1.1) && self.crosses[1].dy == t.v2.0 - t.v1.0
        &&& self.crosses[2].dx == -(t.v0.1 - t.v2.1) && self.crosses[2].dy == t.v0.0 - t.v2.0
    }

    pub fn new(triangle: Triangle) -> (r: Self)
        requires
            triangle.wf(),
        ensures
            r.wf(),
            r.cursor_in_walk(),
            r.triangle() == triangle@,
            r.cursor() == triangle@.low(),
    {
        let rect = triangle.rect;
        let rect_iter = Rect2Iter::new(rect);
        let start = rect.start();
        let ghost t = triangle@;
        proof {
            lemma_edge_bounded(t, 0, t.low());
            lemma_edge_bounded(t, 1, t.low());
            lemma_edge_bounded(t, 2, t.low());
        }
        let mut crosses = [LinearInterpolator::new(0, 0, 0); 3];
        let mut i: usize = 0;
        while i < 3
            invariant
                i <= 3,
                triangle.wf(),
                t == triangle@,
                start.x == t.low().0,
                start.y == t.low().1,
                forall|j: int|
                    0 <= j < i ==> {
                        let a = t.vertex(j);
                        let b = t.vertex(if j == 2 { 0 } else { j + 1 });
                        &&& (#[trigger] crosses[j]).start == t.edge(j, t.low())
                        &&& crosses[j].dx == -(b.1 - a.1)
                        &&& crosses[j].dy == b.0 - a.0
                    },
            decreases 3 - i,
        {
            let v = triangle.vertices[i];
            let s = triangle.segments[i];
            proof {
                lemma_edge_bounded(t, i as int, t.low());
                lemma_mul_bounded(s.x as int, start.y - v.y, 0x200_0000, 0x200_0000);
                lemma_mul_bounded(s.y as int, start.x - v.x, 0x200_0000, 0x200_0000);
            }
            let start_value = s.xy().cross(start.sub(v.xy()));
            crosses[i] = LinearInterpolator::new(start_value, -s.y, s.x);
            i = i + 1;
        }
        let zs = Vector3::new(
            triangle.vertices[0].z,
            triangle.vertices[1].z,
            triangle.vertices[2].z,
        );
        Self { rect_iter, crosses, start, triangle, zs }
    }

    /// The fragment of pixel `pos`, or `None` where the pixel is not strictly
    /// inside all three edges or its weights cannot be normalised.
    fn fragment_at(&self, pos: Vector2<i64>) -> (r: Option<Fragment>)
        requires
            self.wf(),
            self.triangle().in_rect((pos.x as int, pos.y as int)),
        ensures
            r.is_some() <==> self.triangle().yields((pos.x as int, pos.y as int)),
            r.is_some() ==> self.triangle().is_fragment((pos.x as int, pos.y as int), r.unwrap()),
            r.is_some() ==> fragment_fits(r.unwrap()),
    {
        let ghost t = self.triangle@;
        let ghost p = (pos.x as int, pos.y as int);
        let ghost low = t.low();
        let dx = pos.x - self.start.x;
        let dy = pos.y - self.start.y;
        proof {
            lemma_edge_bounded(t, 0, low);
            lemma_edge_bounded(t, 1, low);
            lemma_edge_bounded(t, 2, low);
            lemma_edge_bounded(t, 0, p);
            lemma_edge_bounded(t, 1, p);
            lemma_edge_bounded(t, 2, p);
            lemma_edge_increment(t.v0.0, t.v0.1, t.v1.0 - t.v0.0, t.v1.1 - t.v0.1, low, p);
            lemma_edge_increment(t.v1.0, t.v1.1, t.v2.0 - t.v1.0, t.v2.1 - t.v1.1, low, p);
            lemma_edge_increment(t.v2.0, t.v2.1, t.v0.0 - t.v2.0, t.v0.1 - t.v2.1, low, p);
        }
        let cof2 = self.crosses[0].calc(dx, dy);
        let cof0 = self.crosses[1].calc(dx, dy);
        let cof1 = self.crosses[2].calc(dx, dy);
        if !(cof0 > 0 && cof1 > 0 && cof2 > 0) {
            return None;
        }
        let w0 = self.triangle.reduced_ws.x as i128;
        let w1 = self.triangle.reduced_ws.y as i128;
        let w2 = self.triangle.reduced_ws.z as i128;
        proof {
            lemma_numerator_bounded(cof0 as int, w1 as int, w2 as int);
            lemma_numerator_bounded(cof1 as int, w0 as int, w2 as int);
            lemma_numerator_bounded(cof2 as int, w0 as int, w1 as int);
        }
        let mut n0 = (cof0 as i128) * w1 * w2;
        let mut n1 = (cof1 as i128) * w0 * w2;
        let mut n2 = (cof2 as i128) * w0 * w1;
        let mut total = n0 + n1 + n2;
        if total == 0 {
            return None;
        }
        let ghost (m0, m1, m2, sum) = (n0 as int, n1 as int, n2 as int, total as int);
        proof {
            assert((m0, m1, m2) == t.numerators(p));
        }
        if total < 0 {
            n0 = -n0;
            n1 = -n1;
            n2 = -n2;
            total = -total;
        }
        let z0 = self.zs.x as i128;
        let z1 = self.zs.y as i128;
        let z2 = self.zs.z as i128;
        proof {
            lemma_mul_bounded(n0 as int, z0 as int, 0x8_0000_0000_0000_0000_0000_0000, 0x100_0000);
            lemma_mul_bounded(n1 as int, z1 as int, 0x8_0000_0000_0000_0000_0000_0000, 0x100_0000);
            lemma_mul_bounded(n2 as int, z2 as int, 0x8_0000_0000_0000_0000_0000_0000, 0x100_0000);
        }
        let weighted = n0 * z0 + n1 * z1 + n2 * z2;
        proof {
            lemma_quot_bounded(weighted as int, total as int);
            if weighted < 0 {
                assert(-weighted <= i128::MAX);
            }
        }
        let depth = weighted / total;
        proof {
            if sum < 0 {
                assert(weighted == -(m0 * z0 + m1 * z1 + m2 * z2)) by (nonlinear_arith)
                    requires
                        n0 == -m0,
                        n1 == -m1,
                        n2 == -m2,
                        weighted == n0 * z0 + n1 * z1 + n2 * z2,
                ;
            }
        }
        Some(Fragment { position: pos, depth, coefs: Vector3::new(n0, n1, n2), total })
    }

    /// The next fragment: the first pixel from the cursor on, in row-major
    /// order, that passes the inside test and whose weights can be
    /// normalised. The cursor moves past it. `None` once the rectangle has
    /// been walked.
    pub fn next(&mut self) -> (r: Option<Fragment>)
        requires
            old(self).wf(),
        ensures
            final(self).wf(),
            final(self).cursor_in_walk(),
            final(self).triangle() == old(self).triangle(),
            r.is_some() ==> {
                let t = old(self).triangle();
                let f = r.unwrap();
                let p = (f.position.x as int, f.position.y as int);
                &&& t.yields(p)
                &&& t.is_fragment(p, f)
                &&& fragment_fits(f)
                &&& !before(p, old(self).cursor())
                &&& forall|q: (int, int)|
                    t.in_rect(q) && !before(q, old(self).cursor()) && before(q, p) ==> !t.yields(
                        q,
                    )
                &&& final(self).cursor() == successor(t, p)
            },
            r.is_none() ==> {
                let t = old(self).triangle();
                &&& final(self).done()
                &&& forall|q: (int, int)|
                    t.in_rect(q) && !before(q, old(self).cursor()) ==> !t.yields(q)
            },
    {
        let ghost t = self.triangle();
        let ghost c0 = self.cursor();
        loop
            invariant
                self.wf(),
                self.triangle() == t,
                c0 == old(self).cursor(),
                t == old(self).triangle(),
                !before(self.cursor(), c0),
                forall|q: (int, int)|
                    t.in_rect(q) && !before(q, c0) && before(q, self.cursor()) ==> !t.yields(q),
            decreases t.high().1 + 1 - self.cursor().1, t.high().0 - self.cursor().0,
        {
            let ghost c = self.cursor();
            let pos = match self.rect_iter.next() {
                Some(pos) => pos,
                None => {
                    return None;
                },
            };
            let ghost p = (pos.x as int, pos.y as int);
            assert(p == c);
            assert(forall|q: (int, int)|
                t.in_rect(q) && before(q, successor(t, p)) ==> before(q, p) || q == p);
            let fragment = self.fragment_at(pos);
            if fragment.is_some() {
                return fragment;
            }
        }
    }
}

/// The weights of every fragment sum to its total, which is positive, so
/// that `coefs / total` sums to 1. Where the three vertices lie on one side
/// of the eye plane (their w components share a sign) every weight is also
/// positive.
pub proof fn lemma_fragment_weights(t: TriangleView, p: (int, int), f: Fragment)
    requires
        t.yields(p),
        t.is_fragment(p, f),
    ensures
        f.total > 0,
        f.coefs.x + f.coefs.y + f.coefs.z == f.total,
        ({
            let r = t.reduced_w();
            (r.0 > 0 && r.1 > 0 && r.2 > 0) || (r.0 < 0 && r.1 < 0 && r.2 < 0)
        }) ==> f.coefs.x > 0
            && f.coefs.y > 0 && f.coefs.z > 0,
{
    let n = t.numerators(p);
    let r = t.reduced_w();
    if (r.0 > 0 && r.1 > 0 && r.2 > 0) || (r.0 < 0 && r.1 < 0 && r.2 < 0) {
        lemma_positive_numerator(t.edge(1, p), r.1, r.2);
        lemma_positive_numerator(t.edge(2, p), r.0, r.2);
        lemma_positive_numerator(t.edge(0, p), r.0, r.1);
    }
}

/// For every triangle that setup accepts from vertices whose clip-space w
/// components share a sign (all in front of the eye, or all behind it),
/// every fragment has three positive weights summing to its positive total:
/// barycentric weights `coefs / total` that are positive and sum to 1.
pub proof fn lemma_accepted_fragment_weights(vertices: [Vector4<i64>; 3], p: (int, int), f: Fragment)
    requires
        accepts(vertices),
        (vertices[0].w > 0 && vertices[1].w > 0 && vertices[2].w > 0) || (vertices[0].w < 0
            && vertices[1].w < 0 && vertices[2].w < 0),
        view_of(vertices).yields(p),
        view_of(vertices).is_fragment(p, f),
    ensures
        f.total > 0,
        f.coefs.x + f.coefs.y + f.coefs.z == f.total,
        f.coefs.x > 0 && f.coefs.y > 0 && f.coefs.z > 0,
{
    lemma_reduced_w_sign(vertices);
    assert(0 <= 0int < 3 && 0 <= 1int < 3 && 0 <= 2int < 3);
    lemma_fragment_weights(view_of(vertices), p, f);
}

proof fn lemma_positive_numerator(e: int, wa: int, wb: int)
    requires
        e > 0,
        (wa > 0 && wb > 0) || (wa < 0 && wb < 0),
    ensures
        e * wa * wb > 0,
{
    assert(wa * wb > 0) by (nonlinear_arith)
        requires
            (wa > 0 && wb > 0) || (wa < 0 && wb < 0),
    ;
    assert(e * wa * wb == e * (wa * wb)) by (nonlinear_arith);
    assert(e * (wa * wb) > 0) by (nonlinear_arith)
        requires
            e > 0,
            wa * wb > 0,
    ;
}

} // verus!
