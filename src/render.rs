//! Depth test and compositing: turns the fragments of a triangle into
//! framebuffer writes.
use vstd::prelude::*;
use crate::buffers::{Buffer, BufferView, lemma_set_then_get};
use crate::color::{Color, packed};
use crate::matrices::{DEPTH_MAX, M4, V4, Matrix4, mat_vec, m4_fits, v4_fits};
use crate::raster::{
    Fragment, Triangle, TriangleView, accepts, before, fragment_of, in_walk, lemma_fragment_of,
    successor, view_of, view_fits, fragment_fits, coord_fits,
};
use crate::vectors::{Vector2, Vector4, quot, lemma_mul_bounded};

verus! {

/// The unit of texture coordinates: `UV_ONE` spans the whole texture.
pub const UV_ONE: i64 = 65536;

/// Colour written to the framebuffer where nothing is drawn.
pub const CLEAR_COLOR: u32 = 0xFFFF_FFFF;

/// Depth-buffer value farther than every valid depth; larger depths are
/// nearer.
pub const FAR_DEPTH: i64 = -1;

/// Mathematical form of a texture.
pub ghost struct TextureView {
    pub width: int,
    pub height: int,
    pub texels: Seq<u32>,
}

/// An image sampled during compositing, texels packed as `0xAARRGGBB`, row
/// after row.
pub struct Texture {
    width: u32,
    height: u32,
    texels: Vec<u32>,
}

impl View for Texture {
    type V = TextureView;

    closed spec fn view(&self) -> TextureView {
        TextureView { width: self.width as int, height: self.height as int, texels: self.texels@ }
    }
}

impl Texture {
    pub closed spec fn wf(&self) -> bool {
        self.texels@.len() == self.width * self.height
    }

    /// A `width` × `height` texture, or `None` where `texels` does not hold
    /// exactly one texel per position.
    pub fn new(width: u32, height: u32, texels: Vec<u32>) -> (r: Option<Self>)
        ensures
            r.is_some() <==> texels@.len() == width * height,
            r.is_some() ==> r.unwrap().wf() && r.unwrap()@ == (TextureView {
                width: width as int,
                height: height as int,
                texels: texels@,
            }),
    {
        proof {
            assert(width * height <= u64::MAX) by (nonlinear_arith)
                requires
                    width <= u32::MAX,
                    height <= u32::MAX,
            ;
        }
        if (width as u64) * (height as u64) != texels.len() as u64 {
            return None;
        }
        Some(Self { width, height, texels })
    }

    pub fn width(&self) -> (r: u32)
        ensures
            r == self@.width,
    {
        self.width
    }

    pub fn height(&self) -> (r: u32)
        ensures
            r == self@.height,
    {
        self.height
    }

    /// The texel at (x, y), or `None` outside the texture.
    pub fn get_pixel_checked(&self, x: u32, y: u32) -> (r: Option<u32>)
        requires
            self.wf(),
        ensures
            r.is_some() <==> (x < self@.width && y < self@.height),
            r.is_some() ==> r.unwrap() == self@.texels[x + y * self@.width],
    {
        if x >= self.width || y >= self.height {
            return None;
        }
        let n = self.texels.len();
        proof {
            assert(x + y * self.width < self.width * self.height) by (nonlinear_arith)
                requires
                    x < self.width,
                    y < self.height,
            ;
            assert(0 <= y * self.width) by (nonlinear_arith);
        }
        let row = (y as usize) * (self.width as usize);
        Some(self.texels[x as usize + row])
    }
}

/// A vertex of a mesh: clip-space position before the projection, colour,
/// and texture coordinates in units of `1 / UV_ONE`.
#[derive(Clone, Copy, Debug)]
pub struct Vertex {
    pub position: Vector4<i64>,
    pub color: Color,
    pub uv: Vector2<i64>,
}

pub open spec fn uv_fits(vs: [Vertex; 3]) -> bool {
    &&& coord_fits(vs[0].uv.x as int) && coord_fits(vs[0].uv.y as int)
    &&& coord_fits(vs[1].uv.x as int) && coord_fits(vs[1].uv.y as int)
    &&& coord_fits(vs[2].uv.x as int) && coord_fits(vs[2].uv.y as int)
}

/// An attribute of the three vertices interpolated with the weights of `f`,
/// rounded toward zero.
pub open spec fn interpolate(f: Fragment, a: int, b: int, c: int) -> int {
    quot(f.coefs.x * a + f.coefs.y * b + f.coefs.z * c, f.total as int)
}

/// The fragment passes the depth test: it lies inside the buffers, its
/// depth is in [0, DEPTH_MAX], and it is nearer (larger) than what the
/// depth buffer holds there.
pub open spec fn depth_test(depth: BufferView<i64>, f: Fragment) -> bool {
    &&& depth.contains(f.position.x as int, f.position.y as int)
    &&& 0 <= f.depth <= DEPTH_MAX
    &&& depth.get(f.position.x as int, f.position.y as int) < f.depth
}

/// The weighted sum `a * ca + b * cb + c * cc` of an attribute, with the
/// weights of `f`.
pub open spec fn weighted(f: Fragment, a: int, b: int, c: int) -> int {
    f.coefs.x * a + f.coefs.y * b + f.coefs.z * c
}

/// Texel index, along an axis `size` texels long, of the texture coordinate
/// `weighted / (total * UV_ONE)`: the coordinate times `size`, truncated
/// toward zero.
pub open spec fn texel_coord(weighted: int, total: int, size: int) -> int {
    quot(weighted * size, total * UV_ONE)
}

/// `v` limited to the range of a colour channel.
pub open spec fn clamp_channel(v: int) -> int {
    if v < 0 {
        0
    } else if v > 255 {
        255
    } else {
        v
    }
}

/// Colour of the fragment (each interpolated channel limited to 0..=255),
/// where the interpolated texture coordinates fall on a texel.
pub open spec fn shaded_color(f: Fragment, vs: [Vertex; 3], tex: TextureView) -> Option<int> {
    let r = interpolate(f, vs[0].color.r as int, vs[1].color.r as int, vs[2].color.r as int);
    let g = interpolate(f, vs[0].color.g as int, vs[1].color.g as int, vs[2].color.g as int);
    let b = interpolate(f, vs[0].color.b as int, vs[1].color.b as int, vs[2].color.b as int);
    let tx = texel_coord(
        weighted(f, vs[0].uv.x as int, vs[1].uv.x as int, vs[2].uv.x as int),
        f.total as int,
        tex.width,
    );
    let ty = texel_coord(
        weighted(f, vs[0].uv.y as int, vs[1].uv.y as int, vs[2].uv.y as int),
        f.total as int,
        tex.height,
    );
    if 0 <= tx < tex.width && 0 <= ty < tex.height {
        Some(packed(255, clamp_channel(r), clamp_channel(g), clamp_channel(b)))
    } else {
        None
    }
}

/// The buffers after compositing fragment `f`: where it passes the depth
/// test its depth is stored, and its colour is written where it has one.
pub open spec fn composite(
    frame: BufferView<u32>,
    depth: BufferView<i64>,
    f: Fragment,
    vs: [Vertex; 3],
    tex: TextureView,
) -> (BufferView<u32>, BufferView<i64>) {
    let x = f.position.x as int;
    let y = f.position.y as int;
    if !depth_test(depth, f) {
        (frame, depth)
    } else {
        let depth2 = depth.set(x, y, f.depth as i64);
        match shaded_color(f, vs, tex) {
            Some(c) => (frame.set(x, y, c as u32), depth2),
            None => (frame, depth2),
        }
    }
}

/// `a * ca + b * cb + c * cc` with weights within the range of fragments and
/// attributes within `COORD_LIMIT`, without overflow.
fn weighted_sum(f: &Fragment, ca: i64, cb: i64, cc: i64) -> (r: i128)
    requires
        fragment_fits(*f),
        coord_fits(ca as int),
        coord_fits(cb as int),
        coord_fits(cc as int),
    ensures
        r == f.coefs.x * ca + f.coefs.y * cb + f.coefs.z * cc,
        -0x4000_0000_0000_0000_0000_0000_0000_0000 <= r <= 0x4000_0000_0000_0000_0000_0000_0000_0000,
{
    proof {
        lemma_mul_bounded(f.coefs.x as int, ca as int, 0x8_0000_0000_0000_0000_0000_0000, 0x100_0000);
        lemma_mul_bounded(f.coefs.y as int, cb as int, 0x8_0000_0000_0000_0000_0000_0000, 0x100_0000);
        lemma_mul_bounded(f.coefs.z as int, cc as int, 0x8_0000_0000_0000_0000_0000_0000, 0x100_0000);
    }
    f.coefs.x * (ca as i128) + f.coefs.y * (cb as i128) + f.coefs.z * (cc as i128)
}

/// An attribute interpolated with the weights of `f`.
fn interpolate_attribute(f: &Fragment, ca: i64, cb: i64, cc: i64) -> (r: i128)
    requires
        fragment_fits(*f),
        coord_fits(ca as int),
        coord_fits(cb as int),
        coord_fits(cc as int),
    ensures
        r == interpolate(*f, ca as int, cb as int, cc as int),
{
    let s = weighted_sum(f, ca, cb, cc);
    proof {
        crate::vectors::lemma_quot_bounded(s as int, f.total as int);
        if s < 0 {
            assert(-s <= i128::MAX);
        }
    }
    s / f.total
}

/// One step of long division of `a * s` by `d`, taking the digits of `s` in
/// base 256: from `a * p == q * d + r` to the same for `256 * p + c`.
fn divide_step(a: u128, d: u128, q: u64, r: u128, c: u32, Ghost(p): Ghost<int>) -> (res: (u64, u128))
    requires
        0 < d <= 0x20_0000_0000_0000_0000_0000_0000_0000,
        a < d,
        r < d,
        c < 256,
        0 <= p < 0x100_0000,
        q <= p,
        a * p == q * d + r,
    ensures
        a * (256 * p + c) == res.0 * d + res.1,
        res.1 < d,
        res.0 <= 256 * p + c,
{
    proof {
        assert(256 * r + a * c < 512 * d) by (nonlinear_arith)
            requires
                r < d,
                a < d,
                c < 256,
        ;
    }
    let t = 256 * r + a * (c as u128);
    let k = t / d;
    let m = t % d;
    proof {
        vstd::arithmetic::div_mod::lemma_fundamental_div_mod(t as int, d as int);
        vstd::arithmetic::div_mod::lemma_div_pos_is_pos(t as int, d as int);
        assert(k < 512) by (nonlinear_arith)
            requires
                t == d * k + m,
                0 <= m,
                t < 512 * d,
                d > 0,
        ;
    }
    let q2 = 256 * q + k as u64;
    proof {
        let p2 = 256 * p + c;
        assert(a * p2 == q2 * d + m) by (nonlinear_arith)
            requires
                p2 == 256 * p + c,
                a * p == q * d + r,
                t == 256 * r + a * c,
                t == d * k + m,
                q2 == 256 * q + k,
        ;
        assert(q2 <= p2) by (nonlinear_arith)
            requires
                a * p2 == q2 * d + m,
                0 <= m,
                a < d,
                p2 >= 0,
                d > 0,
        ;
    }
    (q2, m)
}

/// `a * s / d`, rounded down, for `a < d`.
fn mul_div(a: u128, s: u32, d: u128) -> (q: u32)
    requires
        0 < d <= 0x20_0000_0000_0000_0000_0000_0000_0000,
        a < d,
    ensures
        q == a * s / (d as int),
{
    let c1 = s / 0x100_0000;
    let p2 = s / 0x1_0000;
    let c2 = p2 % 256;
    let p3 = s / 256;
    let c3 = p3 % 256;
    let c4 = s % 256;
    proof {
        let x = s as int;
        vstd::arithmetic::div_mod::lemma_div_denominator(x, 0x1_0000, 256);
        vstd::arithmetic::div_mod::lemma_div_denominator(x, 256, 256);
        vstd::arithmetic::div_mod::lemma_fundamental_div_mod(x / 0x1_0000, 256);
        vstd::arithmetic::div_mod::lemma_fundamental_div_mod(x / 256, 256);
        vstd::arithmetic::div_mod::lemma_fundamental_div_mod(x, 256);
        vstd::arithmetic::div_mod::lemma_div_is_ordered_by_denominator(x, 256, 0x1_0000);
        vstd::arithmetic::div_mod::lemma_div_is_ordered_by_denominator(x, 0x1_0000, 0x100_0000);
        assert(c1 < 256);
        assert(p2 == 256 * c1 + c2);
        assert(p3 == 256 * p2 + c3);
        assert(s == 256 * p3 + c4);
    }
    let (q, r) = divide_step(a, d, 0, 0, c1, Ghost(0));
    let (q, r) = divide_step(a, d, q, r, c2, Ghost(c1 as int));
    let (q, r) = divide_step(a, d, q, r, c3, Ghost(p2 as int));
    let (q, r) = divide_step(a, d, q, r, c4, Ghost(p3 as int));
    proof {
        vstd::arithmetic::div_mod::lemma_fundamental_div_mod_converse(
            a * s,
            d as int,
            q as int,
            r as int,
        );
    }
    q as u32
}

/// Texel index along an axis `size` texels long of the texture coordinate
/// `weighted / (total * UV_ONE)`, or `None` where it falls off the texture.
fn texel_index(weighted: i128, total: i128, size: u32) -> (r: Option<u32>)
    requires
        0 < total <= 0x18_0000_0000_0000_0000_0000_0000,
        -0x4000_0000_0000_0000_0000_0000_0000_0000 <= weighted
            <= 0x4000_0000_0000_0000_0000_0000_0000_0000,
    ensures
        r.is_some() <==> 0 <= texel_coord(weighted as int, total as int, size as int) < size,
        r.is_some() ==> r.unwrap() == texel_coord(weighted as int, total as int, size as int),
{
    proof {
        assert(total * 65536 <= 0x20_0000_0000_0000_0000_0000_0000_0000) by (nonlinear_arith)
            requires
                0 < total <= 0x18_0000_0000_0000_0000_0000_0000,
        ;
    }
    let d = (total as u128) * (UV_ONE as u128);
    let a: u128 = if weighted < 0 { (-weighted) as u128 } else { weighted as u128 };
    let ghost w = weighted as int;
    let ghost sz = size as int;
    let ghost dd = d as int;
    proof {
        assert(dd == total * UV_ONE);
        assert(dd > 0 && dd <= 0x20_0000_0000_0000_0000_0000_0000_0000) by (nonlinear_arith)
            requires
                dd == total * 65536,
                0 < total <= 0x18_0000_0000_0000_0000_0000_0000,
        ;
    }
    if size == 0 {
        proof {
            assert(w * sz == 0) by (nonlinear_arith)
                requires
                    sz == 0,
            ;
            vstd::arithmetic::div_mod::lemma_div_pos_is_pos(0, dd);
            vstd::arithmetic::div_mod::lemma_fundamental_div_mod_converse(0, dd, 0, 0);
        }
        return None;
    }
    if a >= d {
        proof {
            assert(a * sz >= dd * sz) by (nonlinear_arith)
                requires
                    a >= dd,
                    sz > 0,
            ;
            vstd::arithmetic::div_mod::lemma_fundamental_div_mod(a * sz, dd);
            assert(a * sz / dd >= sz) by (nonlinear_arith)
                requires
                    a * sz >= dd * sz,
                    a * sz == dd * (a * sz / dd) + (a * sz) % dd,
                    0 <= (a * sz) % dd < dd,
                    dd > 0,
            ;
            vstd::arithmetic::div_mod::lemma_mod_pos_bound(a * sz, dd);
            if w < 0 {
                assert((-w) * sz == -(w * sz)) by (nonlinear_arith);
                assert(w * sz < 0) by (nonlinear_arith)
                    requires
                        w < 0,
                        sz > 0,
                ;
            } else {
                assert(0 <= w * sz) by (nonlinear_arith)
                    requires
                        w >= 0,
                        sz > 0,
                ;
            }
        }
        return None;
    }
    let q = mul_div(a, size, d);
    proof {
        assert(0 <= a * sz) by (nonlinear_arith)
            requires
                a >= 0,
                sz > 0,
        ;
        assert(a * sz < dd * sz) by (nonlinear_arith)
            requires
                a < dd,
                sz > 0,
        ;
        vstd::arithmetic::div_mod::lemma_fundamental_div_mod(a * sz, dd);
        vstd::arithmetic::div_mod::lemma_mod_pos_bound(a * sz, dd);
        assert(q < sz) by (nonlinear_arith)
            requires
                a * sz < dd * sz,
                a * sz == dd * q + (a * sz) % dd,
                0 <= (a * sz) % dd,
                dd > 0,
        ;
        if w < 0 {
            assert((-w) * sz == -(w * sz)) by (nonlinear_arith);
            assert(w * sz < 0) by (nonlinear_arith)
                requires
                    w < 0,
                    sz > 0,
            ;
        } else {
            assert(0 <= w * sz) by (nonlinear_arith)
                requires
                    w >= 0,
                    sz > 0,
            ;
        }
    }
    if weighted >= 0 {
        Some(q)
    } else if q == 0 {
        Some(0)
    } else {
        None
    }
}

/// `v` limited to the range of a colour channel.
fn clamp_to_channel(v: i128) -> (r: u8)
    ensures
        r == clamp_channel(v as int),
{
    if v < 0 {
        0
    } else if v > 255 {
        255
    } else {
        v as u8
    }
}

/// Applies the depth test to fragment `f` and, where it passes, stores its
/// depth, interpolates colour and texture coordinates, samples the texture
/// and writes the colour.
pub fn shade_fragment(
    framebuffer: &mut Buffer<u32>,
    depth: &mut Buffer<i64>,
    f: &Fragment,
    vertices: &[Vertex; 3],
    texture: &Texture,
)
    requires
        old(framebuffer)@.wf(),
        old(depth)@.wf(),
        old(framebuffer)@.width == old(depth)@.width,
        old(framebuffer)@.height == old(depth)@.height,
        fragment_fits(*f),
        uv_fits(*vertices),
        texture.wf(),
    ensures
        (final(framebuffer)@, final(depth)@) == composite(
            old(framebuffer)@,
            old(depth)@,
            *f,
            *vertices,
            texture@,
        ),
        final(framebuffer)@.wf(),
        final(depth)@.wf(),
{
    let x = f.position.x;
    let y = f.position.y;
    let width = depth.width();
    let height = depth.height();
    if x < 0 || y < 0 || x >= width as i64 || y >= height as i64 {
        return;
    }
    if f.depth < 0 || f.depth > DEPTH_MAX as i128 {
        return;
    }
    let position = Vector2::new(x as i32, y as i32);
    if depth.get_pixel(position) as i128 >= f.depth {
        return;
    }
    depth.set_pixel(position, f.depth as i64);
    let r = interpolate_attribute(
        f,
        vertices[0].color.r as i64,
        vertices[1].color.r as i64,
        vertices[2].color.r as i64,
    );
    let g = interpolate_attribute(
        f,
        vertices[0].color.g as i64,
        vertices[1].color.g as i64,
        vertices[2].color.g as i64,
    );
    let b = interpolate_attribute(
        f,
        vertices[0].color.b as i64,
        vertices[1].color.b as i64,
        vertices[2].color.b as i64,
    );
    let u = weighted_sum(f, vertices[0].uv.x, vertices[1].uv.x, vertices[2].uv.x);
    let v = weighted_sum(f, vertices[0].uv.y, vertices[1].uv.y, vertices[2].uv.y);
    let tx = match texel_index(u, f.total, texture.width()) {
        Some(tx) => tx,
        None => return,
    };
    let ty = match texel_index(v, f.total, texture.height()) {
        Some(ty) => ty,
        None => return,
    };
    if texture.get_pixel_checked(tx, ty).is_none() {
        return;
    }
    let color = Color::from_rgb(clamp_to_channel(r), clamp_to_channel(g), clamp_to_channel(b));
    framebuffer.set_pixel(position, color.to_u32());
}

/// Compositing only raises stored depths, and changes a framebuffer cell
/// only where it raises the depth stored there.
proof fn lemma_composite_monotone(
    frame: BufferView<u32>,
    depth: BufferView<i64>,
    f: Fragment,
    vs: [Vertex; 3],
    tex: TextureView,
    x: int,
    y: int,
)
    requires
        frame.wf(),
        depth.wf(),
        frame.width == depth.width,
        frame.height == depth.height,
        depth.contains(x, y),
    ensures
        ({
            let (frame2, depth2) = composite(frame, depth, f, vs, tex);
            &&& frame2.wf() && depth2.wf()
            &&& frame2.width == frame.width && frame2.height == frame.height
            &&& depth2.width == depth.width && depth2.height == depth.height
            &&& depth2.get(x, y) >= depth.get(x, y)
            &&& frame2.get(x, y) != frame.get(x, y) ==> depth2.get(x, y) > depth.get(x, y)
            &&& depth2.get(x, y) != depth.get(x, y) ==> 0 <= depth2.get(x, y) <= DEPTH_MAX
        }),
{
    let fx = f.position.x as int;
    let fy = f.position.y as int;
    if depth_test(depth, f) {
        lemma_set_then_get(depth, fx, fy, f.depth as i64, x, y);
        match shaded_color(f, vs, tex) {
            Some(c) => {
                lemma_set_then_get(frame, fx, fy, c as u32, x, y);
            },
            None => {},
        }
    }
}

/// Compositing a fragment leaves every other pixel as it was.
proof fn lemma_composite_elsewhere(
    frame: BufferView<u32>,
    depth: BufferView<i64>,
    f: Fragment,
    vs: [Vertex; 3],
    tex: TextureView,
    x: int,
    y: int,
)
    requires
        frame.wf(),
        depth.wf(),
        frame.width == depth.width,
        frame.height == depth.height,
        depth.contains(x, y),
        x != f.position.x || y != f.position.y,
    ensures
        ({
            let (frame2, depth2) = composite(frame, depth, f, vs, tex);
            &&& depth2.get(x, y) == depth.get(x, y)
            &&& frame2.get(x, y) == frame.get(x, y)
        }),
{
    let fx = f.position.x as int;
    let fy = f.position.y as int;
    if depth_test(depth, f) {
        lemma_set_then_get(depth, fx, fy, f.depth as i64, x, y);
        match shaded_color(f, vs, tex) {
            Some(c) => {
                lemma_set_then_get(frame, fx, fy, c as u32, x, y);
            },
            None => {},
        }
    }
}

/// Every cell of `depth2` is at least the same cell of `depth` and differs
/// from it only by holding a valid depth, and a cell of `frame2` differs from
/// that of `frame` only where the depth rose.
pub open spec fn drawn_over(
    frame: BufferView<u32>,
    depth: BufferView<i64>,
    frame2: BufferView<u32>,
    depth2: BufferView<i64>,
) -> bool {
    &&& frame2.wf() && depth2.wf()
    &&& frame2.width == frame.width && frame2.height == frame.height
    &&& depth2.width == depth.width && depth2.height == depth.height
    &&& forall|x: int, y: int|
        depth.contains(x, y) ==> {
            &&& #[trigger] depth2.get(x, y) >= depth.get(x, y)
            &&& frame2.get(x, y) != frame.get(x, y) ==> depth2.get(x, y) > depth.get(x, y)
            &&& depth2.get(x, y) != depth.get(x, y) ==> 0 <= depth2.get(x, y) <= DEPTH_MAX
        }
}

/// The vector with entries `v`, each of which fits in `i64`.
pub open spec fn to_vector4(v: V4) -> Vector4<i64> {
    Vector4 { x: v.0 as i64, y: v.1 as i64, z: v.2 as i64, w: v.3 as i64 }
}

/// `m` takes vertex `v` to clip space within `ENTRY_LIMIT`.
pub open spec fn transforms(m: M4, v: Vector4<i64>) -> bool {
    m4_fits(m) && v4_fits(v@) && v4_fits(mat_vec(m, v@))
}

/// The triangle of `vs` under `m` is drawn: every vertex transforms, and
/// triangle setup accepts the result.
pub open spec fn draws(m: M4, vs: [Vertex; 3]) -> bool {
    &&& transforms(m, vs[0].position)
    &&& transforms(m, vs[1].position)
    &&& transforms(m, vs[2].position)
    &&& accepts(
        [
            to_vector4(mat_vec(m, vs[0].position@)),
            to_vector4(mat_vec(m, vs[1].position@)),
            to_vector4(mat_vec(m, vs[2].position@)),
        ],
    )
}

/// The buffers after compositing, in row-major order from pixel `c` to the
/// end of the bounding rectangle of `t`, the fragment of every pixel that
/// yields one.
pub open spec fn composite_from(
    frame: BufferView<u32>,
    depth: BufferView<i64>,
    t: TriangleView,
    c: (int, int),
    vs: [Vertex; 3],
    tex: TextureView,
) -> (BufferView<u32>, BufferView<i64>)
    decreases (t.high().1 + 1 - c.1) as nat, (t.high().0 - c.0) as nat,
{
    if !t.in_rect(c) {
        (frame, depth)
    } else {
        let next = if t.yields(c) {
            composite(frame, depth, fragment_of(t, c), vs, tex)
        } else {
            (frame, depth)
        };
        composite_from(next.0, next.1, t, successor(t, c), vs, tex)
    }
}

/// The buffers after compositing every fragment of `t` in scan order.
pub open spec fn composite_all(
    frame: BufferView<u32>,
    depth: BufferView<i64>,
    t: TriangleView,
    vs: [Vertex; 3],
    tex: TextureView,
) -> (BufferView<u32>, BufferView<i64>) {
    composite_from(frame, depth, t, t.low(), vs, tex)
}

/// Pixels that yield no fragment can be skipped.
proof fn lemma_skip(
    frame: BufferView<u32>,
    depth: BufferView<i64>,
    t: TriangleView,
    c: (int, int),
    p: (int, int),
    vs: [Vertex; 3],
    tex: TextureView,
)
    requires
        in_walk(t, c),
        in_walk(t, p),
        !before(p, c),
        forall|q: (int, int)| t.in_rect(q) && !before(q, c) && before(q, p) ==> !t.yields(q),
    ensures
        composite_from(frame, depth, t, c, vs, tex) == composite_from(frame, depth, t, p, vs, tex),
    decreases (t.high().1 + 1 - c.1) as nat, (t.high().0 - c.0) as nat,
{
    if c != p {
        assert(before(c, p));
        assert(t.in_rect(c));
        assert(!t.yields(c));
        lemma_skip(frame, depth, t, successor(t, c), p, vs, tex);
    }
}

/// The screen-space triangle of `vs` under `m`.
pub open spec fn clip_view(m: M4, vs: [Vertex; 3]) -> TriangleView {
    view_of(
        [
            to_vector4(mat_vec(m, vs[0].position@)),
            to_vector4(mat_vec(m, vs[1].position@)),
            to_vector4(mat_vec(m, vs[2].position@)),
        ],
    )
}

/// Transforms the vertices by `matrix`, sets the triangle up and
/// composites its fragments in scan order. Returns whether the triangle was
/// drawn: it is skipped where a transformed vertex exceeds `ENTRY_LIMIT` or
/// triangle setup rejects it.
pub fn draw_triangle(
    framebuffer: &mut Buffer<u32>,
    depth: &mut Buffer<i64>,
    matrix: &Matrix4<i64>,
    vertices: &[Vertex; 3],
    texture: &Texture,
) -> (drawn: bool)
    requires
        old(framebuffer)@.wf(),
        old(depth)@.wf(),
        old(framebuffer)@.width == old(depth)@.width,
        old(framebuffer)@.height == old(depth)@.height,
        uv_fits(*vertices),
        texture.wf(),
    ensures
        drawn_over(old(framebuffer)@, old(depth)@, final(framebuffer)@, final(depth)@),
        !drawn ==> final(framebuffer)@ == old(framebuffer)@ && final(depth)@ == old(depth)@,
        drawn <==> draws(matrix@, *vertices),
        drawn ==> (final(framebuffer)@, final(depth)@) == composite_all(
            old(framebuffer)@,
            old(depth)@,
            clip_view(matrix@, *vertices),
            *vertices,
            texture@,
        ),
        drawn ==> forall|x: int, y: int|
            old(depth)@.contains(x, y) && !clip_view(matrix@, *vertices).in_rect((x, y)) ==> {
                &&& #[trigger] final(depth)@.get(x, y) == old(depth)@.get(x, y)
                &&& final(framebuffer)@.get(x, y) == old(framebuffer)@.get(x, y)
            },
{
    let c0 = match matrix.mul_vec(vertices[0].position) {
        Some(c) => c,
        None => return false,
    };
    let c1 = match matrix.mul_vec(vertices[1].position) {
        Some(c) => c,
        None => return false,
    };
    let c2 = match matrix.mul_vec(vertices[2].position) {
        Some(c) => c,
        None => return false,
    };
    assert(c0 == to_vector4(mat_vec(matrix@, vertices[0].position@)));
    assert(c1 == to_vector4(mat_vec(matrix@, vertices[1].position@)));
    assert(c2 == to_vector4(mat_vec(matrix@, vertices[2].position@)));
    let triangle = match Triangle::new([c0, c1, c2]) {
        Some(t) => t,
        None => return false,
    };
    let ghost frame0 = framebuffer@;
    let ghost depth0 = depth@;
    let mut iter = triangle.into_iter();
    let ghost t = iter.triangle();
    loop
        invariant
            iter.wf(),
            iter.cursor_in_walk(),
            iter.triangle() == t,
            frame0 == old(framebuffer)@,
            depth0 == old(depth)@,
            frame0.wf(),
            depth0.wf(),
            frame0.width == depth0.width,
            frame0.height == depth0.height,
            drawn_over(frame0, depth0, framebuffer@, depth@),
            t == clip_view(matrix@, *vertices),
            composite_from(framebuffer@, depth@, t, iter.cursor(), *vertices, texture@)
                == composite_all(frame0, depth0, t, *vertices, texture@),
            forall|x: int, y: int|
                depth0.contains(x, y) && !t.in_rect((x, y)) ==> {
                    &&& #[trigger] depth@.get(x, y) == depth0.get(x, y)
                    &&& framebuffer@.get(x, y) == frame0.get(x, y)
                },
            uv_fits(*vertices),
            texture.wf(),
        ensures
            (framebuffer@, depth@) == composite_all(frame0, depth0, t, *vertices, texture@),
        decreases t.high().1 + 1 - iter.cursor().1, t.high().0 - iter.cursor().0,
    {
        let ghost c = iter.cursor();
        let f = match iter.next() {
            Some(f) => f,
            None => {
                proof {
                    lemma_skip(framebuffer@, depth@, t, c, iter.cursor(), *vertices, texture@);
                    assert(!t.in_rect(iter.cursor()));
                    assert(composite_from(framebuffer@, depth@, t, iter.cursor(), *vertices, texture@)
                        == (framebuffer@, depth@));
                }
                break;
            },
        };
        let ghost frame1 = framebuffer@;
        let ghost depth1 = depth@;
        proof {
            let p = (f.position.x as int, f.position.y as int);
            lemma_skip(frame1, depth1, t, c, p, *vertices, texture@);
            lemma_fragment_of(t, p, f);
        }
        shade_fragment(framebuffer, depth, &f, vertices, texture);
        proof {
            assert forall|x: int, y: int| depth0.contains(x, y) implies {
                &&& #[trigger] depth@.get(x, y) >= depth0.get(x, y)
                &&& framebuffer@.get(x, y) != frame0.get(x, y) ==> depth@.get(x, y) > depth0.get(
                    x,
                    y,
                )
                &&& depth@.get(x, y) != depth0.get(x, y) ==> 0 <= depth@.get(x, y) <= DEPTH_MAX
            } by {
                lemma_composite_monotone(frame1, depth1, f, *vertices, texture@, x, y);
                assert(depth1.get(x, y) >= depth0.get(x, y));
            }
            assert forall|x: int, y: int| depth0.contains(x, y) && !t.in_rect((x, y)) implies {
                &&& #[trigger] depth@.get(x, y) == depth0.get(x, y)
                &&& framebuffer@.get(x, y) == frame0.get(x, y)
            } by {
                lemma_composite_elsewhere(frame1, depth1, f, *vertices, texture@, x, y);
            }
        }
    }
    true
}

proof fn lemma_drawn_over_trans(
    frame0: BufferView<u32>,
    depth0: BufferView<i64>,
    frame1: BufferView<u32>,
    depth1: BufferView<i64>,
    frame2: BufferView<u32>,
    depth2: BufferView<i64>,
)
    requires
        drawn_over(frame0, depth0, frame1, depth1),
        drawn_over(frame1, depth1, frame2, depth2),
    ensures
        drawn_over(frame0, depth0, frame2, depth2),
{
    assert forall|x: int, y: int| depth0.contains(x, y) implies {
        &&& #[trigger] depth2.get(x, y) >= depth0.get(x, y)
        &&& frame2.get(x, y) != frame0.get(x, y) ==> depth2.get(x, y) > depth0.get(x, y)
        &&& depth2.get(x, y) != depth0.get(x, y) ==> 0 <= depth2.get(x, y) <= DEPTH_MAX
    } by {
        assert(depth1.contains(x, y));
        assert(depth1.get(x, y) >= depth0.get(x, y));
        assert(depth2.get(x, y) >= depth1.get(x, y));
    }
}

/// What compositing the fragments of `t` from pixel `c` on does to pixel
/// (x, y): its depth never falls; it is untouched where `t` yields no
/// fragment there; and where `t`'s fragment there comes at or after `c` with
/// a valid depth, the stored depth ends at least as near as that fragment.
proof fn lemma_composite_from_pixel(
    frame: BufferView<u32>,
    depth: BufferView<i64>,
    t: TriangleView,
    c: (int, int),
    vs: [Vertex; 3],
    tex: TextureView,
    x: int,
    y: int,
)
    requires
        frame.wf(),
        depth.wf(),
        frame.width == depth.width,
        frame.height == depth.height,
        depth.contains(x, y),
        view_fits(t),
        in_walk(t, c),
    ensures
        ({
            let (frame2, depth2) = composite_from(frame, depth, t, c, vs, tex);
            &&& frame2.wf() && depth2.wf()
            &&& frame2.width == frame.width && frame2.height == frame.height
            &&& depth2.width == depth.width && depth2.height == depth.height
            &&& depth2.get(x, y) >= depth.get(x, y)
            &&& !t.yields((x, y)) ==> frame2.get(x, y) == frame.get(x, y) && depth2.get(x, y)
                == depth.get(x, y)
            &&& t.yields((x, y)) && !before((x, y), c) && 0 <= fragment_of(t, (x, y)).depth
                <= DEPTH_MAX ==> depth2.get(x, y) >= fragment_of(t, (x, y)).depth
            &&& depth2.get(x, y) == depth.get(x, y) || (t.yields((x, y)) && depth2.get(x, y)
                == fragment_of(t, (x, y)).depth)
        }),
    decreases (t.high().1 + 1 - c.1) as nat, (t.high().0 - c.0) as nat,
{
    if t.in_rect(c) {
        let f = fragment_of(t, c);
        let next = if t.yields(c) {
            composite(frame, depth, f, vs, tex)
        } else {
            (frame, depth)
        };
        if t.yields(c) {
            lemma_composite_monotone(frame, depth, f, vs, tex, x, y);
            if x != c.0 || y != c.1 {
                lemma_composite_elsewhere(frame, depth, f, vs, tex, x, y);
            } else if depth_test(depth, f) {
                lemma_set_then_get(depth, x, y, f.depth as i64, x, y);
            }
        }
        lemma_composite_from_pixel(next.0, next.1, t, successor(t, c), vs, tex, x, y);
    }
}

/// `b` with every cell holding `v`.
pub open spec fn cleared<T>(b: BufferView<T>, v: T) -> BufferView<T> {
    BufferView { cells: Seq::new(b.cells.len(), |i: int| v), ..b }
}

/// The buffers after `draw_triangle` draws `vs` under `m`.
pub open spec fn draw_one(
    frame: BufferView<u32>,
    depth: BufferView<i64>,
    m: M4,
    vs: [Vertex; 3],
    tex: TextureView,
) -> (BufferView<u32>, BufferView<i64>) {
    if draws(m, vs) {
        composite_all(frame, depth, clip_view(m, vs), vs, tex)
    } else {
        (frame, depth)
    }
}

/// The buffers after drawing the triangles of `mesh` under `m`, in order.
pub open spec fn draw_mesh(
    frame: BufferView<u32>,
    depth: BufferView<i64>,
    m: M4,
    mesh: Seq<[Vertex; 3]>,
    tex: TextureView,
) -> (BufferView<u32>, BufferView<i64>)
    decreases mesh.len(),
{
    if mesh.len() == 0 {
        (frame, depth)
    } else {
        let before_last = draw_mesh(frame, depth, m, mesh.drop_last(), tex);
        draw_one(before_last.0, before_last.1, m, mesh.last(), tex)
    }
}

/// What drawing `mesh` does to pixel (x, y): where no drawn triangle yields
/// a fragment there the pixel keeps its colour and depth, and otherwise the
/// stored depth ends at least as near as every fragment there with a valid
/// depth.
pub proof fn lemma_draw_mesh_pixel(
    frame: BufferView<u32>,
    depth: BufferView<i64>,
    m: M4,
    mesh: Seq<[Vertex; 3]>,
    tex: TextureView,
    x: int,
    y: int,
)
    requires
        frame.wf(),
        depth.wf(),
        frame.width == depth.width,
        frame.height == depth.height,
        depth.contains(x, y),
    ensures
        ({
            let (frame2, depth2) = draw_mesh(frame, depth, m, mesh, tex);
            &&& frame2.wf() && depth2.wf()
            &&& frame2.width == frame.width && frame2.height == frame.height
            &&& depth2.width == depth.width && depth2.height == depth.height
            &&& depth2.get(x, y) >= depth.get(x, y)
            &&& (forall|i: int|
                0 <= i < mesh.len() && draws(m, #[trigger] mesh[i]) ==> !clip_view(
                    m,
                    mesh[i],
                ).yields((x, y))) ==> frame2.get(x, y) == frame.get(x, y) && depth2.get(x, y)
                == depth.get(x, y)
            &&& forall|i: int|
                0 <= i < mesh.len() && draws(m, #[trigger] mesh[i]) && clip_view(m, mesh[i]).yields(
                    (x, y),
                ) && 0 <= fragment_of(clip_view(m, mesh[i]), (x, y)).depth <= DEPTH_MAX
                    ==> depth2.get(x, y) >= fragment_of(clip_view(m, mesh[i]), (x, y)).depth
            &&& depth2.get(x, y) == depth.get(x, y) || exists|i: int|
                0 <= i < mesh.len() && draws(m, #[trigger] mesh[i]) && clip_view(m, mesh[i]).yields(
                    (x, y),
                ) && depth2.get(x, y) == fragment_of(clip_view(m, mesh[i]), (x, y)).depth
        }),
    decreases mesh.len(),
{
    if mesh.len() > 0 {
        let rest = mesh.drop_last();
        let vs = mesh.last();
        lemma_draw_mesh_pixel(frame, depth, m, rest, tex, x, y);
        let mid = draw_mesh(frame, depth, m, rest, tex);
        let last = draw_mesh(frame, depth, m, mesh, tex);
        assert forall|i: int| 0 <= i < rest.len() implies #[trigger] rest[i] == mesh[i] by {}
        assert(mesh[mesh.len() - 1] == vs);
        if draws(m, vs) {
            let t = clip_view(m, vs);
            assert(view_fits(t));
            lemma_composite_from_pixel(mid.0, mid.1, t, t.low(), vs, tex, x, y);
        }
        if forall|i: int|
            0 <= i < mesh.len() && draws(m, #[trigger] mesh[i]) ==> !clip_view(m, mesh[i]).yields(
                (x, y),
            ) {
            assert forall|i: int|
                0 <= i < rest.len() && draws(m, #[trigger] rest[i]) implies !clip_view(
                m,
                rest[i],
            ).yields((x, y)) by {
                assert(rest[i] == mesh[i]);
            }
            assert(draws(m, vs) ==> !clip_view(m, vs).yields((x, y)));
        }
        assert forall|i: int|
            0 <= i < mesh.len() && draws(m, #[trigger] mesh[i]) && clip_view(m, mesh[i]).yields(
                (x, y),
            ) && 0 <= fragment_of(clip_view(m, mesh[i]), (x, y)).depth <= DEPTH_MAX implies last.1.get(
            x,
            y,
        ) >= fragment_of(clip_view(m, mesh[i]), (x, y)).depth by {
            if i < rest.len() {
                assert(rest[i] == mesh[i]);
                assert(mid.1.get(x, y) >= fragment_of(clip_view(m, rest[i]), (x, y)).depth);
            } else {
                assert(mesh[i] == vs);
            }
        }
        if last.1.get(x, y) != depth.get(x, y) {
            if last.1.get(x, y) != mid.1.get(x, y) {
                let k = mesh.len() - 1;
                assert(0 <= k < mesh.len() && draws(m, mesh[k]) && clip_view(m, mesh[k]).yields((x, y))
                    && last.1.get(x, y) == fragment_of(clip_view(m, mesh[k]), (x, y)).depth);
            } else {
                let k = choose|i: int|
                    0 <= i < rest.len() && draws(m, #[trigger] rest[i]) && clip_view(m, rest[i]).yields(
                        (x, y),
                    ) && mid.1.get(x, y) == fragment_of(clip_view(m, rest[i]), (x, y)).depth;
                assert(rest[k] == mesh[k]);
                assert(0 <= k < mesh.len() && draws(m, mesh[k]) && clip_view(m, mesh[k]).yields((x, y))
                    && last.1.get(x, y) == fragment_of(clip_view(m, mesh[k]), (x, y)).depth);
            }
        }
    }
}

/// Draws one frame: clears the framebuffer to `CLEAR_COLOR` and the depth
/// buffer to `FAR_DEPTH`, then draws every triangle of `mesh` under
/// `matrix`, in order. Afterwards a pixel where no drawn triangle yields a
/// fragment keeps the clear colour and `FAR_DEPTH`, and every other stored
/// depth is the depth of one of the fragments there and at least as near as
/// each of them that has a valid depth: the nearest one.
pub fn render(
    framebuffer: &mut Buffer<u32>,
    depth: &mut Buffer<i64>,
    matrix: &Matrix4<i64>,
    mesh: &Vec<[Vertex; 3]>,
    texture: &Texture,
)
    requires
        old(framebuffer)@.wf(),
        old(depth)@.wf(),
        old(framebuffer)@.width == old(depth)@.width,
        old(framebuffer)@.height == old(depth)@.height,
        forall|i: int| 0 <= i < mesh@.len() ==> uv_fits(#[trigger] mesh@[i]),
        texture.wf(),
    ensures
        final(framebuffer)@.wf(),
        final(depth)@.wf(),
        final(framebuffer)@.width == old(framebuffer)@.width,
        final(framebuffer)@.height == old(framebuffer)@.height,
        final(depth)@.width == old(depth)@.width,
        final(depth)@.height == old(depth)@.height,
        (final(framebuffer)@, final(depth)@) == draw_mesh(
            cleared(old(framebuffer)@, CLEAR_COLOR),
            cleared(old(depth)@, FAR_DEPTH),
            matrix@,
            mesh@,
            texture@,
        ),
        forall|x: int, y: int|
            #![trigger final(depth)@.contains(x, y)]
            final(depth)@.contains(x, y) && (forall|i: int|
                0 <= i < mesh@.len() && draws(matrix@, #[trigger] mesh@[i]) ==> !clip_view(
                    matrix@,
                    mesh@[i],
                ).yields((x, y))) ==> final(framebuffer)@.get(x, y) == CLEAR_COLOR
                && final(depth)@.get(x, y) == FAR_DEPTH,
        forall|x: int, y: int, i: int|
            #![trigger final(depth)@.get(x, y), mesh@[i]]
            final(depth)@.contains(x, y) && 0 <= i < mesh@.len() && draws(matrix@, mesh@[i])
                && clip_view(matrix@, mesh@[i]).yields((x, y)) && 0 <= fragment_of(
                clip_view(matrix@, mesh@[i]),
                (x, y),
            ).depth <= DEPTH_MAX ==> final(depth)@.get(x, y) >= fragment_of(
                clip_view(matrix@, mesh@[i]),
                (x, y),
            ).depth,
        forall|x: int, y: int|
            #![trigger final(depth)@.contains(x, y)]
            final(depth)@.contains(x, y) ==> final(depth)@.get(x, y) == FAR_DEPTH || exists|i: int|
                0 <= i < mesh@.len() && draws(matrix@, #[trigger] mesh@[i]) && clip_view(
                    matrix@,
                    mesh@[i],
                ).yields((x, y)) && final(depth)@.get(x, y) == fragment_of(
                    clip_view(matrix@, mesh@[i]),
                    (x, y),
                ).depth,
        forall|x: int, y: int|
            final(depth)@.contains(x, y) ==> {
                &&& #[trigger] final(depth)@.get(x, y) == FAR_DEPTH || 0 <= final(depth)@.get(x, y)
                    <= DEPTH_MAX
                &&& final(depth)@.get(x, y) == FAR_DEPTH ==> final(framebuffer)@.get(x, y)
                    == CLEAR_COLOR
            },
{
    framebuffer.clear(CLEAR_COLOR);
    depth.clear(FAR_DEPTH);
    let ghost frame0 = framebuffer@;
    let ghost depth0 = depth@;
    proof {
        assert forall|x: int, y: int| depth0.contains(x, y) implies depth0.get(x, y) == FAR_DEPTH
            && frame0.get(x, y) == CLEAR_COLOR by {
            crate::buffers::lemma_index_in_range(depth0, x, y);
        }
        assert(drawn_over(frame0, depth0, frame0, depth0));
        assert(frame0.cells =~= cleared(old(framebuffer)@, CLEAR_COLOR).cells);
        assert(depth0.cells =~= cleared(old(depth)@, FAR_DEPTH).cells);
        assert(mesh@.take(0) =~= Seq::<[Vertex; 3]>::empty());
    }
    let mut i: usize = 0;
    while i < mesh.len()
        invariant
            frame0.wf(),
            depth0.wf(),
            frame0.width == depth0.width,
            frame0.height == depth0.height,
            frame0.width == old(framebuffer)@.width,
            frame0.height == old(framebuffer)@.height,
            forall|x: int, y: int|
                depth0.contains(x, y) ==> #[trigger] depth0.get(x, y) == FAR_DEPTH && frame0.get(
                    x,
                    y,
                ) == CLEAR_COLOR,
            drawn_over(frame0, depth0, framebuffer@, depth@),
            frame0 == cleared(old(framebuffer)@, CLEAR_COLOR),
            depth0 == cleared(old(depth)@, FAR_DEPTH),
            i <= mesh@.len(),
            (framebuffer@, depth@) == draw_mesh(frame0, depth0, matrix@, mesh@.take(i as int), texture@),
            forall|i: int| 0 <= i < mesh@.len() ==> uv_fits(#[trigger] mesh@[i]),
            texture.wf(),
        decreases mesh.len() - i,
    {
        let ghost frame1 = framebuffer@;
        let ghost depth1 = depth@;
        draw_triangle(framebuffer, depth, matrix, &mesh[i], texture);
        proof {
            lemma_drawn_over_trans(frame0, depth0, frame1, depth1, framebuffer@, depth@);
            assert(mesh@.take(i as int + 1).drop_last() =~= mesh@.take(i as int));
        }
        i = i + 1;
    }
    proof {
        assert(mesh@.take(mesh@.len() as int) =~= mesh@);
        assert forall|x: int, y: int|
            #![trigger depth@.contains(x, y)]
            depth@.contains(x, y) implies depth@.get(x, y) == FAR_DEPTH || exists|i: int|
                0 <= i < mesh@.len() && draws(matrix@, #[trigger] mesh@[i]) && clip_view(
                    matrix@,
                    mesh@[i],
                ).yields((x, y)) && depth@.get(x, y) == fragment_of(
                    clip_view(matrix@, mesh@[i]),
                    (x, y),
                ).depth by {
            assert(depth0.contains(x, y));
            assert(depth0.get(x, y) == FAR_DEPTH);
            lemma_draw_mesh_pixel(frame0, depth0, matrix@, mesh@, texture@, x, y);
        }
        assert forall|x: int, y: int|
            #![trigger depth@.contains(x, y)]
            depth@.contains(x, y) && (forall|i: int|
                0 <= i < mesh@.len() && draws(matrix@, #[trigger] mesh@[i]) ==> !clip_view(
                    matrix@,
                    mesh@[i],
                ).yields((x, y))) implies framebuffer@.get(x, y) == CLEAR_COLOR && depth@.get(x, y)
            == FAR_DEPTH by {
            assert(depth0.contains(x, y));
            assert(depth0.get(x, y) == FAR_DEPTH && frame0.get(x, y) == CLEAR_COLOR);
            lemma_draw_mesh_pixel(frame0, depth0, matrix@, mesh@, texture@, x, y);
        }
        assert forall|x: int, y: int| #![trigger depth@.get(x, y)] depth@.contains(x, y) implies {
            &&& (forall|i: int|
                0 <= i < mesh@.len() && draws(matrix@, #[trigger] mesh@[i]) ==> !clip_view(
                    matrix@,
                    mesh@[i],
                ).yields((x, y))) ==> framebuffer@.get(x, y) == CLEAR_COLOR && depth@.get(x, y)
                == FAR_DEPTH
            &&& forall|i: int|
                0 <= i < mesh@.len() && draws(matrix@, #[trigger] mesh@[i]) && clip_view(
                    matrix@,
                    mesh@[i],
                ).yields((x, y)) && 0 <= fragment_of(clip_view(matrix@, mesh@[i]), (x, y)).depth
                    <= DEPTH_MAX ==> depth@.get(x, y) >= fragment_of(
                    clip_view(matrix@, mesh@[i]),
                    (x, y),
                ).depth
        } by {
            assert(depth0.contains(x, y));
            assert(depth0.get(x, y) == FAR_DEPTH && frame0.get(x, y) == CLEAR_COLOR);
            lemma_draw_mesh_pixel(frame0, depth0, matrix@, mesh@, texture@, x, y);
        }
        assert forall|x: int, y: int| depth@.contains(x, y) implies {
            &&& #[trigger] depth@.get(x, y) == FAR_DEPTH || 0 <= depth@.get(x, y) <= DEPTH_MAX
            &&& depth@.get(x, y) == FAR_DEPTH ==> framebuffer@.get(x, y) == CLEAR_COLOR
        } by {
            assert(depth0.contains(x, y));
        }
    }
}

} // verus!
