use software_render::buffers::Buffer;
use software_render::color::Color;
use software_render::matrices::{Matrix4, FIXED_ONE};
use software_render::raster::Fragment;
use software_render::render::{
    draw_triangle, render, shade_fragment, Texture, Vertex, CLEAR_COLOR, FAR_DEPTH, UV_ONE,
};
use software_render::vectors::{Vector2, Vector3, Vector4};

fn vertex(x: i64, y: i64, u: i64, v: i64, color: Color) -> Vertex {
    Vertex {
        position: Vector4::new(x, y, 0, 1),
        color,
        uv: Vector2::new(u, v),
    }
}

fn buffers(size: i32) -> (Buffer<u32>, Buffer<i64>) {
    (
        Buffer::new(Vector2::new(size, size), CLEAR_COLOR).unwrap(),
        Buffer::new(Vector2::new(size, size), FAR_DEPTH).unwrap(),
    )
}

fn one_texel() -> Texture {
    Texture::new(1, 1, vec![0xFF00_00FF]).unwrap()
}

/// viewport · projection · look · rotation for a 100×100 frame, a field of
/// view of 90°, clip planes at 1 and 10, the model 3 units in front of the
/// camera and turned about x by the angle with cosine 0.8 and sine 0.6.
fn scene_matrix() -> Matrix4<i64> {
    let viewport = Matrix4::viewport(Vector2::new(100, 100));
    let projection = Matrix4::projection(Vector2::new(100, 100), FIXED_ONE, 1, 10);
    let mut look = Matrix4::identity();
    look.z.w = -3;
    let rotation = Matrix4::rotation_x(52429, 39322);
    viewport
        .mul(&projection)
        .unwrap()
        .mul(&look)
        .unwrap()
        .mul(&rotation)
        .unwrap()
}

fn unit_quad(color: Color) -> Vec<[Vertex; 3]> {
    let c = [
        vertex(-1, -1, 0, 0, color),
        vertex(1, -1, UV_ONE, 0, color),
        vertex(-1, 1, 0, UV_ONE, color),
        vertex(1, 1, UV_ONE, UV_ONE, color),
    ];
    // both windings, as a two-sided quad: one of each pair faces the camera
    vec![
        [c[0], c[1], c[2]],
        [c[2], c[1], c[3]],
        [c[1], c[0], c[3]],
        [c[3], c[0], c[2]],
    ]
}

#[test]
fn end_to_end_quad() {
    let (mut frame, mut depth) = buffers(100);
    let red = Color::from_rgb(255, 0, 0);
    render(&mut frame, &mut depth, &scene_matrix(), &unit_quad(red), &one_texel());

    let top_left = depth.get_pixel(Vector2::new(32, 36));
    let top_right = depth.get_pixel(Vector2::new(67, 36));
    let center = depth.get_pixel(Vector2::new(50, 50));
    let bottom_left = depth.get_pixel(Vector2::new(38, 58));
    let bottom_right = depth.get_pixel(Vector2::new(61, 58));
    // the top edge is turned toward the camera: larger depth is nearer
    assert_eq!(top_left, 11154);
    assert_eq!(top_right, 11154);
    assert_eq!(center, 8962);
    assert_eq!(bottom_left, 7243);
    assert_eq!(bottom_right, 7243);
    assert!(top_left > center && center > bottom_left);
    for p in [(32, 36), (67, 36), (50, 50), (38, 58), (61, 58)] {
        assert_eq!(frame.get_pixel(Vector2::new(p.0, p.1)), 0xFFFF_0000);
    }
    // outside the silhouette
    for p in [(0, 0), (99, 99), (50, 20), (50, 70), (31, 58), (68, 58)] {
        assert_eq!(frame.get_pixel(Vector2::new(p.0, p.1)), CLEAR_COLOR);
        assert_eq!(depth.get_pixel(Vector2::new(p.0, p.1)), FAR_DEPTH);
    }
}

#[test]
fn nearer_triangle_wins_in_either_order() {
    let near = [
        Vertex { position: Vector4::new(0, 0, 500, 1), color: Color::from_rgb(0, 255, 0), uv: Vector2::new(0, 0) },
        Vertex { position: Vector4::new(40, 0, 500, 1), color: Color::from_rgb(0, 255, 0), uv: Vector2::new(0, 0) },
        Vertex { position: Vector4::new(0, 40, 500, 1), color: Color::from_rgb(0, 255, 0), uv: Vector2::new(0, 0) },
    ];
    let mut far = near;
    for v in far.iter_mut() {
        v.position.z = 100;
        v.color = Color::from_rgb(0, 0, 255);
    }
    for mesh in [vec![near, far], vec![far, near]] {
        let (mut frame, mut depth) = buffers(50);
        render(&mut frame, &mut depth, &Matrix4::identity(), &mesh, &one_texel());
        assert_eq!(depth.get_pixel(Vector2::new(5, 5)), 500);
        assert_eq!(frame.get_pixel(Vector2::new(5, 5)), 0xFF00_FF00);
        assert_eq!(frame.get_pixel(Vector2::new(45, 45)), CLEAR_COLOR);
    }
}

#[test]
fn back_facing_triangle_draws_nothing() {
    let (mut frame, mut depth) = buffers(20);
    let white = Color::from_rgb(255, 255, 255);
    let tri = [vertex(0, 0, 0, 0, white), vertex(0, 10, 0, 0, white), vertex(10, 0, 0, 0, white)];
    assert!(!draw_triangle(&mut frame, &mut depth, &Matrix4::identity(), &tri, &one_texel()));
    assert_eq!(depth.get_pixel(Vector2::new(2, 2)), FAR_DEPTH);
    let tri = [vertex(0, 0, 0, 0, white), vertex(10, 0, 0, 0, white), vertex(0, 10, 0, 0, white)];
    assert!(draw_triangle(&mut frame, &mut depth, &Matrix4::identity(), &tri, &one_texel()));
    assert_eq!(depth.get_pixel(Vector2::new(2, 2)), 0);
    assert_eq!(frame.get_pixel(Vector2::new(2, 2)), 0xFFFF_FFFF);
}

fn fragment(x: i64, y: i64, depth: i128) -> Fragment {
    Fragment {
        position: Vector2::new(x, y),
        depth,
        coefs: Vector3::new(1, 1, 2),
        total: 4,
    }
}

fn shading_vertices() -> [Vertex; 3] {
    [
        vertex(0, 0, 0, 0, Color::from_rgb(200, 0, 40)),
        vertex(0, 0, UV_ONE, 0, Color::from_rgb(100, 40, 0)),
        vertex(0, 0, 0, UV_ONE, Color::from_rgb(0, 20, 80)),
    ]
}

#[test]
fn shade_interpolates_colour() {
    let (mut frame, mut depth) = buffers(8);
    let tex = Texture::new(2, 2, vec![1, 2, 3, 4]).unwrap();
    shade_fragment(&mut frame, &mut depth, &fragment(3, 4, 10), &shading_vertices(), &tex);
    assert_eq!(depth.get_pixel(Vector2::new(3, 4)), 10);
    // (200 + 100 + 0) / 4, (0 + 40 + 40) / 4, (40 + 0 + 160) / 4
    assert_eq!(frame.get_pixel(Vector2::new(3, 4)), 0xFF4B_1432);
}

#[test]
fn shade_discards_failed_depth_test() {
    let (mut frame, mut depth) = buffers(8);
    let tex = one_texel();
    depth.set_pixel(Vector2::new(3, 4), 10);
    shade_fragment(&mut frame, &mut depth, &fragment(3, 4, 10), &shading_vertices(), &tex);
    assert_eq!(frame.get_pixel(Vector2::new(3, 4)), CLEAR_COLOR);
    assert_eq!(depth.get_pixel(Vector2::new(3, 4)), 10);
    // outside the buffer and outside the depth range
    shade_fragment(&mut frame, &mut depth, &fragment(8, 0, 20), &shading_vertices(), &tex);
    shade_fragment(&mut frame, &mut depth, &fragment(-1, 0, 20), &shading_vertices(), &tex);
    shade_fragment(&mut frame, &mut depth, &fragment(1, 1, 70000), &shading_vertices(), &tex);
    assert_eq!(depth.get_pixel(Vector2::new(1, 1)), FAR_DEPTH);
}

#[test]
fn shade_skips_texel_out_of_range() {
    let (mut frame, mut depth) = buffers(8);
    let tex = one_texel();
    let mut vs = shading_vertices();
    for v in vs.iter_mut() {
        v.uv = Vector2::new(UV_ONE, 0);
    }
    shade_fragment(&mut frame, &mut depth, &fragment(2, 2, 5), &vs, &tex);
    // the depth is stored before the texture is sampled
    assert_eq!(depth.get_pixel(Vector2::new(2, 2)), 5);
    assert_eq!(frame.get_pixel(Vector2::new(2, 2)), CLEAR_COLOR);
}

#[test]
fn texture_lookup() {
    let tex = Texture::new(3, 2, vec![10, 11, 12, 20, 21, 22]).unwrap();
    assert_eq!(tex.get_pixel_checked(2, 1), Some(22));
    assert_eq!(tex.get_pixel_checked(0, 1), Some(20));
    assert_eq!(tex.get_pixel_checked(3, 0), None);
    assert_eq!(tex.get_pixel_checked(0, 2), None);
    assert!(Texture::new(3, 2, vec![1, 2, 3]).is_none());
    assert_eq!((tex.width(), tex.height()), (3, 2));
}

#[test]
fn colour_packing() {
    assert_eq!(Color::from_rgb(255, 0, 0).to_u32(), 0xFFFF_0000);
    assert_eq!(Color { r: 1, g: 2, b: 3, a: 4 }.to_u32(), 0x0401_0203);
    let half = Color::from_rgb(255, 100, 3).scale(1, 2);
    assert_eq!(half, Color { r: 127, g: 50, b: 1, a: 127 });
}

#[test]
fn slightly_negative_texture_coordinate_truncates_to_first_texel() {
    let (mut frame, mut depth) = buffers(8);
    let tex = one_texel();
    let mut vs = shading_vertices();
    for v in vs.iter_mut() {
        v.uv = Vector2::new(-1, 0);
    }
    // u = -4 / (4 * UV_ONE) = -1 / UV_ONE: truncated toward zero, texel 0
    shade_fragment(&mut frame, &mut depth, &fragment(2, 2, 5), &vs, &tex);
    assert_eq!(depth.get_pixel(Vector2::new(2, 2)), 5);
    assert_eq!(frame.get_pixel(Vector2::new(2, 2)), 0xFF4B_1432);
}

#[test]
fn negative_texel_index_is_skipped() {
    let (mut frame, mut depth) = buffers(8);
    let tex = one_texel();
    let mut vs = shading_vertices();
    for v in vs.iter_mut() {
        v.uv = Vector2::new(0, -UV_ONE);
    }
    shade_fragment(&mut frame, &mut depth, &fragment(2, 2, 5), &vs, &tex);
    assert_eq!(depth.get_pixel(Vector2::new(2, 2)), 5);
    assert_eq!(frame.get_pixel(Vector2::new(2, 2)), CLEAR_COLOR);
}

#[test]
fn channels_beyond_range_are_clamped() {
    let (mut frame, mut depth) = buffers(8);
    let tex = one_texel();
    let f = Fragment {
        position: Vector2::new(1, 1),
        depth: 7,
        coefs: Vector3::new(3, -1, 2),
        total: 4,
    };
    let vs = [
        vertex(0, 0, 0, 0, Color::from_rgb(255, 0, 0)),
        vertex(0, 0, 0, 0, Color::from_rgb(0, 200, 0)),
        vertex(0, 0, 0, 0, Color::from_rgb(255, 0, 8)),
    ];
    shade_fragment(&mut frame, &mut depth, &f, &vs, &tex);
    // red (765 + 510) / 4 = 318 -> 255; green -200 / 4 = -50 -> 0; blue 16 / 4 = 4
    assert_eq!(frame.get_pixel(Vector2::new(1, 1)), 0xFFFF_0004);
}
