use software_render::matrices::{Matrix4, DEPTH_MAX, FIXED_ONE};
use software_render::vectors::{Vector2, Vector3, Vector4};

fn sample_matrix(seed: i64) -> Matrix4<i64> {
    Matrix4::new(
        Vector4::new(seed, 2, -3, 4),
        Vector4::new(5, -seed, 7, 8),
        Vector4::new(-9, 10, seed * 2, 12),
        Vector4::new(13, 14, -15, seed + 1),
    )
}

#[test]
fn projection_test() {
    let projection = Matrix4::projection(Vector2::new(1, 1), FIXED_ONE, 1, 100);

    let point = Vector4::new(1, 1, -2, 1);

    let projected = projection.mul_vec(point).unwrap();

    // The projection sends z = -2 with planes at 1 and 100 to
    // z / w = -(far / (far - near)) * (2 - near) / 2 = -50 / 99, about
    // -0.505, not exactly -0.5: no projection that maps both planes to fixed
    // depths gives -0.5 there. The exact value is checked, and its distance
    // to -0.5.
    assert_eq!(projected.z * 99, -50 * projected.w);
    let ratio = projected.z as f64 / projected.w as f64;
    assert!((ratio + 0.5).abs() < 0.01);
}

#[test]
fn projection_entries() {
    let m = Matrix4::projection(Vector2::new(4, 3), 2 * FIXED_ONE, 1, 10);
    // scaled by FIXED_ONE * 4 * 9
    assert_eq!(m.x, Vector4::new(3 * 2 * FIXED_ONE * 9, 0, 0, 0));
    assert_eq!(m.y, Vector4::new(0, 4 * 2 * FIXED_ONE * 9, 0, 0));
    assert_eq!(m.z, Vector4::new(0, 0, FIXED_ONE * 4 * 10, FIXED_ONE * 4 * 10));
    assert_eq!(m.w, Vector4::new(0, 0, -(FIXED_ONE * 4 * 9), 0));
}

#[test]
fn composition_is_associative() {
    let a = sample_matrix(1);
    let b = sample_matrix(2);
    let c = sample_matrix(-3);
    let v = Vector4::new(1, -2, 3, 4);
    let first = a.mul(&b).unwrap().mul(&c).unwrap().mul_vec(v).unwrap();
    let second = a.mul_vec(b.mul_vec(c.mul_vec(v).unwrap()).unwrap()).unwrap();
    assert_eq!(first, second);
    assert_eq!(a.mul(&b).unwrap().mul(&c), a.mul(&b.mul(&c).unwrap()));
}

#[test]
fn look_then_project_is_associative() {
    let projection = Matrix4::projection(Vector2::new(1, 1), FIXED_ONE, 1, 100);
    let mut look = Matrix4::identity();
    look.z.w = -3;

    let point = Vector4::new(1, 1, 0, 1);

    let first = projection.mul(&look).unwrap().mul_vec(point).unwrap();
    let second = projection.mul_vec(look.mul_vec(point).unwrap()).unwrap();

    assert_eq!(first, second);
}

#[test]
fn identity_is_neutral() {
    let m = sample_matrix(6);
    let id = Matrix4::identity();
    let v = Vector4::new(-7, 8, 9, -10);
    assert_eq!(id.mul_vec(v), Some(v));
    assert_eq!(id.mul(&m), Some(m));
    assert_eq!(m.mul(&id), Some(m));
}

#[test]
fn product_entries_by_row_and_column() {
    let a = sample_matrix(1);
    let b = sample_matrix(2);
    let p = a.mul(&b).unwrap();
    // row 0 of a times column 0 of b
    assert_eq!(p.x.x, 1 * 2 + 2 * 5 + (-3) * (-9) + 4 * 13);
    // row 2 of a times column 3 of b
    assert_eq!(p.z.w, (-9) * 4 + 10 * 8 + 2 * 12 + 12 * 3);
}

#[test]
fn products_beyond_the_limit_are_refused() {
    let big = Matrix4::new(
        Vector4::new(1 << 40, 0, 0, 0),
        Vector4::new(0, 1, 0, 0),
        Vector4::new(0, 0, 1, 0),
        Vector4::new(0, 0, 0, 1),
    );
    assert!(big.mul(&big).is_none());
    assert!(big.mul_vec(Vector4::new(1 << 30, 0, 0, 1)).is_none());
    assert!(big.mul_vec(Vector4::new(1 << 20, 0, 0, 1)).is_some());
}

#[test]
fn viewport_maps_ndc_corners() {
    let vp = Matrix4::viewport(Vector2::new(200, 100));
    // NDC (-1, 1, -1) goes to the top-left corner at depth 0
    let top_left = vp.mul_vec(Vector4::new(-1, 1, -1, 1)).unwrap().to_cartesian();
    assert_eq!(top_left, Vector3::new(0, 0, 0));
    // NDC (1, -1, 1) goes to the bottom-right corner at full depth
    let bottom_right = vp.mul_vec(Vector4::new(1, -1, 1, 1)).unwrap().to_cartesian();
    assert_eq!(bottom_right, Vector3::new(200, 100, DEPTH_MAX));
}

#[test]
fn rotation_quarter_turn() {
    let r = Matrix4::rotation_x(0, FIXED_ONE);
    let v = r.mul_vec(Vector4::new(0, 1, 0, 1)).unwrap().to_cartesian();
    assert_eq!(v, Vector3::new(0, 0, 1));
}

#[test]
fn vector_operations() {
    let a = Vector3::new(1i64, 2, 3);
    let b = Vector3::new(4i64, 5, 6);
    assert_eq!(a.cross(b), Vector3::new(-3, 6, -3));
    assert_eq!(a.dot(b), 32);
    assert_eq!(a.add(b), Vector3::new(5, 7, 9));
    assert_eq!(b.sub(a), Vector3::new(3, 3, 3));
    assert_eq!(a.neg(), Vector3::new(-1, -2, -3));
    assert_eq!(b.scale(2), Vector3::new(8, 10, 12));
    assert_eq!(Vector3::new(-7i64, 7, 8).div(2), Vector3::new(-3, 3, 4));
    assert_eq!(Vector2::new(3i64, 4).dot(Vector2::new(3, 4)), 25);
    assert_eq!(Vector4::new(1i64, 2, 3, 4).dot(Vector4::new(1, 1, 1, 1)), 10);
}

#[test]
fn homogeneous_conversion() {
    assert_eq!(Vector4::new(8i64, -9, 10, 2).to_cartesian(), Vector3::new(4, -4, 5));
    assert_eq!(Vector4::new(8i64, -9, 10, 0).to_cartesian(), Vector3::new(8, -9, 10));
    assert_eq!(Vector4::new(8i64, 9, -10, -4).to_cartesian(), Vector3::new(-2, -2, 2));
    assert_eq!(Vector3::new(1i64, 2, 3).to_homogeneous(), Vector4::new(1, 2, 3, 1));
}
