use software_render::raster::{_test_iter, Rect2, Triangle};
use software_render::vectors::{Vector2, Vector3, Vector4};

fn flat(x: i64, y: i64) -> Vector4<i64> {
    Vector3::new(x, y, 0).to_homogeneous()
}

#[test]
fn test_rect2() {
    let _rect = Rect2::new(Vector2::new(0, 0), Vector2::new(100, 100)).unwrap();
    let _rect2 = Rect2::new(Vector2::new(100, 100), Vector2::new(0, 0)).unwrap();
}

#[test]
fn flat_rect_is_rejected() {
    assert!(Rect2::new(Vector2::new(0, 5), Vector2::new(10, 5)).is_none());
    assert!(Rect2::new(Vector2::new(3, 0), Vector2::new(3, 10)).is_none());
}

#[test]
fn testing_iter() {
    let mut iter = _test_iter();

    for _ in 0..=100 {
        iter.next();
    }
    assert_eq!(iter.next().unwrap(), Vector2::new(0, 1));
}

#[test]
fn testing_iter_end() {
    let mut iter = _test_iter();

    for _ in 1..=101 * 101 - 1 {
        iter.next();
    }

    assert_eq!(iter.next(), Some(Vector2::new(100, 100)));
}

#[test]
fn rect_iter_of_reversed_corners() {
    let mut iter = Rect2::new(Vector2::new(2, 1), Vector2::new(0, 0)).unwrap().into_iter();
    let mut seen = Vec::new();
    while let Some(p) = iter.next() {
        seen.push(p);
    }
    assert_eq!(seen.len(), 6);
    assert_eq!(seen[0], Vector2::new(0, 0));
    assert_eq!(seen[3], Vector2::new(0, 1));
    assert_eq!(seen[5], Vector2::new(2, 1));
    assert_eq!(iter.next(), None);
}

#[test]
fn test_triangle() {
    let _triangle = Triangle::new([flat(0, 0), flat(100, 0), flat(0, 100)]).unwrap();

    let _triangle = Triangle::new([flat(100, 100), flat(50, 50), flat(100, 0)]).unwrap();
}

#[test]
#[should_panic]
fn test_triangle_should_failed() {
    let _ = Triangle::new([flat(0, 0), flat(0, 100), flat(100, 0)]).unwrap();
}

#[test]
fn clockwise_rejected_counter_clockwise_accepted() {
    assert!(Triangle::new([flat(0, 0), flat(0, 100), flat(100, 0)]).is_none());
    assert!(Triangle::new([flat(0, 0), flat(100, 0), flat(50, 50)]).is_some());
}

#[test]
fn flat_bounding_rectangle_is_rejected() {
    assert!(Triangle::new([flat(0, 0), flat(10, 0), flat(20, 0)]).is_none());
}

#[test]
fn out_of_range_vertices_are_rejected() {
    let far = Vector4::new(1 << 40, 0, 0, 1);
    assert!(Triangle::new([flat(0, 0), far, flat(0, 100)]).is_none());
}

#[test]
fn perspective_divide_and_common_w_factor() {
    // The same triangle scaled homogeneously by 4 is accepted and yields the
    // same fragments.
    let a = [flat(0, 0), flat(8, 0), flat(0, 8)];
    let b = [
        Vector4::new(0, 0, 0, 4),
        Vector4::new(32, 0, 0, 4),
        Vector4::new(0, 32, 0, 4),
    ];
    let mut ia = Triangle::new(a).unwrap().into_iter();
    let mut ib = Triangle::new(b).unwrap().into_iter();
    loop {
        match (ia.next(), ib.next()) {
            (None, None) => break,
            (Some(fa), Some(fb)) => {
                assert_eq!(fa.position, fb.position);
                assert_eq!(fa.coefs, fb.coefs);
                assert_eq!(fa.total, fb.total);
            }
            _ => panic!("different fragment counts"),
        }
    }
}

#[test]
fn fragments_are_strictly_inside_with_weights_summing_to_total() {
    let triangle = Triangle::new([flat(0, 0), flat(100, 0), flat(50, 50)]).unwrap();
    let mut iter = triangle.into_iter();
    let mut count = 0;
    let mut last: Option<(i64, i64)> = None;
    while let Some(f) = iter.next() {
        assert!(f.coefs.x > 0 && f.coefs.y > 0 && f.coefs.z > 0);
        assert_eq!(f.coefs.x + f.coefs.y + f.coefs.z, f.total);
        assert!(f.total > 0);
        let key = (f.position.y, f.position.x);
        if let Some(prev) = last {
            assert!(prev < key);
        }
        last = Some(key);
        // strictly inside: below the base edge's open half-plane and above
        // both slanted edges
        assert!(f.position.y > 0);
        assert!(f.position.y < f.position.x && f.position.y < 100 - f.position.x);
        count += 1;
    }
    // pixels with 0 < y < x and y < 100 - x: for each y in 1..50,
    // x ranges over y+1 ..= 99-y
    let expected: usize = (1..50).map(|y| (99 - y) - (y + 1) + 1).sum();
    assert_eq!(count, expected);
    assert!(iter.next().is_none());
}

#[test]
fn perspective_weights_follow_w() {
    // Vertex 0 at w = 1 and the others at w = 2: the weight of a pixel's
    // vertex is its edge value divided by that vertex's w.
    let v = [
        Vector4::new(0, 0, 0, 1),
        Vector4::new(200, 0, 0, 2),
        Vector4::new(0, 200, 0, 2),
    ];
    let mut iter = Triangle::new(v).unwrap().into_iter();
    let f = iter.next().unwrap();
    assert_eq!(f.position, Vector2::new(1, 1));
    // edge values at (1, 1): opposite v0 = 9800, opposite v1 = 100,
    // opposite v2 = 100; divided by w = (1, 2, 2) and scaled by w0*w1*w2 = 4
    assert_eq!(f.coefs, Vector3::new(9800 * 4, 100 * 2, 100 * 2));
    assert_eq!(f.total, 9800 * 4 + 400);
}

#[test]
fn interpolated_depth_is_weighted_average() {
    let v = [
        Vector4::new(0, 0, 100, 1),
        Vector4::new(10, 0, 100, 1),
        Vector4::new(0, 10, 100, 1),
    ];
    let mut iter = Triangle::new(v).unwrap().into_iter();
    while let Some(f) = iter.next() {
        assert_eq!(f.depth, 100);
    }
}
