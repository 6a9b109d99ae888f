use software_render::grid::{RectI2, VecI2};
use software_render::triangles::{min_max_from_three, RasterTriangle};

#[test]
fn check_area_iterator() {
    let mut iter = RectI2::new((0, 0).into(), (100, 100).into()).unwrap().into_iter();
    for _ in 0..100 {
        iter.next();
    }

    assert_eq!(iter.next(), Some((0, 1).into()));
}

#[test]
#[should_panic]
fn check_area_iterator_fail() {
    let _ = RectI2::new((10, 10).into(), (9, 11).into()).unwrap();
}

#[test]
#[should_panic]
fn empty_area_iter() {
    let _ = RectI2::new((0, 0).into(), (0, 0).into()).unwrap();
}

#[test]
fn area_iterator_ends_after_every_pixel() {
    let rect = RectI2::new(VecI2::new(2, 3), VecI2::new(5, 5)).unwrap();
    assert_eq!(rect.size(), VecI2::new(3, 2));
    let mut iter = rect.into_iter();
    let mut seen = Vec::new();
    while let Some(p) = iter.next() {
        seen.push(p);
    }
    assert_eq!(
        seen,
        vec![
            VecI2::new(2, 3),
            VecI2::new(3, 3),
            VecI2::new(4, 3),
            VecI2::new(2, 4),
            VecI2::new(3, 4),
            VecI2::new(4, 4),
        ]
    );
    assert_eq!(iter.next(), None);
}

#[test]
fn math_teory() {
    let first = VecI2::new(10, 10);
    let second = VecI2::new(10, 0);

    let initial = first.cross(second) as i32;

    let predicted_x = initial - first.y;

    let predicted_y = initial + first.x;

    assert_eq!(first.cross(second.add((1, 0).into())) as i32, predicted_x);
    assert_eq!(first.cross(second.add((0, 1).into())) as i32, predicted_y);
    assert_eq!(
        first.cross(second.add((1, 1).into())) as i32,
        initial + first.x - first.y
    );
}

#[test]
fn vec_i2_arithmetic() {
    let a = VecI2::new(3, -4);
    let b = VecI2::new(-2, 5);
    assert_eq!(a.scalar(b), -26);
    assert_eq!(a.cross(b), 7);
    assert_eq!(a.sub(b), VecI2::new(5, -9));
    assert_eq!(a.neg(), VecI2::new(-3, 4));
    assert_eq!(VecI2::new(i32::MIN, i32::MIN).cross(VecI2::new(i32::MAX, i32::MIN)), (i32::MIN as i64) * (i32::MIN as i64) - (i32::MIN as i64) * (i32::MAX as i64));
}

#[test]
fn test_triangle_creation() {
    let _: RasterTriangle =
        RasterTriangle::new((0, 0).into(), (100, 0).into(), (50, 50).into()).unwrap();
}

#[test]
#[should_panic]
fn test_triangle_creation_failure() {
    let _: RasterTriangle =
        RasterTriangle::new((0, 0).into(), (0, 100).into(), (50, 50).into()).unwrap();
}

#[test]
fn raster_triangle_keeps_edges() {
    let t = RasterTriangle::new((0, 0).into(), (100, 0).into(), (50, 50).into()).unwrap();
    assert_eq!(t.segments.0, VecI2::new(100, 0));
    assert_eq!(t.segments.1, VecI2::new(-50, 50));
    assert_eq!(t.segments.2, VecI2::new(-50, -50));
    assert!(RasterTriangle::new((0, 0).into(), (10, 10).into(), (20, 20).into()).is_none());
}

#[test]
fn min_max_of_three() {
    assert_eq!(min_max_from_three(3, -7, 5), (-7, 5));
    assert_eq!(min_max_from_three(2, 2, 2), (2, 2));
}
