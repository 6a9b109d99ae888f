use software_render::drawing::{Line, Rect};
use software_render::fixed_point::FixedPoint;
use software_render::vectors::Vector2;

#[test]
fn line_walks_main_axis() {
    let mut line = Line::new(Vector2::new(10, 10), Vector2::new(0, 5)).unwrap();
    let mut points = Vec::new();
    while let Some(p) = line.next() {
        points.push(p);
    }
    assert_eq!(points.len(), 10);
    assert_eq!(points[0], Vector2::new(0, 5));
    for (i, p) in points.iter().enumerate() {
        assert_eq!(p.x, i as i32);
    }
    for w in points.windows(2) {
        assert!(w[1].y - w[0].y == 0 || w[1].y - w[0].y == 1);
    }
}

#[test]
fn steep_line_walks_y() {
    let mut line = Line::new(Vector2::new(0, 0), Vector2::new(2, 6)).unwrap();
    let mut points = Vec::new();
    while let Some(p) = line.next() {
        points.push(p);
    }
    assert_eq!(points[0], Vector2::new(0, 0));
    for (i, p) in points.iter().enumerate() {
        assert_eq!(p.y, i as i32);
    }
}

#[test]
fn rect_walk() {
    assert!(Rect::new(Vector2::new(0, 0), Vector2::new(0, 3)).is_none());
    let mut rect = Rect::new(Vector2::new(1, 1), Vector2::new(3, 3)).unwrap();
    let mut points = Vec::new();
    while let Some(p) = rect.next() {
        points.push(p);
    }
    assert_eq!(
        points,
        vec![Vector2::new(1, 1), Vector2::new(2, 1), Vector2::new(1, 2), Vector2::new(2, 2)]
    );
}

#[test]
fn fixed_point_arithmetic() {
    let a = FixedPoint::from_integer(3);
    let b = FixedPoint::from_integer(5);
    assert_eq!(a.raw(), 768);
    assert_eq!(a.add(b).raw(), 8 * 256);
    assert_eq!(a.sub(b).raw(), -2 * 256);
    assert_eq!(b.neg().raw(), -5 * 256);
}

#[test]
fn line_orders_agree() {
    let walk = |a: Vector2<i32>, b: Vector2<i32>| {
        let mut line = Line::new(a, b).unwrap();
        let mut points = Vec::new();
        while let Some(p) = line.next() {
            points.push(p);
        }
        points
    };
    let a = Vector2::new(3, 9);
    let b = Vector2::new(17, 2);
    assert_eq!(walk(a, b), walk(b, a));
    assert!(!walk(a, b).is_empty());
}
