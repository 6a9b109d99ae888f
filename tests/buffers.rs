use software_render::buffers::Buffer;
use software_render::vectors::Vector2;

#[test]
fn test_buffer_init() {
    let mut buffer = Buffer::new(Vector2::new(100, 100), 0u32).unwrap();

    buffer.set_pixel(Vector2::new(50, 50), 100);
}

#[test]
#[should_panic]
fn test_out_of_buffer() {
    let mut buffer = Buffer::new(Vector2::new(100, 100), 0u32).unwrap();

    buffer.set_pixel(Vector2::new(100, 100), 0);
}

#[test]
fn set_then_get_returns_value() {
    let mut buffer = Buffer::new(Vector2::new(4, 3), 7i64).unwrap();
    buffer.set_pixel(Vector2::new(3, 2), -5);
    assert_eq!(buffer.get_pixel(Vector2::new(3, 2)), -5);
    assert_eq!(buffer.get_pixel(Vector2::new(2, 2)), 7);
    assert_eq!(buffer.get_pixel(Vector2::new(3, 1)), 7);
    assert_eq!(buffer.get_pixel(Vector2::new(0, 0)), 7);
}

#[test]
fn new_rejects_non_positive_sizes() {
    assert!(Buffer::new(Vector2::new(0, 10), 0u32).is_none());
    assert!(Buffer::new(Vector2::new(10, 0), 0u32).is_none());
    assert!(Buffer::new(Vector2::new(-1, 5), 0u32).is_none());
    assert!(Buffer::new(Vector2::new(1, 1), 0u32).is_some());
}

#[test]
fn clear_resets_every_cell() {
    let mut buffer = Buffer::new(Vector2::new(5, 2), 1u32).unwrap();
    buffer.set_pixel(Vector2::new(4, 1), 9);
    buffer.clear(3);
    for y in 0..2 {
        for x in 0..5 {
            assert_eq!(buffer.get_pixel(Vector2::new(x, y)), 3);
        }
    }
    assert_eq!(buffer.width(), 5);
    assert_eq!(buffer.height(), 2);
}

