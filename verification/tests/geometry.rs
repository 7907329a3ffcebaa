use simple_wrapper::geometry::{Point, Rectangle, Size};

fn rect(x: i32, y: i32, w: i32, h: i32) -> Rectangle {
    Rectangle {
        loc: Point { x, y },
        size: Size { w, h },
    }
}

#[test]
fn intersection_is_the_common_area() {
    let a = rect(0, 0, 10, 10);
    let b = rect(4, -3, 20, 8);
    assert_eq!(a.intersection(&b), Some(rect(4, 0, 6, 5)));
    assert_eq!(b.intersection(&a), Some(rect(4, 0, 6, 5)));
}

#[test]
fn touching_rectangles_have_an_empty_intersection() {
    let a = rect(0, 0, 10, 10);
    assert_eq!(a.intersection(&rect(10, 2, 5, 5)), Some(rect(10, 2, 0, 5)));
    assert_eq!(a.intersection(&rect(10, 10, 5, 5)), Some(rect(10, 10, 0, 0)));
}

#[test]
fn rectangles_apart_have_no_intersection() {
    let a = rect(0, 0, 10, 10);
    assert_eq!(a.intersection(&rect(11, 0, 5, 5)), None);
    assert_eq!(a.intersection(&rect(-6, 0, 5, 5)), None);
    assert_eq!(a.intersection(&rect(0, 11, 5, 5)), None);
    assert_eq!(a.intersection(&rect(0, -6, 5, 5)), None);
}

#[test]
fn validity_of_sizes_and_rectangles() {
    assert!(Size { w: 0, h: 0 }.is_valid());
    assert!(!Size { w: -1, h: 0 }.is_valid());
    assert!(!Size { w: 0, h: -1 }.is_valid());
    assert!(rect(i32::MAX - 5, 0, 5, 0).is_valid());
    assert!(!rect(i32::MAX - 5, 0, 6, 0).is_valid());
    assert!(!rect(0, i32::MAX, 0, 1).is_valid());
    assert!(!rect(0, 0, -1, 1).is_valid());
}

#[test]
fn hull_must_have_a_width_and_a_height() {
    let left = rect(i32::MIN, 0, 1, 1);
    assert!(left.can_merge(&rect(-2, 0, 1, 1)));
    assert!(!left.can_merge(&rect(-1, 0, 1, 1)));
    assert!(!rect(0, i32::MIN, 1, 1).can_merge(&rect(0, 0, 1, 1)));
}
