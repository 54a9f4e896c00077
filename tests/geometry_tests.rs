use wayshell::geometry::{Point, Rect, Size, Transform, WidePoint};
use wayshell::output::Output;

#[test]
fn rect_contains_left_top_edges_only() {
    let r = Rect { loc: Point { x: 10, y: 20 }, size: Size { w: 5, h: 5 } };
    assert!(r.contains(Point { x: 10, y: 20 }));
    assert!(r.contains(Point { x: 14, y: 24 }));
    assert!(!r.contains(Point { x: 15, y: 20 }));
    assert!(!r.contains(Point { x: 10, y: 25 }));
    assert!(!r.contains(Point { x: 9, y: 22 }));
}

#[test]
fn rect_contains_at_extreme_coordinates() {
    let r = Rect { loc: Point { x: i32::MAX - 1, y: i32::MAX - 1 }, size: Size { w: i32::MAX, h: i32::MAX } };
    assert!(r.contains(Point { x: i32::MAX, y: i32::MAX }));
    assert!(!r.contains(Point { x: i32::MIN, y: i32::MAX }));
}

#[test]
fn rects_overlap_needs_shared_area() {
    let a = Rect { loc: Point { x: 0, y: 0 }, size: Size { w: 10, h: 10 } };
    let touching = Rect { loc: Point { x: 10, y: 0 }, size: Size { w: 10, h: 10 } };
    let crossing = Rect { loc: Point { x: 9, y: 9 }, size: Size { w: 10, h: 10 } };
    let empty = Rect { loc: Point { x: 5, y: 5 }, size: Size { w: 0, h: 3 } };
    assert!(!a.overlaps(&touching));
    assert!(a.overlaps(&crossing));
    assert!(!a.overlaps(&empty));
}

#[test]
fn transform_point_in_each_orientation() {
    let p = WidePoint { x: 2, y: 3 };
    let area = WidePoint { x: 10, y: 20 };
    let cases = [
        (Transform::Normal, (2, 3)),
        (Transform::Rotated90, (17, 2)),
        (Transform::Rotated180, (8, 17)),
        (Transform::Rotated270, (3, 8)),
        (Transform::Flipped, (8, 3)),
        (Transform::Flipped90, (3, 2)),
        (Transform::Flipped180, (2, 17)),
        (Transform::Flipped270, (17, 8)),
    ];
    for (t, (x, y)) in cases {
        assert_eq!(t.transform_point_in(p, area), WidePoint { x, y }, "{:?}", t);
    }
}

#[test]
fn logical_size_divides_by_scale_rounding_up() {
    let o = Output { mode: Size { w: 1921, h: 1080 }, scale: 2, transform: Transform::Normal };
    assert_eq!(o.logical_size(), Size { w: 961, h: 540 });
    let turned = Output { mode: Size { w: 1920, h: 1080 }, scale: 1, transform: Transform::Rotated90 };
    assert_eq!(turned.logical_size(), Size { w: 1080, h: 1920 });
    let empty = Output { mode: Size { w: 0, h: 0 }, scale: 3, transform: Transform::Normal };
    assert_eq!(empty.logical_size(), Size { w: 0, h: 0 });
}
