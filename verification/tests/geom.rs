use takeashot::geom::{bounding_rect, fits_i32};
use takeashot::geom::{Point, PointerPos, Rect};

#[test]
fn normalize_flips_negative_extents() {
    assert_eq!(Rect::new(300, 400, -200, -100).normalize(), Rect::new(100, 300, 200, 100));
    assert_eq!(Rect::new(10, 20, 30, 40).normalize(), Rect::new(10, 20, 30, 40));
    // Normalizing twice changes nothing more.
    let n = Rect::new(5, 5, -3, 7).normalize();
    assert_eq!(n.normalize(), n);
}

#[test]
fn edges_and_containment_are_half_open() {
    let r = Rect::new(10, 20, 30, 40);
    assert_eq!((r.left(), r.top(), r.right(), r.bottom()), (10, 20, 40, 60));
    assert!(r.contains(Point::new(10, 20)));
    assert!(r.contains(Point::new(39, 59)));
    assert!(!r.contains(Point::new(40, 30)));
    assert!(!r.contains(Point::new(20, 60)));
    assert!(!Rect::new(0, 0, -5, 5).contains(Point::new(-2, 2)));
}

#[test]
fn intersect_overlap_and_disjoint() {
    let a = Rect::new(0, 0, 100, 100);
    let b = Rect::new(50, 60, 100, 100);
    assert_eq!(a.intersect(&b), Some(Rect::new(50, 60, 50, 40)));
    assert_eq!(b.intersect(&a), a.intersect(&b));
    // Touching edges do not overlap.
    assert_eq!(a.intersect(&Rect::new(100, 0, 10, 10)), None);
    assert_eq!(a.intersect(&Rect::new(200, 200, 10, 10)), None);
}

#[test]
fn intersection_membership_law() {
    let a = Rect::new(0, 0, 100, 100);
    let b = Rect::new(50, 60, 100, 100);
    let i = a.intersect(&b).unwrap();
    for (x, y) in [(49, 70), (50, 60), (99, 99), (100, 99), (75, 59), (120, 120)] {
        let p = Point::new(x, y);
        assert_eq!(i.contains(p), a.contains(p) && b.contains(p));
    }
}

#[test]
fn translate_and_clamp() {
    let r = Rect::new(10, 20, 30, 40);
    assert_eq!(r.translate(-10, 5), Rect::new(0, 25, 30, 40));
    let bounds = Rect::new(0, 0, 25, 50);
    assert_eq!(r.clamp(&bounds), Rect::new(10, 20, 15, 30));
    // Clamping a disjoint rect collapses it.
    assert!(Rect::new(100, 100, 5, 5).clamp(&bounds).is_empty());
    // A rect past the bounds collapses onto their far edge, inside them.
    let far = Rect::new(500, 0, 10, 10).clamp(&Rect::new(0, 0, 100, 100));
    assert_eq!(far, Rect::new(100, 0, 0, 10));
    assert_eq!(Rect::new(-50, 300, 10, 10).clamp(&Rect::new(0, 0, 100, 100)), Rect::new(0, 100, 0, 0));
    // Where they overlap, clamping equals intersecting.
    assert_eq!(Some(r.clamp(&bounds)), r.intersect(&bounds));
}

#[test]
fn is_empty_for_non_positive_extents() {
    assert!(Rect::new(0, 0, 0, 10).is_empty());
    assert!(Rect::new(0, 0, 10, -1).is_empty());
    assert!(!Rect::new(0, 0, 1, 1).is_empty());
}

#[test]
fn point_addition() {
    assert_eq!(Point::new(3, 4) + (10, -20), Point::new(13, -16));
}

#[test]
fn pointer_positions_truncate_toward_zero() {
    assert_eq!(PointerPos::from_pixels(12, -7), PointerPos { x: 12 * 256, y: -7 * 256 });
    assert_eq!(PointerPos { x: 255, y: -255 }.to_point(), Point::new(0, 0));
    assert_eq!(PointerPos { x: 513, y: -513 }.to_point(), Point::new(2, -2));
    assert_eq!(takeashot::geom::px_delta(100, 100 + 3 * 256 + 10), 3);
    assert_eq!(takeashot::geom::px_delta(100 + 3 * 256 + 10, 100), -3);
}

#[test]
fn normalize_and_i32_checks() {
    assert!(fits_i32(i32::MAX as i64));
    assert!(!fits_i32(i32::MAX as i64 + 1));
    assert!(fits_i32(i32::MIN as i64));
    assert!(!fits_i32(i32::MIN as i64 - 1));
    assert!(Rect::new(10, 10, -5, -5).can_normalize());
    assert!(!Rect::new(i32::MIN, 0, -1, 5).can_normalize());
    assert!(!Rect::new(0, 0, i32::MIN, 5).can_normalize());
    assert!(Rect::new(i32::MIN, 0, 5, 5).can_normalize());
}

#[test]
fn bounding_rect_spans_all_outputs() {
    let outputs = [Rect::new(0, 0, 1920, 1080), Rect::new(1920, -200, 1280, 720), Rect::new(-100, 500, 100, 900)];
    assert_eq!(bounding_rect(&outputs), Some(Rect::new(-100, -200, 3300, 1600)));
    assert_eq!(bounding_rect(&outputs[..1]), Some(Rect::new(0, 0, 1920, 1080)));
    assert_eq!(bounding_rect(&[]), None);
    let far = [Rect::new(i32::MIN, 0, 1, 1), Rect::new(i32::MAX - 1, 0, 1, 1)];
    assert_eq!(bounding_rect(&far), None);
}
