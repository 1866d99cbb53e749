use bracket_geometry::prelude::{Point as OutsidePoint, Rect as OutsideRect};
use rainbow_rogue::geometry::{is_within_distance, Point, Rect};
use rainbow_rogue::text::decimal_string;

#[test]
fn point_new_and_zero() {
    assert_eq!(Point::new(3, -4), Point { x: 3, y: -4 });
    assert_eq!(Point::zero(), Point { x: 0, y: 0 });
}

#[test]
fn checked_offset_adds_or_refuses() {
    assert_eq!(Point::new(1, 2).checked_offset(Point::new(-3, 5)), Some(Point::new(-2, 7)));
    assert_eq!(Point::new(i32::MAX, 0).checked_offset(Point::new(1, 0)), None);
    assert_eq!(Point::new(0, i32::MIN).checked_offset(Point::new(0, -1)), None);
}

#[test]
fn rect_agrees_with_bracket_geometry() {
    let cases = [(2, 8, 12, 8), (0, 0, 1, 1), (-7, -3, 4, 9), (5, 5, 0, 0), (-10, -10, 3, 3)];
    for &(x, y, w, h) in cases.iter() {
        let mine = Rect::with_size(x, y, w, h);
        let theirs = OutsideRect::with_size(x, y, w, h);
        assert_eq!((mine.x1, mine.x2, mine.y1, mine.y2), (theirs.x1, theirs.x2, theirs.y1, theirs.y2));
        let c = mine.center();
        let oc = theirs.center();
        assert_eq!((c.x, c.y), (oc.x, oc.y));
        for &(x2, y2, w2, h2) in cases.iter() {
            let other = Rect::with_size(x2, y2, w2, h2);
            let outside_other = OutsideRect::with_size(x2, y2, w2, h2);
            assert_eq!(mine.intersect(&other), theirs.intersect(&outside_other));
        }
        for px in -12..20 {
            for py in -12..20 {
                assert_eq!(
                    mine.point_in_rect(Point::new(px, py)),
                    theirs.point_in_rect(OutsidePoint::new(px, py))
                );
            }
        }
    }
}

#[test]
fn rect_center_rounds_toward_zero() {
    assert_eq!(Rect { x1: 2, x2: 14, y1: 8, y2: 16 }.center(), Point::new(8, 12));
    assert_eq!(Rect { x1: -3, x2: 0, y1: -5, y2: 0 }.center(), Point::new(-1, -2));
    assert_eq!(Rect { x1: 0, x2: 3, y1: 0, y2: 5 }.center(), Point::new(1, 2));
    assert_eq!(
        Rect { x1: i32::MAX, x2: i32::MAX, y1: i32::MIN, y2: i32::MIN }.center(),
        Point::new(i32::MAX, i32::MIN)
    );
}

#[test]
fn rect_intersect_counts_touching_borders() {
    let a = Rect::with_size(0, 0, 4, 4);
    assert!(a.intersect(&Rect::with_size(4, 4, 2, 2)));
    assert!(!a.intersect(&Rect::with_size(5, 0, 2, 2)));
    assert!(a.intersect(&a));
}

#[test]
fn within_distance_is_exact() {
    let o = Point::new(0, 0);
    assert!(is_within_distance(o, Point::new(3, 4), 5));
    assert!(!is_within_distance(o, Point::new(3, 4), 4));
    assert!(is_within_distance(o, Point::new(0, 6), 6));
    assert!(!is_within_distance(o, Point::new(1, 6), 6));
    assert!(is_within_distance(o, o, 0));
    assert!(!is_within_distance(o, o, -1));
    assert!(!is_within_distance(Point::new(i32::MIN, i32::MIN), Point::new(i32::MAX, i32::MAX), i32::MAX));
    assert!(is_within_distance(Point::new(i32::MIN, 0), Point::new(i32::MIN + 5, 0), 5));
}

#[test]
fn decimal_string_matches_display() {
    let values: [i64; 14] = [
        0, 1, 9, 10, 11, 99, 100, 12345, -1, -10, -987654321, i64::MAX, i64::MIN, i32::MIN as i64,
    ];
    for v in values.iter() {
        assert_eq!(decimal_string(*v), format!("{}", v));
    }
}
