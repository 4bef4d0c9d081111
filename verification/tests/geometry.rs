use streetcad::geometry::{orientation, Bounds, Circle, Pt};
use streetcad::ring::{Ring, RingError};

fn p(x: i32, y: i32) -> Pt {
    Pt::new(x, y)
}

fn ring(pts: &[(i32, i32)]) -> Ring {
    Ring::new(pts.iter().map(|&(x, y)| p(x, y)).collect()).unwrap()
}

fn defect(pts: &[(i32, i32)]) -> Option<RingError> {
    Ring::new(pts.iter().map(|&(x, y)| p(x, y)).collect()).err()
}

#[test]
fn point_keeps_its_coordinates() {
    let pt = Pt::new(-7, 12);
    assert_eq!(pt.x, -7);
    assert_eq!(pt.y, 12);
    assert_eq!(pt, Pt { x: -7, y: 12 });
    assert_ne!(pt, Pt { x: 12, y: -7 });
}

#[test]
fn orientation_is_twice_the_signed_area() {
    assert_eq!(orientation(p(0, 0), p(4, 0), p(0, 3)), 12);
    assert_eq!(orientation(p(0, 0), p(0, 3), p(4, 0)), -12);
    assert_eq!(orientation(p(1, 1), p(3, 3), p(7, 7)), 0);
    assert_eq!(orientation(p(1, 0), p(1, 2), p(0, 1)), 2);
    assert_eq!(orientation(p(1, 2), p(1, 0), p(0, 1)), -2);
    assert_eq!(orientation(p(2, 3), p(2, 3), p(9, 9)), 0);
}

#[test]
fn orientation_holds_the_widest_coordinates() {
    let lo = i32::MIN;
    let hi = i32::MAX;
    let span: i128 = hi as i128 - lo as i128;
    assert_eq!(orientation(p(lo, lo), p(hi, lo), p(lo, hi)), span * span);
    assert_eq!(orientation(p(lo, lo), p(lo, hi), p(hi, lo)), -span * span);
    assert_eq!(orientation(p(hi, hi), p(lo, lo), p(hi, lo)), span * span);
    assert_eq!(orientation(p(lo, hi), p(hi, lo), p(lo, lo)), -span * span);
    assert_eq!(orientation(p(lo, lo), p(hi, hi), p(0, 0)), 0);
}

#[test]
fn circle_holds_what_is_closer_than_its_radius() {
    let c = Circle::new(p(100, 100), 5);
    assert_eq!(c.center, p(100, 100));
    assert_eq!(c.radius, 5);
    assert!(c.contains_pt(p(100, 100)));
    assert!(c.contains_pt(p(104, 100)));
    assert!(c.contains_pt(p(103, 103)));
    assert!(c.contains_pt(p(97, 104 - 1)));
    assert!(!c.contains_pt(p(105, 100)));
    assert!(!c.contains_pt(p(100, 95)));
    assert!(!c.contains_pt(p(103, 104)));
    assert!(!c.contains_pt(p(104, 104)));
    assert!(!c.contains_pt(p(106, 100)));
}

#[test]
fn circle_without_radius_holds_nothing() {
    let c = Circle::new(p(3, 3), 0);
    assert!(!c.contains_pt(p(3, 3)));
    assert!(!c.contains_pt(p(3, 4)));
}

#[test]
fn circle_holds_the_widest_coordinates() {
    let far = Circle::new(p(i32::MIN, i32::MIN), 1);
    assert!(far.contains_pt(p(i32::MIN, i32::MIN)));
    assert!(!far.contains_pt(p(i32::MAX, i32::MAX)));
    let all = Circle::new(p(0, 0), u32::MAX);
    assert!(all.contains_pt(p(i32::MAX, i32::MAX)));
    assert!(all.contains_pt(p(i32::MIN, i32::MIN)));
    let most = Circle::new(p(i32::MIN, 0), u32::MAX);
    assert!(most.contains_pt(p(i32::MAX - 1, 0)));
    assert!(!most.contains_pt(p(i32::MAX, 0)));
}

#[test]
fn bounds_start_inverted_and_grow() {
    let mut b = Bounds::new();
    assert_eq!(b, Bounds { min_x: i32::MAX, min_y: i32::MAX, max_x: i32::MIN, max_y: i32::MIN });
    b.update(p(3, -4));
    assert_eq!(b, Bounds { min_x: 3, min_y: -4, max_x: 3, max_y: -4 });
    b.update(p(-1, 2));
    assert_eq!(b, Bounds { min_x: -1, min_y: -4, max_x: 3, max_y: 2 });
    b.update(p(0, 0));
    assert_eq!(b, Bounds { min_x: -1, min_y: -4, max_x: 3, max_y: 2 });
    b.update(p(i32::MAX, i32::MIN));
    assert_eq!(b, Bounds { min_x: -1, min_y: i32::MIN, max_x: i32::MAX, max_y: 2 });
}

#[test]
fn ring_keeps_the_points_it_was_made_from() {
    let pts = vec![p(0, 0), p(4, 0), p(0, 3), p(0, 0)];
    let r = Ring::new(pts.clone()).unwrap();
    assert_eq!(r.points(), &pts);
}

#[test]
fn ring_needs_four_points() {
    assert_eq!(defect(&[]), Some(RingError::TooFewPoints));
    assert_eq!(defect(&[(0, 0)]), Some(RingError::TooFewPoints));
    assert_eq!(defect(&[(0, 0), (0, 0)]), Some(RingError::TooFewPoints));
    assert_eq!(defect(&[(0, 0), (1, 1), (0, 0)]), Some(RingError::TooFewPoints));
    assert_eq!(defect(&[(0, 0), (1, 1), (2, 0)]), Some(RingError::TooFewPoints));
    assert_eq!(defect(&[(0, 0), (4, 0), (0, 3), (0, 0)]), None);
}

#[test]
fn ring_needs_to_close() {
    assert_eq!(defect(&[(0, 0), (4, 0), (4, 4), (0, 4)]), Some(RingError::NotClosed));
    assert_eq!(defect(&[(0, 0), (4, 0), (4, 4), (0, 1)]), Some(RingError::NotClosed));
    assert_eq!(defect(&[(0, 0), (4, 0), (4, 0), (1, 0)]), Some(RingError::NotClosed));
    assert_eq!(defect(&[(0, 0), (4, 0), (4, 4), (0, 4), (0, 0)]), None);
}

#[test]
fn ring_needs_distinct_vertices() {
    // Two neighbours coincide.
    assert_eq!(defect(&[(0, 0), (4, 0), (4, 0), (0, 0)]), Some(RingError::RepeatedVertex));
    assert_eq!(defect(&[(0, 0), (0, 0), (4, 4), (0, 0)]), Some(RingError::RepeatedVertex));
    assert_eq!(defect(&[(0, 0), (4, 0), (0, 0), (0, 0)]), Some(RingError::RepeatedVertex));
    // Two vertices apart coincide.
    assert_eq!(
        defect(&[(0, 0), (4, 0), (4, 4), (4, 0), (0, 4), (0, 0)]),
        Some(RingError::RepeatedVertex)
    );
    assert_eq!(
        defect(&[(0, 0), (4, 0), (0, 0), (0, 4), (0, 0)]),
        Some(RingError::RepeatedVertex)
    );
    assert_eq!(defect(&[(0, 0), (0, 0), (0, 0), (0, 0)]), Some(RingError::RepeatedVertex));
    // Three vertices on one line are distinct all the same.
    assert_eq!(defect(&[(0, 0), (1, 1), (2, 2), (0, 0)]), None);
    // Edges may cross.
    assert_eq!(defect(&[(0, 0), (4, 4), (4, 0), (0, 4), (0, 0)]), None);
}

#[test]
fn square_holds_its_inside_and_its_boundary() {
    let r = ring(&[(0, 0), (10, 0), (10, 10), (0, 10), (0, 0)]);
    for inside in [(5, 5), (1, 1), (9, 9), (1, 9), (9, 1)] {
        assert!(r.contains_pt(p(inside.0, inside.1)), "{:?}", inside);
    }
    for corner in [(0, 0), (10, 0), (10, 10), (0, 10)] {
        assert!(r.contains_pt(p(corner.0, corner.1)), "{:?}", corner);
    }
    for edge in [(5, 0), (10, 5), (5, 10), (0, 5), (1, 0), (0, 9)] {
        assert!(r.contains_pt(p(edge.0, edge.1)), "{:?}", edge);
    }
    for outside in [
        (-1, 5),
        (11, 5),
        (5, -1),
        (5, 11),
        (-1, -1),
        (11, 11),
        (-1, 0),
        (11, 0),
        (-1, 10),
        (11, 10),
        (0, -1),
        (0, 11),
        (50, 50),
    ] {
        assert!(!r.contains_pt(p(outside.0, outside.1)), "{:?}", outside);
    }
}

#[test]
fn direction_of_the_ring_does_not_matter() {
    let one = ring(&[(0, 0), (10, 0), (10, 10), (0, 10), (0, 0)]);
    let other = ring(&[(0, 0), (0, 10), (10, 10), (10, 0), (0, 0)]);
    for x in -2..13 {
        for y in -2..13 {
            assert_eq!(one.contains_pt(p(x, y)), other.contains_pt(p(x, y)), "({}, {})", x, y);
            let expected = 0 <= x && x <= 10 && 0 <= y && y <= 10;
            assert_eq!(one.contains_pt(p(x, y)), expected, "({}, {})", x, y);
        }
    }
}

#[test]
fn triangle_holds_what_lies_under_its_slope() {
    let r = ring(&[(0, 0), (8, 0), (0, 8), (0, 0)]);
    for x in -1..10 {
        for y in -1..10 {
            let expected = x >= 0 && y >= 0 && x + y <= 8;
            assert_eq!(r.contains_pt(p(x, y)), expected, "({}, {})", x, y);
        }
    }
}

#[test]
fn diamond_is_met_at_the_level_of_its_corners() {
    let r = ring(&[(0, -5), (5, 0), (0, 5), (-5, 0), (0, -5)]);
    // A ray at the level of the left and right corners runs through a vertex.
    assert!(r.contains_pt(p(-5, 0)));
    assert!(r.contains_pt(p(-1, 0)));
    assert!(r.contains_pt(p(0, 0)));
    assert!(r.contains_pt(p(5, 0)));
    assert!(!r.contains_pt(p(-6, 0)));
    assert!(!r.contains_pt(p(6, 0)));
    // And at the level of the top and bottom corners.
    assert!(r.contains_pt(p(0, 5)));
    assert!(!r.contains_pt(p(-1, 5)));
    assert!(!r.contains_pt(p(1, 5)));
    assert!(r.contains_pt(p(0, -5)));
    assert!(!r.contains_pt(p(-3, -5)));
    assert!(!r.contains_pt(p(3, -5)));
    for x in -6..7i32 {
        for y in -6..7i32 {
            let expected = x.abs() + y.abs() <= 5;
            assert_eq!(r.contains_pt(p(x, y)), expected, "({}, {})", x, y);
        }
    }
}

#[test]
fn notch_of_a_hollow_shape_is_outside() {
    // A square with a notch cut into its top, between x = 4 and x = 6, down to y = 3.
    let r = ring(&[(0, 0), (10, 0), (10, 10), (6, 10), (6, 3), (4, 3), (4, 10), (0, 10), (0, 0)]);
    assert!(r.contains_pt(p(2, 8)));
    assert!(r.contains_pt(p(8, 8)));
    assert!(r.contains_pt(p(5, 2)));
    assert!(!r.contains_pt(p(5, 8)));
    assert!(!r.contains_pt(p(5, 4)));
    assert!(r.contains_pt(p(5, 3)));
    assert!(r.contains_pt(p(4, 7)));
    assert!(r.contains_pt(p(6, 7)));
    assert!(!r.contains_pt(p(5, 10)));
    assert!(r.contains_pt(p(4, 10)));
    assert!(r.contains_pt(p(3, 10)));
    for x in -1..12 {
        for y in -1..12 {
            let in_square = 0 <= x && x <= 10 && 0 <= y && y <= 10;
            let in_notch = 4 < x && x < 6 && y > 3;
            assert_eq!(r.contains_pt(p(x, y)), in_square && !in_notch, "({}, {})", x, y);
        }
    }
}

#[test]
fn bow_tie_holds_its_two_wings() {
    let r = ring(&[(0, 0), (8, 8), (8, 0), (0, 8), (0, 0)]);
    assert!(r.contains_pt(p(4, 4)));
    assert!(r.contains_pt(p(1, 4)));
    assert!(r.contains_pt(p(7, 4)));
    assert!(!r.contains_pt(p(4, 1)));
    assert!(!r.contains_pt(p(4, 7)));
    assert!(r.contains_pt(p(2, 2)));
    assert!(r.contains_pt(p(0, 8)));
}

#[test]
fn containment_holds_the_widest_coordinates() {
    let lo = i32::MIN;
    let hi = i32::MAX;
    let r = ring(&[(lo, lo), (hi, lo), (hi, hi), (lo, hi), (lo, lo)]);
    assert!(r.contains_pt(p(0, 0)));
    assert!(r.contains_pt(p(lo, lo)));
    assert!(r.contains_pt(p(hi, hi)));
    assert!(r.contains_pt(p(lo, 17)));
    let t = ring(&[(lo, lo), (hi, lo), (lo, hi), (lo, lo)]);
    assert!(t.contains_pt(p(lo + 1, lo + 1)));
    assert!(t.contains_pt(p(-1, 0)));
    assert!(t.contains_pt(p(-1, -1)));
    assert!(!t.contains_pt(p(0, 0)));
    assert!(!t.contains_pt(p(hi, hi)));
}
