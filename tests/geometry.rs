use neutron_star::point::{squared_distance, tolerance, within_radius, Point};

#[test]
fn point_new_and_dissolve() {
    let p = Point::new(-3, 7);
    assert_eq!(p.x, -3);
    assert_eq!(p.y, 7);
    assert_eq!(p.dissolve(), (-3, 7));
}

#[test]
fn squared_distance_exact_values() {
    assert_eq!(squared_distance(Point::new(0, 0), Point::new(90, 0)), 8100);
    assert_eq!(squared_distance(Point::new(3, 4), Point::new(0, 0)), 25);
    assert_eq!(squared_distance(Point::new(1, 1), Point::new(1, 1)), 0);
}

#[test]
fn squared_distance_extreme_corners_do_not_overflow() {
    let a = Point::new(-128, -128);
    let b = Point::new(127, 127);
    assert_eq!(squared_distance(a, b), 2 * 255 * 255);
}

#[test]
fn within_radius_boundary_is_inclusive() {
    assert!(within_radius(Point::new(0, 0), Point::new(3, 4), 5));
    assert!(!within_radius(Point::new(0, 0), Point::new(3, 4), 4));
    assert!(within_radius(Point::new(0, 0), Point::new(0, 0), 0));
}

#[test]
fn within_radius_is_symmetric() {
    let pts = [
        Point::new(0, 0),
        Point::new(90, 0),
        Point::new(-120, 0),
        Point::new(-128, 127),
        Point::new(17, -33),
    ];
    for a in pts.iter() {
        for b in pts.iter() {
            for r in [0u16, 32, 90, 128, 300] {
                assert_eq!(within_radius(*a, *b, r), within_radius(*b, *a, r));
            }
        }
    }
}

#[test]
fn tolerance_compares_sum_with_bound() {
    assert!(tolerance(3, 4, 7));
    assert!(!tolerance(3, 5, 7));
    assert!(tolerance(-100, -20, 0));
    // a bound above 127 reads as a negative value
    assert!(!tolerance(0, 0, 200));
}
