use neutron_star::connectivity::connect;
use neutron_star::point::Point;

fn joined(edges: &[(Point, Point)], a: Point, b: Point) -> bool {
    edges.contains(&(a, b)) || edges.contains(&(b, a))
}

#[test]
fn three_constellations_on_a_line() {
    let a = Point::new(0, 0);
    let b = Point::new(90, 0);
    let c = Point::new(-120, 0);
    let edges = connect(&vec![a, b, c], 128);
    assert!(joined(&edges, a, b));
    assert!(joined(&edges, a, c));
    assert!(!joined(&edges, b, c));
    assert_eq!(edges, vec![(a, b), (a, c)]);
}

#[test]
fn no_points_no_edges() {
    assert!(connect(&Vec::new(), 128).is_empty());
    assert!(connect(&vec![Point::new(1, 1)], 128).is_empty());
}

#[test]
fn equal_points_are_never_joined() {
    let a = Point::new(5, 5);
    let edges = connect(&vec![a, a], 128);
    assert!(edges.is_empty());
}

#[test]
fn each_pair_once_in_one_order() {
    let pts = vec![
        Point::new(0, 0),
        Point::new(10, 0),
        Point::new(0, 10),
        Point::new(10, 10),
    ];
    let edges = connect(&pts, 32);
    assert_eq!(edges.len(), 6);
    for (i, e) in edges.iter().enumerate() {
        assert_ne!(e.0, e.1);
        for f in edges.iter().skip(i + 1) {
            assert_ne!(e, f);
            assert_ne!((e.1, e.0), *f);
        }
    }
}

#[test]
fn radius_zero_joins_nothing() {
    let pts = vec![Point::new(0, 0), Point::new(1, 0)];
    assert!(connect(&pts, 0).is_empty());
    assert_eq!(connect(&pts, 1), vec![(pts[0], pts[1])]);
}
