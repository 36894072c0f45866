use graphs::geometry::{are_incident, intersect, Point};

fn p(x: i32, y: i32) -> Point {
    Point { x, y }
}

#[test]
fn incident_in_any_order() {
    let a = p(0, 0);
    let b = p(5, 7);
    let c = p(-3, 2);
    assert!(are_incident((a, b), (a, c)));
    assert!(are_incident((b, a), (a, c)));
    assert!(are_incident((a, b), (c, a)));
    assert!(are_incident((b, a), (c, a)));
    assert!(are_incident((c, a), (b, a)));
}

#[test]
fn not_incident_without_common_end() {
    assert!(!are_incident((p(0, 0), p(1, 1)), (p(2, 2), p(3, 3))));
}

#[test]
fn crossing_at_midpoints() {
    assert!(intersect((p(0, 0), p(10, 10)), (p(0, 10), p(10, 0))));
    assert!(intersect((p(0, 10), p(10, 0)), (p(0, 0), p(10, 10))));
}

#[test]
fn parallel_segments_do_not_cross() {
    assert!(!intersect((p(0, 0), p(10, 0)), (p(0, 1), p(10, 1))));
}

#[test]
fn collinear_overlap_does_not_cross() {
    assert!(!intersect((p(0, 0), p(10, 0)), (p(5, 0), p(15, 0))));
}

#[test]
fn shared_end_point_does_not_cross() {
    assert!(!intersect((p(0, 0), p(10, 10)), (p(10, 10), p(20, 0))));
    assert!(!intersect((p(0, 0), p(10, 10)), (p(0, 0), p(10, 0))));
    assert!(!intersect((p(0, 0), p(10, 10)), (p(20, 0), p(10, 10))));
    assert!(!intersect((p(10, 10), p(0, 0)), (p(0, 0), p(0, 20))));
}

#[test]
fn touching_inside_does_not_cross() {
    // the end of the second segment lies on the first one
    assert!(!intersect((p(0, 0), p(10, 0)), (p(5, 0), p(5, 10))));
}

#[test]
fn separate_segments_do_not_cross() {
    assert!(!intersect((p(0, 0), p(1, 1)), (p(5, 0), p(6, -4))));
}

#[test]
fn extreme_coordinates_cross() {
    let lo = i32::MIN;
    let hi = i32::MAX;
    assert!(intersect((p(lo, lo), p(hi, hi)), (p(lo, hi), p(hi, lo))));
}
