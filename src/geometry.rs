use vstd::prelude::*;

verus! {

/// A point of the drawing canvas, in whole screen units.
#[derive(Clone, Copy, Debug, PartialEq, Eq, Structural)]
pub struct Point {
    pub x: i32,
    pub y: i32,
}

/// The two ends of a drawn edge.
pub type Segment = (Point, Point);

/// The two segments have an end point in common.
pub open spec fn incident(e1: Segment, e2: Segment) -> bool {
    e1.0 == e2.0 || e1.1 == e2.0 || e1.0 == e2.1 || e1.1 == e2.1
}

/// The planar cross product of the vectors `(ax, ay)` and `(bx, by)`.
pub open spec fn cross(ax: int, ay: int, bx: int, by: int) -> int {
    ax * by - ay * bx
}

/// `(P2 - P1) x (P4 - P3)` for the segments `P1P2` and `P3P4`.
pub open spec fn det_of(e1: Segment, e2: Segment) -> int {
    cross(
        e1.1.x - e1.0.x,
        e1.1.y - e1.0.y,
        e2.1.x - e2.0.x,
        e2.1.y - e2.0.y,
    )
}

/// Numerator of the parameter along `P1P2` at which the two lines meet.
pub open spec fn lambda_num(e1: Segment, e2: Segment) -> int {
    cross(
        e2.1.x - e1.0.x,
        e2.1.y - e1.0.y,
        e2.1.x - e2.0.x,
        e2.1.y - e2.0.y,
    )
}

/// Numerator of the parameter along `P4P3` at which the two lines meet.
pub open spec fn gamma_num(e1: Segment, e2: Segment) -> int {
    cross(
        e1.1.x - e1.0.x,
        e1.1.y - e1.0.y,
        e2.1.x - e1.0.x,
        e2.1.y - e1.0.y,
    )
}

/// `0 < num / det < 1`, for a nonzero `det`.
pub open spec fn strictly_inside(num: int, det: int) -> bool {
    if det > 0 {
        0 < num && num < det
    } else {
        det < num && num < 0
    }
}

/// The segments are not parallel and meet at a point inside both of them,
/// end points excluded.
pub open spec fn crosses(e1: Segment, e2: Segment) -> bool {
    det_of(e1, e2) != 0 && strictly_inside(lambda_num(e1, e2), det_of(e1, e2))
        && strictly_inside(gamma_num(e1, e2), det_of(e1, e2))
}

/// Two segments share at least one end point, in whatever order each is given.
pub fn are_incident(e1: Segment, e2: Segment) -> (r: bool)
    ensures
        r == incident(e1, e2),
{
    e1.0 == e2.0 || e1.1 == e2.0 || e1.0 == e2.1 || e1.1 == e2.1
}

/// Bound on the difference of two `i32` values.
const SPAN: i128 = 0x1_0000_0000;

fn diff(a: i32, b: i32) -> (r: i128)
    ensures
        r == a - b,
        -SPAN <= r <= SPAN,
{
    a as i128 - b as i128
}

fn cross_exec(ax: i128, ay: i128, bx: i128, by: i128) -> (r: i128)
    requires
        -SPAN <= ax <= SPAN,
        -SPAN <= ay <= SPAN,
        -SPAN <= bx <= SPAN,
        -SPAN <= by <= SPAN,
    ensures
        r == cross(ax as int, ay as int, bx as int, by as int),
        -2 * SPAN * SPAN <= r <= 2 * SPAN * SPAN,
{
    proof {
        let s = SPAN as int;
        assert(-s * s <= ax * by <= s * s) by (nonlinear_arith)
            requires
                -s <= ax <= s,
                -s <= by <= s,
        ;
        assert(-s * s <= ay * bx <= s * s) by (nonlinear_arith)
            requires
                -s <= ay <= s,
                -s <= bx <= s,
        ;
    }
    ax * by - ay * bx
}

fn inside_exec(num: i128, det: i128) -> (r: bool)
    ensures
        r == strictly_inside(num as int, det as int),
{
    if det > 0 {
        0 < num && num < det
    } else {
        det < num && num < 0
    }
}

/// Whether the segments cross properly: they are not parallel, and the point
/// where their lines meet lies strictly inside both. Parallel and collinear
/// segments never cross, nor do segments that only touch at an end point.
pub fn intersect(e1: Segment, e2: Segment) -> (r: bool)
    ensures
        r == crosses(e1, e2),
{
    let (p1, p2) = e1;
    let (p3, p4) = e2;
    let det = cross_exec(diff(p2.x, p1.x), diff(p2.y, p1.y), diff(p4.x, p3.x), diff(p4.y, p3.y));
    if det == 0 {
        false
    } else {
        let lam = cross_exec(diff(p4.x, p1.x), diff(p4.y, p1.y), diff(p4.x, p3.x), diff(p4.y, p3.y));
        let gam = cross_exec(diff(p2.x, p1.x), diff(p2.y, p1.y), diff(p4.x, p1.x), diff(p4.y, p1.y));
        inside_exec(lam, det) && inside_exec(gam, det)
    }
}

/// Two segments that share an end point are incident, whichever way round
/// either of them is written and in whichever order they are taken.
pub proof fn lemma_incident_any_order(e1: Segment, e2: Segment, p: Point)
    requires
        e1.0 == p || e1.1 == p,
        e2.0 == p || e2.1 == p,
    ensures
        incident(e1, e2),
        incident((e1.1, e1.0), e2),
        incident(e1, (e2.1, e2.0)),
        incident((e1.1, e1.0), (e2.1, e2.0)),
        incident(e2, e1),
{
}

/// Segments that have an end point in common never cross.
pub proof fn lemma_incident_never_crosses(e1: Segment, e2: Segment)
    requires
        incident(e1, e2),
    ensures
        !crosses(e1, e2),
{
    let (x1, y1, x2, y2) = (e1.0.x as int, e1.0.y as int, e1.1.x as int, e1.1.y as int);
    let (x3, y3, x4, y4) = (e2.0.x as int, e2.0.y as int, e2.1.x as int, e2.1.y as int);
    if e1.0 == e2.0 {
        assert(lambda_num(e1, e2) == 0) by (nonlinear_arith)
            requires
                x1 == x3,
                y1 == y3,
                lambda_num(e1, e2) == (x4 - x1) * (y4 - y3) - (y4 - y1) * (x4 - x3),
        ;
    } else if e1.0 == e2.1 {
        assert(lambda_num(e1, e2) == 0) by (nonlinear_arith)
            requires
                x1 == x4,
                y1 == y4,
                lambda_num(e1, e2) == (x4 - x1) * (y4 - y3) - (y4 - y1) * (x4 - x3),
        ;
    } else if e1.1 == e2.1 {
        assert(gamma_num(e1, e2) == 0) by (nonlinear_arith)
            requires
                x2 == x4,
                y2 == y4,
                gamma_num(e1, e2) == (x2 - x1) * (y4 - y1) - (y2 - y1) * (x4 - x1),
        ;
    } else {
        assert(lambda_num(e1, e2) == det_of(e1, e2)) by (nonlinear_arith)
            requires
                x2 == x3,
                y2 == y3,
                lambda_num(e1, e2) == (x4 - x1) * (y4 - y3) - (y4 - y1) * (x4 - x3),
                det_of(e1, e2) == (x2 - x1) * (y4 - y3) - (y2 - y1) * (x4 - x3),
        ;
    }
}

/// Whether two segments cross does not depend on which is taken first.
pub proof fn lemma_crosses_symmetric(e1: Segment, e2: Segment)
    ensures
        crosses(e1, e2) == crosses(e2, e1),
{
    let (x1, y1, x2, y2) = (e1.0.x as int, e1.0.y as int, e1.1.x as int, e1.1.y as int);
    let (x3, y3, x4, y4) = (e2.0.x as int, e2.0.y as int, e2.1.x as int, e2.1.y as int);
    let det = det_of(e1, e2);
    assert(det_of(e2, e1) == -det) by (nonlinear_arith)
        requires
            det == (x2 - x1) * (y4 - y3) - (y2 - y1) * (x4 - x3),
            det_of(e2, e1) == (x4 - x3) * (y2 - y1) - (y4 - y3) * (x2 - x1),
    ;
    assert(lambda_num(e2, e1) == gamma_num(e1, e2) - det) by (nonlinear_arith)
        requires
            det == (x2 - x1) * (y4 - y3) - (y2 - y1) * (x4 - x3),
            lambda_num(e2, e1) == (x2 - x3) * (y2 - y1) - (y2 - y3) * (x2 - x1),
            gamma_num(e1, e2) == (x2 - x1) * (y4 - y1) - (y2 - y1) * (x4 - x1),
    ;
    assert(gamma_num(e2, e1) == lambda_num(e1, e2) - det) by (nonlinear_arith)
        requires
            det == (x2 - x1) * (y4 - y3) - (y2 - y1) * (x4 - x3),
            gamma_num(e2, e1) == (x4 - x3) * (y2 - y3) - (y4 - y3) * (x2 - x3),
            lambda_num(e1, e2) == (x4 - x1) * (y4 - y3) - (y4 - y1) * (x4 - x3),
    ;
}

} // verus!
