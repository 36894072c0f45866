use graphs::geometry::Point;
use graphs::graph::{Color, Delta, Graphs, Modes, Vertex};

fn p(x: i32, y: i32) -> Point {
    Point { x, y }
}

fn graph_with(points: &[(i32, i32)], edges: &[(usize, usize)]) -> Graphs {
    let mut g = Graphs::default();
    for &(x, y) in points {
        assert!(g.add_vertex(p(x, y)));
    }
    for &(a, b) in edges {
        assert!(g.add_edge(a, b));
    }
    g
}

#[test]
fn default_settings() {
    let g = Graphs::default();
    assert!(g.vertices.is_empty());
    assert!(g.edges.is_empty());
    assert_eq!(g.radius, 22);
    assert_eq!(g.fill, Color { r: 50, g: 100, b: 150, a: 255 });
    assert_eq!(g.label_color, Color { r: 245, g: 235, b: 245, a: 255 });
    assert_eq!(g.mode, Modes::Add);
    assert_eq!(g.cur, None);
    assert!(!g.labels);
}

#[test]
fn bowtie_has_one_crossing() {
    let g = graph_with(&[(0, 0), (100, 100), (100, 0), (0, 100)], &[(0, 1), (1, 2), (2, 3), (3, 0)]);
    assert_eq!(g.count_intersections(), 1);
}

#[test]
fn triangle_has_no_crossing() {
    let g = graph_with(&[(0, 0), (100, 0), (50, 80)], &[(0, 1), (1, 2), (2, 0)]);
    assert_eq!(g.count_intersections(), 0);
}

#[test]
fn two_crossings_counted() {
    // a long horizontal edge crossed by two vertical edges
    let g = graph_with(
        &[(0, 50), (300, 50), (100, 0), (100, 100), (200, 0), (200, 100)],
        &[(0, 1), (2, 3), (4, 5)],
    );
    assert_eq!(g.count_intersections(), 2);
}

#[test]
fn empty_graph_has_no_crossing() {
    assert_eq!(Graphs::default().count_intersections(), 0);
}

#[test]
fn vertex_too_close_is_refused() {
    let mut g = Graphs::default();
    assert!(g.add_vertex(p(0, 0)));
    assert!(!g.add_vertex(p(30, 0)));
    assert!(!g.add_vertex(p(31, 31)));
    assert_eq!(g.vertices.len(), 1);
    // exactly twice the radius away is allowed
    assert!(g.add_vertex(p(44, 0)));
    assert_eq!(g.vertices.len(), 2);
    assert_eq!(g.vertices[1], Vertex { center: p(44, 0), radius: 22, fill: g.fill });
}

#[test]
fn add_edge_twice_adds_once() {
    let mut g = graph_with(&[(0, 0), (100, 0)], &[]);
    assert!(g.add_edge(0, 1));
    assert!(!g.add_edge(0, 1));
    assert!(!g.add_edge(1, 0));
    assert_eq!(g.edges, vec![(0, 1)]);
}

#[test]
fn self_loop_is_refused() {
    let mut g = graph_with(&[(0, 0)], &[]);
    assert!(!g.add_edge(0, 0));
    assert!(g.edges.is_empty());
}

#[test]
fn remove_vertex_renumbers_edges() {
    let mut g = graph_with(
        &[(0, 0), (100, 0), (200, 0), (300, 0)],
        &[(0, 1), (1, 2), (2, 3), (0, 3)],
    );
    g.cur = Some(3);
    g.remove_vertex(1);
    assert_eq!(g.vertices.len(), 3);
    assert_eq!(g.vertices[1].center, p(200, 0));
    assert_eq!(g.edges, vec![(1, 2), (0, 2)]);
    assert_eq!(g.cur, None);
}

#[test]
fn remove_last_vertex_keeps_lower_indices() {
    let mut g = graph_with(&[(0, 0), (100, 0), (200, 0)], &[(0, 1), (1, 2)]);
    g.remove_vertex(2);
    assert_eq!(g.edges, vec![(0, 1)]);
}

#[test]
fn remove_edge_in_either_order() {
    let mut g = graph_with(&[(0, 0), (100, 0), (200, 0)], &[(0, 1), (1, 2)]);
    g.remove_edge(2, 1);
    assert_eq!(g.edges, vec![(0, 1)]);
    g.remove_edge(0, 2);
    assert_eq!(g.edges, vec![(0, 1)]);
}

#[test]
fn move_vertex_translates() {
    let mut g = graph_with(&[(0, 0), (100, 0)], &[(0, 1)]);
    assert!(g.move_vertex(1, Delta { dx: 5, dy: -7 }));
    assert_eq!(g.vertices[1].center, p(105, -7));
    assert_eq!(g.edges, vec![(0, 1)]);
}

#[test]
fn move_vertex_off_range_is_refused() {
    let mut g = graph_with(&[(i32::MAX - 1, 0)], &[]);
    assert!(!g.move_vertex(0, Delta { dx: 2, dy: 0 }));
    assert_eq!(g.vertices[0].center, p(i32::MAX - 1, 0));
}

#[test]
fn translate_all_moves_every_vertex() {
    let mut g = graph_with(&[(0, 0), (100, 0)], &[]);
    assert!(g.translate_all(Delta { dx: -10, dy: 20 }));
    assert_eq!(g.vertices[0].center, p(-10, 20));
    assert_eq!(g.vertices[1].center, p(90, 20));
}

#[test]
fn translate_all_off_range_is_refused() {
    let mut g = graph_with(&[(0, 0), (0, i32::MIN + 5)], &[]);
    assert!(!g.translate_all(Delta { dx: 1, dy: -10 }));
    assert_eq!(g.vertices[0].center, p(0, 0));
}

#[test]
fn delete_graph_empties() {
    let mut g = graph_with(&[(0, 0), (100, 0)], &[(0, 1)]);
    g.cur = Some(0);
    g.delete_graph();
    assert!(g.vertices.is_empty());
    assert!(g.edges.is_empty());
    assert_eq!(g.cur, None);
}

#[test]
fn new_keeps_consistent_drawing() {
    let g = graph_with(&[(0, 0), (100, 0)], &[(0, 1)]);
    let r = Graphs::new(Some(g));
    assert_eq!(r.vertices.len(), 2);
    assert_eq!(r.edges, vec![(0, 1)]);
}

#[test]
fn new_without_stored_is_default() {
    let r = Graphs::new(None);
    assert!(r.vertices.is_empty());
    assert_eq!(r.radius, 22);
}

#[test]
fn new_replaces_corrupt_drawing() {
    let mut g = graph_with(&[(0, 0), (100, 0)], &[]);
    g.edges.push((0, 5));
    assert!(!g.is_well_formed());
    let r = Graphs::new(Some(g));
    assert!(r.vertices.is_empty());
    assert!(r.edges.is_empty());

    let mut d = graph_with(&[(0, 0), (100, 0)], &[(0, 1)]);
    d.edges.push((1, 0));
    assert!(!d.is_well_formed());
    let mut s = graph_with(&[(0, 0)], &[]);
    s.cur = Some(1);
    assert!(!s.is_well_formed());
}
