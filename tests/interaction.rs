use graphs::geometry::Point;
use graphs::graph::{Delta, Graphs, Modes};
use graphs::interaction::PointerEvent;

fn p(x: i32, y: i32) -> Point {
    Point { x, y }
}

fn click(x: i32, y: i32) -> PointerEvent {
    PointerEvent::Click { at: p(x, y) }
}

fn three_vertices() -> Graphs {
    let mut g = Graphs::default();
    g.handle(click(0, 0));
    g.handle(click(100, 0));
    g.handle(click(200, 0));
    g
}

#[test]
fn add_mode_places_vertices() {
    let g = three_vertices();
    assert_eq!(g.vertices.len(), 3);
    let mut h = three_vertices();
    h.handle(click(10, 10));
    assert_eq!(h.vertices.len(), 3);
}

#[test]
fn hit_square_includes_border() {
    let g = three_vertices();
    assert_eq!(g.hit_vertex(p(22, 22)), Some(0));
    assert_eq!(g.hit_vertex(p(78, -22)), Some(1));
    assert_eq!(g.hit_vertex(p(23, 0)), None);
    assert_eq!(g.hit_vertex(p(50, 0)), None);
}

#[test]
fn connect_two_clicks_join() {
    let mut g = three_vertices();
    g.mode = Modes::Connect;
    g.handle(click(1, 1));
    assert_eq!(g.cur, Some(0));
    g.handle(click(-3, 2));
    assert_eq!(g.cur, Some(0));
    assert!(g.edges.is_empty());
    g.handle(click(100, 5));
    assert_eq!(g.edges, vec![(0, 1)]);
    assert_eq!(g.cur, None);
    // the same pair again, the other way round: nothing new
    g.handle(click(100, 0));
    g.handle(click(0, 0));
    assert_eq!(g.edges, vec![(0, 1)]);
    assert_eq!(g.cur, None);
}

#[test]
fn connect_click_on_empty_canvas_does_nothing() {
    let mut g = three_vertices();
    g.mode = Modes::Connect;
    g.handle(click(0, 0));
    g.handle(click(50, 300));
    assert_eq!(g.cur, Some(0));
    assert!(g.edges.is_empty());
}

#[test]
fn disconnect_two_clicks_part() {
    let mut g = three_vertices();
    assert!(g.add_edge(0, 1));
    assert!(g.add_edge(1, 2));
    g.mode = Modes::Disconnect;
    g.handle(click(200, 0));
    g.handle(click(100, 0));
    assert_eq!(g.edges, vec![(0, 1)]);
    assert_eq!(g.cur, None);
}

#[test]
fn delete_click_removes_vertex() {
    let mut g = three_vertices();
    assert!(g.add_edge(0, 2));
    assert!(g.add_edge(1, 2));
    g.mode = Modes::Delete;
    g.handle(click(100, 0));
    assert_eq!(g.vertices.len(), 2);
    assert_eq!(g.edges, vec![(0, 1)]);
}

#[test]
fn move_drag_moves_one_vertex() {
    let mut g = three_vertices();
    g.mode = Modes::Move;
    g.handle(PointerEvent::Drag { at: p(100, 0), delta: Delta { dx: 3, dy: 4 } });
    assert_eq!(g.vertices[1].center, p(103, 4));
    assert_eq!(g.vertices[0].center, p(0, 0));
    // a click does not move anything
    g.handle(click(103, 4));
    assert_eq!(g.vertices[1].center, p(103, 4));
}

#[test]
fn drag_moves_every_vertex() {
    let mut g = three_vertices();
    g.mode = Modes::Drag;
    g.handle(PointerEvent::Drag { at: p(500, 500), delta: Delta { dx: -1, dy: 2 } });
    assert_eq!(g.vertices[0].center, p(-1, 2));
    assert_eq!(g.vertices[2].center, p(199, 2));
}

#[test]
fn frame_start_drops_selection_outside_connect() {
    let mut g = three_vertices();
    g.mode = Modes::Connect;
    g.handle(click(0, 0));
    g.begin_frame();
    assert_eq!(g.cur, Some(0));
    g.mode = Modes::Disconnect;
    g.begin_frame();
    assert_eq!(g.cur, Some(0));
    g.mode = Modes::Drag;
    g.begin_frame();
    assert_eq!(g.cur, None);
}
