use graphs::geometry::Point;
use graphs::graph::Graphs;

fn graph(points: &[(i32, i32)], edges: &[(usize, usize)], labels: bool) -> Graphs {
    let mut g = Graphs::default();
    for &(x, y) in points {
        assert!(g.add_vertex(Point { x, y }));
    }
    for &(a, b) in edges {
        assert!(g.add_edge(a, b));
    }
    g.labels = labels;
    g
}

#[test]
fn export_two_vertices_one_edge_with_labels() {
    let text = graph(&[(100, 200), (150, -5)], &[(0, 1)], true).export_tikz();
    let draws: Vec<&str> = text.lines().filter(|l| l.contains("\\draw")).collect();
    assert_eq!(draws.len(), 1);
    assert_eq!(draws[0].trim(), "\\draw (0) -- (1);");
    let nodes: Vec<&str> = text.lines().filter(|l| l.contains("\\node")).collect();
    assert_eq!(nodes.len(), 2);
    assert!(nodes[0].ends_with("{$1$};"));
    assert!(nodes[1].ends_with("{$2$};"));
    assert_eq!(
        text,
        "\\begin{tikzpicture} \n\t % Nodes \n\
         \t \\node (0) at (1.0, 2.0) [circle,draw] {$1$};\n\
         \t \\node (1) at (1.5, -0.05) [circle,draw] {$2$};\n\
         \n \t % Edges \n\
         \t \\draw (0) -- (1); \n\
         \\end{tikzpicture}"
    );
}

#[test]
fn export_without_labels() {
    let text = graph(&[(123, 0)], &[], false).export_tikz();
    assert_eq!(
        text,
        "\\begin{tikzpicture} \n\t % Nodes \n\
         \t \\node (0) at (1.23, 0.0) [circle,draw] {};\n\
         \n \t % Edges \n\
         \\end{tikzpicture}"
    );
}

#[test]
fn export_empty_graph() {
    assert_eq!(
        Graphs::default().export_tikz(),
        "\\begin{tikzpicture} \n\t % Nodes \n\n \t % Edges \n\\end{tikzpicture}"
    );
}

#[test]
fn export_large_indices_and_coordinates() {
    let mut pts = Vec::new();
    for k in 0..12 {
        pts.push((k * 100, -123456));
    }
    let text = graph(&pts, &[(10, 11)], true).export_tikz();
    assert!(text.contains("\t \\node (11) at (11.0, -1234.56) [circle,draw] {$12$};\n"));
    assert!(text.contains("\t \\draw (10) -- (11); \n"));
}
