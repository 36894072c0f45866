use vstd::prelude::*;

use crate::graph::{Edge, Graphs, Vertex};
use vstd::string::StringExecFns;

verus! {

/// The decimal digit `d`.
pub open spec fn digit_text(d: nat) -> Seq<char> {
    if d == 0 {
        "0"@
    } else if d == 1 {
        "1"@
    } else if d == 2 {
        "2"@
    } else if d == 3 {
        "3"@
    } else if d == 4 {
        "4"@
    } else if d == 5 {
        "5"@
    } else if d == 6 {
        "6"@
    } else if d == 7 {
        "7"@
    } else if d == 8 {
        "8"@
    } else {
        "9"@
    }
}

/// `n` in decimal, without leading zeros.
pub open spec fn decimal(n: nat) -> Seq<char>
    decreases n,
{
    if n < 10 {
        digit_text(n)
    } else {
        decimal(n / 10) + digit_text(n % 10)
    }
}

/// The fractional part of hundredths `f < 100`, as the shortest decimal
/// with at least one digit: `0`, `5`, `05`, `25`.
pub open spec fn fraction(f: nat) -> Seq<char> {
    if f % 10 == 0 {
        digit_text(f / 10)
    } else {
        digit_text(f / 10) + digit_text(f % 10)
    }
}

/// The canvas coordinate `v` divided by one hundred, written as a decimal
/// with at least one fractional digit: `150` is `1.5`, `-5` is `-0.05`.
pub open spec fn coord_text(v: int) -> Seq<char> {
    let a = if v < 0 { -v } else { v };
    let sign = if v < 0 { "-"@ } else { ""@ };
    sign + decimal((a / 100) as nat) + "."@ + fraction((a % 100) as nat)
}

/// The line declaring node `i` for vertex `v`, labelled `i + 1` where
/// labels are shown.
pub open spec fn node_line(i: nat, v: Vertex, labels: bool) -> Seq<char> {
    "\t \\node ("@ + decimal(i) + ") at ("@ + coord_text(v.center.x as int) + ", "@ + coord_text(
        v.center.y as int,
    ) + ") [circle,draw] {"@ + (if labels {
        "$"@ + decimal(i + 1) + "$"@
    } else {
        ""@
    }) + "};\n"@
}

/// The line drawing edge `e`.
pub open spec fn edge_line(e: Edge) -> Seq<char> {
    "\t \\draw ("@ + decimal(e.0 as nat) + ") -- ("@ + decimal(e.1 as nat) + "); \n"@
}

/// The node lines of the first `k` vertices of `vs`.
pub open spec fn node_lines(vs: Seq<Vertex>, labels: bool, k: int) -> Seq<char>
    decreases k,
{
    if k <= 0 {
        Seq::empty()
    } else {
        node_lines(vs, labels, k - 1) + node_line((k - 1) as nat, vs[k - 1], labels)
    }
}

/// The edge lines of the first `k` edges of `es`.
pub open spec fn edge_lines(es: Seq<Edge>, k: int) -> Seq<char>
    decreases k,
{
    if k <= 0 {
        Seq::empty()
    } else {
        edge_lines(es, k - 1) + edge_line(es[k - 1])
    }
}

/// The whole picture: a header, one node line per vertex, one edge line per
/// edge, and the closing line.
pub open spec fn tikz_text(vs: Seq<Vertex>, es: Seq<Edge>, labels: bool) -> Seq<char> {
    "\\begin{tikzpicture} \n"@ + "\t % Nodes \n"@ + node_lines(vs, labels, vs.len() as int)
        + "\n \t % Edges \n"@ + edge_lines(es, es.len() as int) + "\\end{tikzpicture}"@
}

fn push_digit(s: &mut String, d: usize)
    requires
        d < 10,
    ensures
        final(s)@ == old(s)@ + digit_text(d as nat),
{
    if d == 0 {
        s.append("0");
    } else if d == 1 {
        s.append("1");
    } else if d == 2 {
        s.append("2");
    } else if d == 3 {
        s.append("3");
    } else if d == 4 {
        s.append("4");
    } else if d == 5 {
        s.append("5");
    } else if d == 6 {
        s.append("6");
    } else if d == 7 {
        s.append("7");
    } else if d == 8 {
        s.append("8");
    } else {
        s.append("9");
    }
}

fn push_decimal(s: &mut String, n: usize)
    ensures
        final(s)@ == old(s)@ + decimal(n as nat),
    decreases n,
{
    if n >= 10 {
        push_decimal(s, n / 10);
        push_digit(s, n % 10);
        assert(final(s)@ =~= old(s)@ + decimal(n as nat));
    } else {
        push_digit(s, n);
    }
}

fn push_coord(s: &mut String, v: i32)
    ensures
        final(s)@ == old(s)@ + coord_text(v as int),
{
    let a: i64 = if v < 0 { -(v as i64) } else { v as i64 };
    if v < 0 {
        s.append("-");
    } else {
        s.append("");
    }
    push_decimal(s, (a / 100) as usize);
    s.append(".");
    let f: usize = (a % 100) as usize;
    push_digit(s, f / 10);
    if f % 10 != 0 {
        push_digit(s, f % 10);
    }
    assert(final(s)@ =~= old(s)@ + coord_text(v as int));
}

fn push_node_line(s: &mut String, i: usize, v: Vertex, labels: bool)
    requires
        i < usize::MAX,
    ensures
        final(s)@ == old(s)@ + node_line(i as nat, v, labels),
{
    s.append("\t \\node (");
    push_decimal(s, i);
    s.append(") at (");
    push_coord(s, v.center.x);
    s.append(", ");
    push_coord(s, v.center.y);
    s.append(") [circle,draw] {");
    if labels {
        s.append("$");
        push_decimal(s, i + 1);
        s.append("$");
    } else {
        s.append("");
    }
    s.append("};\n");
    assert(final(s)@ =~= old(s)@ + node_line(i as nat, v, labels));
}

impl Graphs {
    /// The drawing as a TikZ picture: each vertex a node at its position
    /// divided by one hundred, labelled with its index plus one where labels
    /// are shown, then each edge a line between the nodes of its vertices.
    pub fn export_tikz(&self) -> (r: String)
        ensures
            r@ == tikz_text(self.vertices@, self.edges@, self.labels),
    {
        let mut s = String::from_str("\\begin{tikzpicture} \n");
        s.append("\t % Nodes \n");
        let ghost head = s@;
        let mut i: usize = 0;
        while i < self.vertices.len()
            invariant
                i <= self.vertices@.len(),
                s@ == head + node_lines(self.vertices@, self.labels, i as int),
            decreases self.vertices@.len() - i,
        {
            push_node_line(&mut s, i, self.vertices[i], self.labels);
            i += 1;
        }
        s.append("\n \t % Edges \n");
        let ghost mid = s@;
        let mut k: usize = 0;
        while k < self.edges.len()
            invariant
                k <= self.edges@.len(),
                s@ == mid + edge_lines(self.edges@, k as int),
            decreases self.edges@.len() - k,
        {
            let e = self.edges[k];
            let ghost before = s@;
            s.append("\t \\draw (");
            push_decimal(&mut s, e.0);
            s.append(") -- (");
            push_decimal(&mut s, e.1);
            s.append("); \n");
            assert(s@ =~= before + edge_line(e));
            k += 1;
        }
        s.append("\\end{tikzpicture}");
        assert(s@ =~= tikz_text(self.vertices@, self.edges@, self.labels));
        s
    }
}

} // verus!
