use vstd::prelude::*;

use crate::geometry::Point;

verus! {

/// An sRGB colour with alpha, one byte per channel.
#[derive(Clone, Copy, Debug, PartialEq, Eq, Structural)]
pub struct Color {
    pub r: u8,
    pub g: u8,
    pub b: u8,
    pub a: u8,
}

/// A displacement on the canvas.
#[derive(Clone, Copy, Debug, PartialEq, Eq, Structural)]
pub struct Delta {
    pub dx: i32,
    pub dy: i32,
}

/// A drawn vertex: its centre, its radius and its fill colour.
#[derive(Clone, Copy, Debug, PartialEq, Eq, Structural)]
pub struct Vertex {
    pub center: Point,
    pub radius: u32,
    pub fill: Color,
}

/// An undirected edge, given by the indices of its two vertices.
pub type Edge = (usize, usize);

/// The tool that decides what a pointer event does.
#[derive(Clone, Copy, Debug, PartialEq, Eq, Structural)]
pub enum Modes {
    Add,
    Connect,
    Move,
    Delete,
    Disconnect,
    Drag,
}

/// The drawing: its vertices and edges, the appearance given to new
/// vertices, the active tool and the vertex waiting for a second click.
pub struct Graphs {
    pub vertices: Vec<Vertex>,
    pub edges: Vec<Edge>,
    pub fill: Color,
    pub label_color: Color,
    pub mode: Modes,
    pub radius: u32,
    pub cur: Option<usize>,
    pub labels: bool,
}

/// `e` and `f` join the same two vertices, in either order.
pub open spec fn same_edge(e: Edge, f: Edge) -> bool {
    (e.0 == f.0 && e.1 == f.1) || (e.0 == f.1 && e.1 == f.0)
}

/// Some edge of `s` joins `a` and `b`.
pub open spec fn has_edge(s: Seq<Edge>, a: usize, b: usize) -> bool {
    exists|k: int| 0 <= k < s.len() && #[trigger] same_edge(s[k], (a, b))
}

/// No two edges of `s` join the same pair of vertices.
pub open spec fn no_duplicates(s: Seq<Edge>) -> bool {
    forall|j: int, k: int| 0 <= j < k < s.len() ==> !same_edge(#[trigger] s[j], #[trigger] s[k])
}

/// Every edge of `s` joins two distinct vertices among the first `n`, and
/// no pair is joined twice.
pub open spec fn edges_valid(s: Seq<Edge>, n: nat) -> bool {
    &&& forall|k: int| 0 <= k < s.len() ==> (#[trigger] s[k]).0 < n && s[k].1 < n && s[k].0 != s[k].1
    &&& no_duplicates(s)
}

/// The edge touches vertex `i`.
pub open spec fn touches(e: Edge, i: usize) -> bool {
    e.0 == i || e.1 == i
}

/// The index that vertex `a` has once vertex `i` is gone.
pub open spec fn shift_index(a: usize, i: usize) -> usize {
    if a > i {
        (a - 1) as usize
    } else {
        a
    }
}

/// The edge `e` once vertex `i` is gone.
pub open spec fn shift_edge(e: Edge, i: usize) -> Edge {
    (shift_index(e.0, i), shift_index(e.1, i))
}

/// The edges of `s` that do not touch vertex `i`, in order, renumbered for
/// the removal of vertex `i`.
pub open spec fn edges_without(s: Seq<Edge>, i: usize) -> Seq<Edge>
    decreases s.len(),
{
    if s.len() == 0 {
        s
    } else {
        let rest = edges_without(s.drop_last(), i);
        if touches(s.last(), i) {
            rest
        } else {
            rest.push(shift_edge(s.last(), i))
        }
    }
}

/// `e` is an edge of `s` that does not touch vertex `i`, renumbered for the
/// removal of vertex `i`.
pub open spec fn kept_edge(s: Seq<Edge>, i: usize, e: Edge) -> bool {
    exists|j: int| 0 <= j < s.len() && !touches(s[j], i) && e == #[trigger] shift_edge(s[j], i)
}

/// The edges of `s` that do not join `a` and `b`, in order.
pub open spec fn edges_except(s: Seq<Edge>, a: usize, b: usize) -> Seq<Edge>
    decreases s.len(),
{
    if s.len() == 0 {
        s
    } else {
        let rest = edges_except(s.drop_last(), a, b);
        if same_edge(s.last(), (a, b)) {
            rest
        } else {
            rest.push(s.last())
        }
    }
}

/// `p` and `q` are closer than twice the radius `r`.
pub open spec fn too_close(p: Point, q: Point, r: u32) -> bool {
    (p.x - q.x) * (p.x - q.x) + (p.y - q.y) * (p.y - q.y) < 4 * (r * r)
}

/// No vertex of `vs` lies closer to `p` than twice the radius `r`.
pub open spec fn free_spot(vs: Seq<Vertex>, p: Point, r: u32) -> bool {
    forall|k: int| 0 <= k < vs.len() ==> !too_close(#[trigger] vs[k].center, p, r)
}

/// The edges `s` once `a` and `b` are joined: unchanged where `a` and `b`
/// are one vertex or already joined.
pub open spec fn with_edge(s: Seq<Edge>, a: usize, b: usize) -> Seq<Edge> {
    if a != b && !has_edge(s, a, b) {
        s.push((a, b))
    } else {
        s
    }
}

/// The vertices `vs` once a vertex of radius `r` and colour `fill` is placed
/// at `p`: unchanged where `p` is too close to one of them.
pub open spec fn with_vertex(vs: Seq<Vertex>, p: Point, r: u32, fill: Color) -> Seq<Vertex> {
    if free_spot(vs, p, r) {
        vs.push(Vertex { center: p, radius: r, fill })
    } else {
        vs
    }
}

/// `p` moved by `d` is still a canvas point.
pub open spec fn moved_fits(p: Point, d: Delta) -> bool {
    i32::MIN <= p.x + d.dx <= i32::MAX && i32::MIN <= p.y + d.dy <= i32::MAX
}

/// The vertex `v` moved by `d`.
pub open spec fn moved(v: Vertex, d: Delta) -> Vertex {
    Vertex { center: Point { x: (v.center.x + d.dx) as i32, y: (v.center.y + d.dy) as i32 }, ..v }
}

/// Deleting vertex `i` keeps the edges consistent with the remaining
/// vertices: each surviving edge is an old edge that did not touch `i`,
/// renumbered, so none refers to the deleted vertex and all indices stay
/// below the new vertex count; and every old edge that did not touch `i`
/// survives, renumbered.
pub proof fn lemma_edges_without(s: Seq<Edge>, i: usize, n: nat)
    requires
        edges_valid(s, n),
        i < n,
    ensures
        edges_valid(edges_without(s, i), (n - 1) as nat),
        forall|k: int| 0 <= k < edges_without(s, i).len() ==> kept_edge(s, i, #[trigger] edges_without(s, i)[k]),
        forall|j: int|
            0 <= j < s.len() && !touches(s[j], i) ==> edges_without(s, i).contains(#[trigger] shift_edge(s[j], i)),
    decreases s.len(),
{
    if s.len() > 0 {
        let t = s.drop_last();
        assert(edges_valid(t, n));
        lemma_edges_without(t, i, n);
        let r = edges_without(t, i);
        assert forall|j: int| 0 <= j < s.len() && !touches(s[j], i) implies edges_without(s, i).contains(
            #[trigger] shift_edge(s[j], i),
        ) by {
            if j < t.len() {
                assert(t[j] == s[j]);
                assert(r.contains(shift_edge(t[j], i)));
                let q = choose|q: int| 0 <= q < r.len() && r[q] == shift_edge(t[j], i);
                assert(edges_without(s, i)[q] == r[q]);
            } else {
                assert(edges_without(s, i)[r.len() as int] == shift_edge(s[j], i));
            }
        }
        if !touches(s.last(), i) {
            let x = shift_edge(s.last(), i);
            assert forall|k: int| 0 <= k < r.len() implies !same_edge(#[trigger] r[k], x) by {
                let j = choose|j: int| 0 <= j < t.len() && !touches(t[j], i) && r[k] == #[trigger] shift_edge(t[j], i);
                assert(t[j] == s[j]);
                assert(!same_edge(s[j], s[s.len() - 1]));
            }
            assert forall|k: int| 0 <= k < edges_without(s, i).len() implies kept_edge(s, i, #[trigger] edges_without(s, i)[k]) by {
                if k < r.len() {
                    let j = choose|j: int| 0 <= j < t.len() && !touches(t[j], i) && r[k] == #[trigger] shift_edge(t[j], i);
                    assert(t[j] == s[j]);
                    assert(edges_without(s, i)[k] == r[k]);
                } else {
                    assert(edges_without(s, i)[k] == shift_edge(s[s.len() - 1], i));
                }
            }
        } else {
            assert forall|k: int| 0 <= k < edges_without(s, i).len() implies kept_edge(s, i, #[trigger] edges_without(s, i)[k]) by {
                let j = choose|j: int| 0 <= j < t.len() && !touches(t[j], i) && r[k] == #[trigger] shift_edge(t[j], i);
                assert(t[j] == s[j]);
                assert(edges_without(s, i)[k] == r[k]);
            }
        }
    }
}

/// Deleting the edge between `a` and `b` keeps the edges consistent and
/// leaves no edge between them.
pub proof fn lemma_edges_except(s: Seq<Edge>, a: usize, b: usize, n: nat)
    requires
        edges_valid(s, n),
    ensures
        edges_valid(edges_except(s, a, b), n),
        !has_edge(edges_except(s, a, b), a, b),
        forall|k: int|
            0 <= k < edges_except(s, a, b).len() ==> s.contains(#[trigger] edges_except(s, a, b)[k]),
    decreases s.len(),
{
    if s.len() > 0 {
        let t = s.drop_last();
        assert(edges_valid(t, n));
        lemma_edges_except(t, a, b, n);
        let r = edges_except(t, a, b);
        let res = edges_except(s, a, b);
        assert forall|k: int| 0 <= k < r.len() implies #[trigger] res[k] == r[k] && s.contains(r[k]) by {
            assert(t.contains(r[k]));
            let j = choose|j: int| 0 <= j < t.len() && t[j] == r[k];
            assert(s[j] == t[j]);
        }
        if !same_edge(s.last(), (a, b)) {
            assert(res[r.len() as int] == s[s.len() - 1]);
            assert forall|k: int| 0 <= k < r.len() implies !same_edge(#[trigger] r[k], s.last()) by {
                assert(t.contains(r[k]));
                let j = choose|j: int| 0 <= j < t.len() && t[j] == r[k];
                assert(s[j] == t[j]);
                assert(!same_edge(s[j], s[s.len() - 1]));
            }
        }
        if has_edge(res, a, b) {
            let k = choose|k: int| 0 <= k < res.len() && #[trigger] same_edge(res[k], (a, b));
            if k < r.len() {
                assert(same_edge(r[k], (a, b)));
            }
        }
    }
}

impl Graphs {
    /// Every edge joins two distinct existing vertices, no pair twice, and a
    /// pending selection names an existing vertex.
    pub open spec fn wf(&self) -> bool {
        &&& edges_valid(self.edges@, self.vertices@.len())
        &&& (self.cur matches Some(c) ==> c < self.vertices@.len())
    }

    /// The appearance settings and the tool are those of `o`.
    pub open spec fn settings_of(&self, o: &Graphs) -> bool {
        &&& self.fill == o.fill
        &&& self.label_color == o.label_color
        &&& self.mode == o.mode
        &&& self.radius == o.radius
        &&& self.labels == o.labels
    }

    /// Place a vertex with the current radius and fill at `pos`, unless an
    /// existing vertex lies closer to it than twice the radius. Returns
    /// whether the vertex was placed.
    pub fn add_vertex(&mut self, pos: Point) -> (r: bool)
        requires
            old(self).wf(),
        ensures
            final(self).wf(),
            final(self).settings_of(old(self)),
            final(self).edges@ == old(self).edges@,
            final(self).cur == old(self).cur,
            r == free_spot(old(self).vertices@, pos, old(self).radius),
            final(self).vertices@ == with_vertex(old(self).vertices@, pos, old(self).radius, old(self).fill),
    {
        let rr: i128 = self.radius as i128;
        proof {
            assert(0 <= rr * rr <= 0x1_0000_0000 * 0x1_0000_0000) by (nonlinear_arith)
                requires
                    0 <= rr <= 0x1_0000_0000,
            ;
        }
        let r2: i128 = 4 * (rr * rr);
        let mut k: usize = 0;
        while k < self.vertices.len()
            invariant
                k <= self.vertices@.len(),
                *self == *old(self),
                self.wf(),
                r2 == 4 * (self.radius * self.radius),
                forall|j: int| 0 <= j < k ==> !too_close(#[trigger] self.vertices@[j].center, pos, self.radius),
            decreases self.vertices@.len() - k,
        {
            let c = self.vertices[k].center;
            let dx: i128 = c.x as i128 - pos.x as i128;
            let dy: i128 = c.y as i128 - pos.y as i128;
            proof {
                assert(dx * dx <= 0x1_0000_0000 * 0x1_0000_0000) by (nonlinear_arith)
                    requires
                        -0x1_0000_0000 <= dx <= 0x1_0000_0000,
                ;
                assert(dy * dy <= 0x1_0000_0000 * 0x1_0000_0000) by (nonlinear_arith)
                    requires
                        -0x1_0000_0000 <= dy <= 0x1_0000_0000,
                ;
                assert(dx * dx >= 0 && dy * dy >= 0) by (nonlinear_arith);
            }
            if dx * dx + dy * dy < r2 {
                return false;
            }
            k += 1;
        }
        let v = Vertex { center: pos, radius: self.radius, fill: self.fill };
        self.vertices.push(v);
        true
    }

    /// Join vertices `a` and `b`, unless they are the same vertex or already
    /// joined. Returns whether an edge was added.
    pub fn add_edge(&mut self, a: usize, b: usize) -> (r: bool)
        requires
            old(self).wf(),
            a < old(self).vertices@.len(),
            b < old(self).vertices@.len(),
        ensures
            final(self).wf(),
            final(self).settings_of(old(self)),
            final(self).vertices@ == old(self).vertices@,
            final(self).cur == old(self).cur,
            r == (a != b && !has_edge(old(self).edges@, a, b)),
            final(self).edges@ == with_edge(old(self).edges@, a, b),
    {
        if a == b {
            return false;
        }
        let mut k: usize = 0;
        while k < self.edges.len()
            invariant
                k <= self.edges@.len(),
                *self == *old(self),
                self.wf(),
                a != b,
                forall|j: int| 0 <= j < k ==> !same_edge(#[trigger] self.edges@[j], (a, b)),
            decreases self.edges@.len() - k,
        {
            let e = self.edges[k];
            if (e.0 == a && e.1 == b) || (e.0 == b && e.1 == a) {
                assert(same_edge(self.edges@[k as int], (a, b)));
                return false;
            }
            k += 1;
        }
        self.edges.push((a, b));
        proof {
            let s = self.edges@;
            assert forall|j: int, l: int| 0 <= j < l < s.len() implies !same_edge(#[trigger] s[j], #[trigger] s[l]) by {
                if l == s.len() - 1 {
                    assert(old(self).edges@[j] == s[j]);
                } else {
                    assert(old(self).edges@[j] == s[j] && old(self).edges@[l] == s[l]);
                }
            }
        }
        true
    }

    /// Delete vertex `i` and every edge that touches it; the later vertices
    /// move down by one, and so do the indices that name them. The pending
    /// selection is dropped.
    pub fn remove_vertex(&mut self, i: usize)
        requires
            old(self).wf(),
            i < old(self).vertices@.len(),
        ensures
            final(self).wf(),
            final(self).settings_of(old(self)),
            final(self).vertices@ == old(self).vertices@.remove(i as int),
            final(self).edges@ == edges_without(old(self).edges@, i),
            final(self).cur is None,
    {
        let mut kept: Vec<Edge> = Vec::new();
        let mut k: usize = 0;
        while k < self.edges.len()
            invariant
                k <= self.edges@.len(),
                kept@ == edges_without(self.edges@.take(k as int), i),
            decreases self.edges@.len() - k,
        {
            let e = self.edges[k];
            if e.0 != i && e.1 != i {
                let a = if e.0 > i { e.0 - 1 } else { e.0 };
                let b = if e.1 > i { e.1 - 1 } else { e.1 };
                kept.push((a, b));
            }
            proof {
                assert(self.edges@.take(k + 1).drop_last() == self.edges@.take(k as int));
            }
            k += 1;
        }
        proof {
            assert(self.edges@.take(k as int) == self.edges@);
            lemma_edges_without(self.edges@, i, self.vertices@.len());
        }
        self.vertices.remove(i);
        self.edges = kept;
        self.cur = None;
    }

    /// Delete the edge that joins `a` and `b`, in either order, if there is one.
    pub fn remove_edge(&mut self, a: usize, b: usize)
        requires
            old(self).wf(),
        ensures
            final(self).wf(),
            final(self).settings_of(old(self)),
            final(self).vertices@ == old(self).vertices@,
            final(self).cur == old(self).cur,
            final(self).edges@ == edges_except(old(self).edges@, a, b),
            !has_edge(final(self).edges@, a, b),
    {
        let mut kept: Vec<Edge> = Vec::new();
        let mut k: usize = 0;
        while k < self.edges.len()
            invariant
                k <= self.edges@.len(),
                kept@ == edges_except(self.edges@.take(k as int), a, b),
            decreases self.edges@.len() - k,
        {
            let e = self.edges[k];
            if !((e.0 == a && e.1 == b) || (e.0 == b && e.1 == a)) {
                kept.push(e);
            }
            proof {
                assert(self.edges@.take(k + 1).drop_last() == self.edges@.take(k as int));
            }
            k += 1;
        }
        proof {
            assert(self.edges@.take(k as int) == self.edges@);
            lemma_edges_except(self.edges@, a, b, self.vertices@.len());
        }
        self.edges = kept;
    }

    /// Move vertex `i` by `d`, where it stays a canvas point. Returns whether
    /// it moved.
    pub fn move_vertex(&mut self, i: usize, d: Delta) -> (r: bool)
        requires
            old(self).wf(),
            i < old(self).vertices@.len(),
        ensures
            final(self).wf(),
            final(self).settings_of(old(self)),
            final(self).edges@ == old(self).edges@,
            final(self).cur == old(self).cur,
            r == moved_fits(old(self).vertices@[i as int].center, d),
            r ==> final(self).vertices@ == old(self).vertices@.update(
                i as int,
                moved(old(self).vertices@[i as int], d),
            ),
            !r ==> final(self).vertices@ == old(self).vertices@,
    {
        let v = self.vertices[i];
        let x: i64 = v.center.x as i64 + d.dx as i64;
        let y: i64 = v.center.y as i64 + d.dy as i64;
        if x < i32::MIN as i64 || x > i32::MAX as i64 || y < i32::MIN as i64 || y > i32::MAX as i64 {
            return false;
        }
        self.vertices[i] = Vertex { center: Point { x: x as i32, y: y as i32 }, ..v };
        true
    }

    /// Move every vertex by `d`, where all of them stay canvas points.
    /// Returns whether they moved.
    pub fn translate_all(&mut self, d: Delta) -> (r: bool)
        requires
            old(self).wf(),
        ensures
            final(self).wf(),
            final(self).settings_of(old(self)),
            final(self).edges@ == old(self).edges@,
            final(self).cur == old(self).cur,
            r == forall|k: int|
                0 <= k < old(self).vertices@.len() ==> moved_fits(#[trigger] old(self).vertices@[k].center, d),
            r ==> final(self).vertices@ == old(self).vertices@.map_values(|v: Vertex| moved(v, d)),
            !r ==> final(self).vertices@ == old(self).vertices@,
    {
        let mut k: usize = 0;
        while k < self.vertices.len()
            invariant
                k <= self.vertices@.len(),
                *self == *old(self),
                self.wf(),
                forall|j: int| 0 <= j < k ==> moved_fits(#[trigger] self.vertices@[j].center, d),
            decreases self.vertices@.len() - k,
        {
            let c = self.vertices[k].center;
            let x: i64 = c.x as i64 + d.dx as i64;
            let y: i64 = c.y as i64 + d.dy as i64;
            if x < i32::MIN as i64 || x > i32::MAX as i64 || y < i32::MIN as i64 || y > i32::MAX as i64 {
                assert(!moved_fits(self.vertices@[k as int].center, d));
                return false;
            }
            k += 1;
        }
        let mut out: Vec<Vertex> = Vec::new();
        let mut k: usize = 0;
        while k < self.vertices.len()
            invariant
                k <= self.vertices@.len(),
                *self == *old(self),
                forall|j: int| 0 <= j < self.vertices@.len() ==> moved_fits(#[trigger] self.vertices@[j].center, d),
                out@ == self.vertices@.take(k as int).map_values(|v: Vertex| moved(v, d)),
            decreases self.vertices@.len() - k,
        {
            let v = self.vertices[k];
            let x: i32 = (v.center.x as i64 + d.dx as i64) as i32;
            let y: i32 = (v.center.y as i64 + d.dy as i64) as i32;
            out.push(Vertex { center: Point { x, y }, ..v });
            proof {
                assert(self.vertices@.take(k + 1).map_values(|v: Vertex| moved(v, d)) =~= self.vertices@.take(
                    k as int,
                ).map_values(|v: Vertex| moved(v, d)).push(moved(v, d)));
            }
            k += 1;
        }
        proof {
            assert(self.vertices@.take(k as int) == self.vertices@);
        }
        self.vertices = out;
        true
    }

    /// Remove every vertex and edge, and the pending selection.
    pub fn delete_graph(&mut self)
        ensures
            final(self).wf(),
            final(self).settings_of(old(self)),
            final(self).vertices@.len() == 0,
            final(self).edges@.len() == 0,
            final(self).cur is None,
    {
        self.vertices = Vec::new();
        self.edges = Vec::new();
        self.cur = None;
    }

    /// Whether `self.wf()` holds.
    pub fn is_well_formed(&self) -> (r: bool)
        ensures
            r == self.wf(),
    {
        let n = self.vertices.len();
        if let Some(c) = self.cur {
            if c >= n {
                return false;
            }
        }
        let mut k: usize = 0;
        while k < self.edges.len()
            invariant
                k <= self.edges@.len(),
                n == self.vertices@.len(),
                self.cur matches Some(c) ==> c < n,
                edges_valid(self.edges@.take(k as int), n as nat),
            decreases self.edges@.len() - k,
        {
            let e = self.edges[k];
            if e.0 >= n || e.1 >= n || e.0 == e.1 {
                assert(!edges_valid(self.edges@, n as nat)) by {
                    assert(self.edges@[k as int] == e);
                }
                return false;
            }
            let mut j: usize = 0;
            while j < k
                invariant
                    j <= k < self.edges@.len(),
                    e == self.edges@[k as int],
                    forall|l: int| 0 <= l < j ==> !same_edge(#[trigger] self.edges@[l], e),
                decreases k - j,
            {
                let f = self.edges[j];
                if (f.0 == e.0 && f.1 == e.1) || (f.0 == e.1 && f.1 == e.0) {
                    assert(!edges_valid(self.edges@, n as nat)) by {
                        assert(self.edges@[j as int] == f);
                        assert(same_edge(self.edges@[j as int], self.edges@[k as int]));
                    }
                    return false;
                }
                j += 1;
            }
            proof {
                let s = self.edges@.take(k + 1);
                assert forall|a: int, b: int| 0 <= a < b < s.len() implies !same_edge(#[trigger] s[a], #[trigger] s[b]) by {
                    assert(s[a] == self.edges@.take(k as int)[a] || b == k);
                    if b == k {
                        assert(s[a] == self.edges@[a]);
                        assert(!same_edge(self.edges@[a], e));
                    } else {
                        assert(s[b] == self.edges@.take(k as int)[b]);
                    }
                }
                assert forall|a: int| 0 <= a < s.len() implies (#[trigger] s[a]).0 < n && s[a].1 < n && s[a].0 != s[a].1 by {
                    if a < k {
                        assert(s[a] == self.edges@.take(k as int)[a]);
                    }
                }
            }
            k += 1;
        }
        assert(self.edges@.take(k as int) == self.edges@);
        true
    }

    /// The drawing kept from an earlier session where there is one and it is
    /// consistent, else an empty drawing with the default settings.
    pub fn new(stored: Option<Graphs>) -> (r: Graphs)
        ensures
            r.wf(),
            stored is Some && stored->0.wf() ==> r == stored->0,
            !(stored is Some && stored->0.wf()) ==> r.is_default(),
    {
        match stored {
            Some(g) => {
                if g.is_well_formed() {
                    g
                } else {
                    Graphs::default()
                }
            },
            None => Graphs::default(),
        }
    }

    /// An empty drawing with the default settings: fill `(50, 100, 150)`,
    /// labels in `(245, 235, 245)`, both opaque, radius 22, labels hidden,
    /// the tool that adds vertices, and nothing selected.
    pub open spec fn is_default(&self) -> bool {
        &&& self.vertices@.len() == 0
        &&& self.edges@.len() == 0
        &&& self.fill == (Color { r: 50, g: 100, b: 150, a: 255 })
        &&& self.label_color == (Color { r: 245, g: 235, b: 245, a: 255 })
        &&& self.mode == Modes::Add
        &&& self.radius == 22
        &&& self.cur is None
        &&& !self.labels
    }
}

impl Default for Graphs {
    fn default() -> (r: Graphs)
        ensures
            r.is_default(),
    {
        Graphs {
            vertices: Vec::new(),
            edges: Vec::new(),
            fill: Color { r: 50, g: 100, b: 150, a: 255 },
            label_color: Color { r: 245, g: 235, b: 245, a: 255 },
            mode: Modes::Add,
            radius: 22,
            cur: None,
            labels: false,
        }
    }
}

/// Adding the same edge twice, in either order, adds it once: the second
/// call changes nothing, and the first adds exactly one edge when the two
/// vertices are distinct and not yet joined.
pub proof fn lemma_add_edge_idempotent(s: Seq<Edge>, a: usize, b: usize)
    ensures
        with_edge(with_edge(s, a, b), a, b) == with_edge(s, a, b),
        with_edge(with_edge(s, a, b), b, a) == with_edge(s, a, b),
        a != b && !has_edge(s, a, b) ==> with_edge(s, a, b).len() == s.len() + 1,
{
    let t = with_edge(s, a, b);
    if a != b && !has_edge(s, a, b) {
        assert(same_edge(t[s.len() as int], (a, b)));
        assert(same_edge(t[s.len() as int], (b, a)));
    } else if has_edge(s, a, b) {
        let k = choose|k: int| 0 <= k < s.len() && #[trigger] same_edge(s[k], (a, b));
        assert(same_edge(s[k], (b, a)));
    }
}

/// A vertex placed closer than twice the radius to an existing vertex is
/// refused: the vertices stay as they were.
pub proof fn lemma_add_vertex_too_close(vs: Seq<Vertex>, p: Point, r: u32, fill: Color, k: int)
    requires
        0 <= k < vs.len(),
        too_close(vs[k].center, p, r),
    ensures
        with_vertex(vs, p, r, fill) == vs,
{
}

} // verus!
