use vstd::prelude::*;

use crate::geometry::{Segment, are_incident, crosses, incident, intersect, lemma_crosses_symmetric};
use crate::graph::{Edge, Graphs, Vertex};
use itertools::Itertools;
use vstd::arithmetic::div_mod::{
    lemma_div_pos_is_pos, lemma_fundamental_div_mod, lemma_fundamental_div_mod_converse, lemma_mod_pos_bound,
};

verus! {

/// The segment drawn for edge `e`.
pub open spec fn segment_of(vs: Seq<Vertex>, e: Edge) -> Segment {
    (vs[e.0 as int].center, vs[e.1 as int].center)
}

/// The segments drawn for `e` and `f` cross and have no end point in common.
pub open spec fn edges_cross(vs: Seq<Vertex>, e: Edge, f: Edge) -> bool {
    crosses(segment_of(vs, e), segment_of(vs, f)) && !incident(segment_of(vs, e), segment_of(vs, f))
}

/// How many of the first `m` ordered pairs of edges of `es` (the first edge
/// varying slowest) cross.
pub open spec fn crossings_upto(vs: Seq<Vertex>, es: Seq<Edge>, m: int) -> nat
    decreases m,
{
    if m <= 0 {
        0
    } else {
        let n = es.len() as int;
        crossings_upto(vs, es, m - 1) + if edges_cross(vs, es[(m - 1) / n], es[(m - 1) % n]) {
            1nat
        } else {
            0nat
        }
    }
}

/// How many ordered pairs of edges of `es` cross.
pub open spec fn ordered_crossings(vs: Seq<Vertex>, es: Seq<Edge>) -> nat {
    crossings_upto(vs, es, (es.len() * es.len()) as int)
}

/// 1 where the segments of edges `j` and `k` of `es` cross, else 0.
pub open spec fn cross_ind(vs: Seq<Vertex>, es: Seq<Edge>, j: int, k: int) -> nat {
    if edges_cross(vs, es[j], es[k]) {
        1
    } else {
        0
    }
}

/// How many of the edges `k < m` of `es` cross edge `j`.
pub open spec fn row_count(vs: Seq<Vertex>, es: Seq<Edge>, j: int, m: int) -> nat
    decreases m,
{
    if m <= 0 {
        0
    } else {
        row_count(vs, es, j, m - 1) + cross_ind(vs, es, j, m - 1)
    }
}

/// How many pairs `k < j < m` of edges of `es` cross.
pub open spec fn crossing_pairs_upto(vs: Seq<Vertex>, es: Seq<Edge>, m: int) -> nat
    decreases m,
{
    if m <= 0 {
        0
    } else {
        crossing_pairs_upto(vs, es, m - 1) + row_count(vs, es, m - 1, m - 1)
    }
}

/// How many pairs of distinct edges of `es` cross, each pair counted once.
pub open spec fn crossing_pairs(vs: Seq<Vertex>, es: Seq<Edge>) -> nat {
    crossing_pairs_upto(vs, es, es.len() as int)
}

/// The sum of `row_count(j', m)` over the rows `j' < j`.
pub open spec fn rows_sum(vs: Seq<Vertex>, es: Seq<Edge>, j: int, m: int) -> nat
    decreases j,
{
    if j <= 0 {
        0
    } else {
        rows_sum(vs, es, j - 1, m) + row_count(vs, es, j - 1, m)
    }
}

/// The sum of `cross_ind(j', c)` over the rows `j' < j`.
pub open spec fn column_sum(vs: Seq<Vertex>, es: Seq<Edge>, j: int, c: int) -> nat
    decreases j,
{
    if j <= 0 {
        0
    } else {
        column_sum(vs, es, j - 1, c) + cross_ind(vs, es, j - 1, c)
    }
}

proof fn lemma_cross_ind_symmetric(vs: Seq<Vertex>, es: Seq<Edge>, j: int, k: int)
    ensures
        cross_ind(vs, es, j, k) == cross_ind(vs, es, k, j),
        cross_ind(vs, es, j, j) == 0,
{
    lemma_crosses_symmetric(segment_of(vs, es[j]), segment_of(vs, es[k]));
}

proof fn lemma_column_is_row(vs: Seq<Vertex>, es: Seq<Edge>, j: int, c: int)
    ensures
        column_sum(vs, es, j, c) == row_count(vs, es, c, j),
    decreases j,
{
    if j > 0 {
        lemma_column_is_row(vs, es, j - 1, c);
        lemma_cross_ind_symmetric(vs, es, j - 1, c);
    }
}

proof fn lemma_rows_widen(vs: Seq<Vertex>, es: Seq<Edge>, j: int, m: int)
    requires
        m >= 0,
    ensures
        rows_sum(vs, es, j, m + 1) == rows_sum(vs, es, j, m) + column_sum(vs, es, j, m),
    decreases j,
{
    if j > 0 {
        lemma_rows_widen(vs, es, j - 1, m);
    }
}

proof fn lemma_square_is_twice_pairs(vs: Seq<Vertex>, es: Seq<Edge>, m: int)
    requires
        m >= 0,
    ensures
        rows_sum(vs, es, m, m) == 2 * crossing_pairs_upto(vs, es, m),
    decreases m,
{
    if m > 0 {
        let p = m - 1;
        lemma_square_is_twice_pairs(vs, es, p);
        lemma_rows_widen(vs, es, p, p);
        lemma_column_is_row(vs, es, p, p);
        lemma_cross_ind_symmetric(vs, es, p, p);
    }
}

proof fn lemma_flat_row(vs: Seq<Vertex>, es: Seq<Edge>, j: int, m: int)
    requires
        0 <= j,
        0 <= m <= es.len(),
    ensures
        crossings_upto(vs, es, j * es.len() + m) == crossings_upto(vs, es, j * es.len()) + row_count(vs, es, j, m),
    decreases m,
{
    if m > 0 {
        let n = es.len() as int;
        lemma_flat_row(vs, es, j, m - 1);
        lemma_fundamental_div_mod_converse(j * n + m - 1, n, j, m - 1);
    }
}

proof fn lemma_flat_rows(vs: Seq<Vertex>, es: Seq<Edge>, j: int)
    requires
        0 <= j,
    ensures
        crossings_upto(vs, es, j * es.len()) == rows_sum(vs, es, j, es.len() as int),
    decreases j,
{
    if j > 0 {
        let n = es.len() as int;
        lemma_flat_rows(vs, es, j - 1);
        lemma_flat_row(vs, es, j - 1, n);
        assert((j - 1) * n + n == j * n) by (nonlinear_arith);
        assert(crossings_upto(vs, es, (j - 1) * n + n) == crossings_upto(vs, es, j * n));
    } else {
        let n = es.len() as int;
        assert(j * n == 0) by (nonlinear_arith)
            requires
                j == 0,
        ;
    }
}

/// Counting every ordered pair of crossing edges counts each crossing twice:
/// crossing does not depend on the order of the two edges, and no edge
/// crosses itself.
pub proof fn lemma_ordered_crossings_twice_pairs(vs: Seq<Vertex>, es: Seq<Edge>)
    ensures
        ordered_crossings(vs, es) == 2 * crossing_pairs(vs, es),
{
    let n = es.len() as int;
    lemma_flat_rows(vs, es, n);
    lemma_square_is_twice_pairs(vs, es, n);
}

/// The ordered pairs of `n` edges, 32 bytes or less each, fit in one
/// allocation.
pub open spec fn pairs_fit(n: nat) -> bool {
    n * n * 32 <= isize::MAX
}

/// Relies on `Itertools::cartesian_product` of itertools: it yields each
/// element of the first iterator paired with each element of the second,
/// the first varying slowest.
#[verifier::external_body]
fn edge_pairs(edges: &Vec<Edge>) -> (r: Vec<(Edge, Edge)>)
    requires
        pairs_fit(edges@.len()),
    ensures
        r@.len() == edges@.len() * edges@.len(),
        forall|k: int|
            0 <= k < r@.len() ==> #[trigger] r@[k] == (
                edges@[k / edges@.len() as int],
                edges@[k % edges@.len() as int],
            ),
{
    edges.iter().cartesian_product(edges.iter()).map(|(a, b)| (*a, *b)).collect()
}

impl Graphs {
    /// The number of crossings in the drawing: every ordered pair of edges
    /// whose segments cross and share no end point is counted, and the total
    /// halved, so that each crossing counts once.
    pub fn count_intersections(&self) -> (r: usize)
        requires
            self.wf(),
            pairs_fit(self.edges@.len()),
        ensures
            r == crossing_pairs(self.vertices@, self.edges@),
    {
        let pairs = edge_pairs(&self.edges);
        let ghost n = self.edges@.len() as int;
        let mut count: usize = 0;
        let mut k: usize = 0;
        while k < pairs.len()
            invariant
                self.wf(),
                k <= pairs@.len(),
                pairs@.len() == n * n,
                n == self.edges@.len(),
                0 <= n,
                forall|j: int|
                    0 <= j < pairs@.len() ==> #[trigger] pairs@[j] == (self.edges@[j / n], self.edges@[j % n]),

                count == crossings_upto(self.vertices@, self.edges@, k as int),
                count <= k,
            decreases pairs@.len() - k,
        {
            let (e, f) = pairs[k];
            proof {
                let kk = k as int;
                if n == 0 {
                    assert(n * n == 0);
                }
                lemma_mod_pos_bound(kk, n);
                lemma_div_pos_is_pos(kk, n);
                lemma_fundamental_div_mod(kk, n);
                let q = kk / n;
                if q >= n {
                    assert(n * q >= n * n) by (nonlinear_arith)
                        requires
                            q >= n,
                            n > 0,
                    ;
                }
                assert(e == self.edges@[kk / n] && f == self.edges@[kk % n]);
            }
            let s1: Segment = (self.vertices[e.0].center, self.vertices[e.1].center);
            let s2: Segment = (self.vertices[f.0].center, self.vertices[f.1].center);
            if intersect(s1, s2) && !are_incident(s1, s2) {
                count = count + 1;
            }
            k += 1;
        }
        proof {
            lemma_ordered_crossings_twice_pairs(self.vertices@, self.edges@);
        }
        count / 2
    }

}

} // verus!
