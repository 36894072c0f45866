use vstd::prelude::*;

use crate::geometry::Point;
use crate::graph::{Delta, Graphs, Modes, Vertex, edges_except, moved_fits, moved, with_edge, with_vertex};

verus! {

/// What the pointer did on the canvas during one frame.
#[derive(Clone, Copy, Debug, PartialEq, Eq, Structural)]
pub enum PointerEvent {
    /// A click at a point.
    Click { at: Point },
    /// The button held down, pressed at `at` and moved by `delta` since the
    /// last frame.
    Drag { at: Point, delta: Delta },
}

/// `p` lies in the square of side `2 r` centred on `c`, its border included.
pub open spec fn in_box(c: Point, r: u32, p: Point) -> bool {
    c.x - r <= p.x <= c.x + r && c.y - r <= p.y <= c.y + r
}

/// Vertex `i` is the first of `vs` whose square holds `p`.
pub open spec fn is_first_hit(vs: Seq<Vertex>, r: u32, p: Point, i: int) -> bool {
    &&& 0 <= i < vs.len()
    &&& in_box(vs[i].center, r, p)
    &&& forall|j: int| 0 <= j < i ==> !in_box(#[trigger] vs[j].center, r, p)
}

/// The first vertex of `vs` whose square holds `p`, if any.
pub open spec fn first_hit(vs: Seq<Vertex>, r: u32, p: Point) -> Option<usize> {
    if exists|i: int| is_first_hit(vs, r, p, i) {
        Some((choose|i: int| is_first_hit(vs, r, p, i)) as usize)
    } else {
        None
    }
}

/// The pending selection survives a new frame only in the two tools that
/// join or part two vertices.
pub open spec fn keeps_selection(m: Modes) -> bool {
    m == Modes::Connect || m == Modes::Disconnect
}

proof fn lemma_first_hit_unique(vs: Seq<Vertex>, r: u32, p: Point, i: int)
    requires
        is_first_hit(vs, r, p, i),
    ensures
        first_hit(vs, r, p) == Some(i as usize),
{
    let j = choose|j: int| is_first_hit(vs, r, p, j);
    if j < i {
        assert(!in_box(vs[j].center, r, p));
    } else if i < j {
        assert(!in_box(vs[i].center, r, p));
    }
}

impl Graphs {
    /// The first vertex whose clickable square, of side twice the radius
    /// and centred on the vertex, holds `p`.
    pub fn hit_vertex(&self, p: Point) -> (r: Option<usize>)
        ensures
            r == first_hit(self.vertices@, self.radius, p),
            r matches Some(i) ==> i < self.vertices@.len(),
    {
        let rr: i64 = self.radius as i64;
        let mut k: usize = 0;
        while k < self.vertices.len()
            invariant
                k <= self.vertices@.len(),
                rr == self.radius,
                forall|j: int| 0 <= j < k ==> !in_box(#[trigger] self.vertices@[j].center, self.radius, p),
            decreases self.vertices@.len() - k,
        {
            let c = self.vertices[k].center;
            let (cx, cy, px, py) = (c.x as i64, c.y as i64, p.x as i64, p.y as i64);
            if cx - rr <= px && px <= cx + rr && cy - rr <= py && py <= cy + rr {
                proof {
                    lemma_first_hit_unique(self.vertices@, self.radius, p, k as int);
                }
                return Some(k);
            }
            k += 1;
        }
        assert(!exists|i: int| is_first_hit(self.vertices@, self.radius, p, i));
        None
    }

    /// Start a frame: the pending selection is dropped unless the tool joins
    /// or parts vertices.
    pub fn begin_frame(&mut self)
        requires
            old(self).wf(),
        ensures
            final(self).wf(),
            final(self).settings_of(old(self)),
            final(self).vertices@ == old(self).vertices@,
            final(self).edges@ == old(self).edges@,
            final(self).cur == (if keeps_selection(old(self).mode) {
                old(self).cur
            } else {
                None
            }),
    {
        if self.mode != Modes::Connect && self.mode != Modes::Disconnect {
            self.cur = None;
        }
    }

    /// A click on vertex `i` in the tools that join or part two vertices:
    /// the first click selects it, a second click on another vertex joins
    /// (or parts) the two and clears the selection, and a second click on the
    /// selected vertex changes nothing.
    fn select(&mut self, i: usize)
        requires
            old(self).wf(),
            i < old(self).vertices@.len(),
        ensures
            final(self).wf(),
            final(self).settings_of(old(self)),
            final(self).vertices@ == old(self).vertices@,
            final(self).cur == pending_after(old(self).cur, i),
            final(self).edges@ == edges_after(old(self).mode, old(self).edges@, old(self).cur, i),
    {
        match self.cur {
            None => {
                self.cur = Some(i);
            },
            Some(c) => {
                if c != i {
                    if self.mode == Modes::Disconnect {
                        self.remove_edge(c, i);
                    } else {
                        self.add_edge(c, i);
                    }
                    self.cur = None;
                }
            },
        }
    }

    /// Apply one pointer event in the current tool:
    /// - adding: a click places a vertex there, unless it is too close to
    ///   another;
    /// - joining and parting: a click on a vertex selects it or completes the
    ///   pair with the selected one;
    /// - deleting: a click on a vertex deletes it with its edges;
    /// - moving: a drag that started on a vertex moves it;
    /// - dragging: a drag moves every vertex.
    ///
    /// Any other event leaves the drawing as it is, and so does a move that
    /// would take a vertex off the canvas coordinates.
    pub fn handle(&mut self, ev: PointerEvent)
        requires
            old(self).wf(),
        ensures
            final(self).wf(),
            final(self).settings_of(old(self)),
            handled(old(self), final(self), ev),
    {
        let mode = self.mode;
        match ev {
            PointerEvent::Click { at } => {
                if mode == Modes::Add {
                    self.add_vertex(at);
                } else if mode == Modes::Connect || mode == Modes::Disconnect {
                    if let Some(i) = self.hit_vertex(at) {
                        self.select(i);
                    }
                } else if mode == Modes::Delete {
                    if let Some(i) = self.hit_vertex(at) {
                        self.remove_vertex(i);
                    }
                }
            },
            PointerEvent::Drag { at, delta } => {
                if mode == Modes::Move {
                    if let Some(i) = self.hit_vertex(at) {
                        self.move_vertex(i, delta);
                    }
                } else if mode == Modes::Drag {
                    self.translate_all(delta);
                }
            },
        }
    }
}

/// The selection once vertex `i` is clicked while `cur` is selected.
pub open spec fn pending_after(cur: Option<usize>, i: usize) -> Option<usize> {
    match cur {
        None => Some(i),
        Some(c) => if c == i {
            cur
        } else {
            None
        },
    }
}

/// The edges once vertex `i` is clicked while `cur` is selected, in the
/// tool `m`: a completed pair is joined, or parted in the parting tool.
pub open spec fn edges_after(m: Modes, s: Seq<(usize, usize)>, cur: Option<usize>, i: usize) -> Seq<(usize, usize)> {
    match cur {
        Some(c) => if c == i {
            s
        } else if m == Modes::Disconnect {
            edges_except(s, c, i)
        } else {
            with_edge(s, c, i)
        },
        None => s,
    }
}

/// `g` is `o` after the event `ev`, as `Graphs::handle` describes.
pub open spec fn handled(o: &Graphs, g: &Graphs, ev: PointerEvent) -> bool {
    let unchanged = g.vertices@ == o.vertices@ && g.edges@ == o.edges@ && g.cur == o.cur;
    match ev {
        PointerEvent::Click { at } => if o.mode == Modes::Add {
            &&& g.vertices@ == with_vertex(o.vertices@, at, o.radius, o.fill)
            &&& g.edges@ == o.edges@
            &&& g.cur == o.cur
        } else if keeps_selection(o.mode) {
            match first_hit(o.vertices@, o.radius, at) {
                Some(i) => {
                    &&& g.vertices@ == o.vertices@
                    &&& g.cur == pending_after(o.cur, i)
                    &&& g.edges@ == edges_after(o.mode, o.edges@, o.cur, i)
                },
                None => unchanged,
            }
        } else if o.mode == Modes::Delete {
            match first_hit(o.vertices@, o.radius, at) {
                Some(i) => {
                    &&& g.vertices@ == o.vertices@.remove(i as int)
                    &&& g.edges@ == crate::graph::edges_without(o.edges@, i)
                    &&& g.cur is None
                },
                None => unchanged,
            }
        } else {
            unchanged
        },
        PointerEvent::Drag { at, delta } => if o.mode == Modes::Move {
            match first_hit(o.vertices@, o.radius, at) {
                Some(i) => {
                    &&& g.edges@ == o.edges@
                    &&& g.cur == o.cur
                    &&& g.vertices@ == if moved_fits(o.vertices@[i as int].center, delta) {
                        o.vertices@.update(i as int, moved(o.vertices@[i as int], delta))
                    } else {
                        o.vertices@
                    }
                },
                None => unchanged,
            }
        } else if o.mode == Modes::Drag {
            &&& g.edges@ == o.edges@
            &&& g.cur == o.cur
            &&& g.vertices@ == if forall|k: int|
                0 <= k < o.vertices@.len() ==> moved_fits(#[trigger] o.vertices@[k].center, delta) {
                o.vertices@.map_values(|v: Vertex| moved(v, delta))
            } else {
                o.vertices@
            }
        } else {
            unchanged
        },
    }
}

} // verus!
