//! Closed rings of points: validity, containment and vertex edits.

use vstd::prelude::*;
use crate::geometry::{cross, orientation, Bounds, Pt};

verus! {

/// A point list closes a ring when it has at least four entries (three
/// vertices and the repeated first one) and ends where it starts.
pub open spec fn is_closed(s: Seq<Pt>) -> bool {
    s.len() >= 4 && s[0] == s[s.len() - 1]
}

/// No two vertices of the list coincide; the closing entry is not a vertex.
pub open spec fn has_distinct_vertices(s: Seq<Pt>) -> bool {
    forall|i: int, j: int| 0 <= i < j < s.len() - 1 ==> s[i] != s[j]
}

/// Why a point list is turned down as a ring.
#[derive(Clone, Copy, Debug, PartialEq, Eq, Structural)]
pub enum RingError {
    /// Fewer than four entries.
    TooFewPoints,
    /// The last entry differs from the first.
    NotClosed,
    /// Two vertices coincide.
    RepeatedVertex,
}

/// The first defect of a point list, in the order length, closure,
/// distinctness; `None` for a list that a ring can be made from.
pub open spec fn ring_defect(s: Seq<Pt>) -> Option<RingError> {
    if s.len() < 4 {
        Some(RingError::TooFewPoints)
    } else if s[0] != s[s.len() - 1] {
        Some(RingError::NotClosed)
    } else if !has_distinct_vertices(s) {
        Some(RingError::RepeatedVertex)
    } else {
        None
    }
}

/// `p` lies on the closed segment from `a` to `b`.
pub open spec fn on_segment(a: Pt, b: Pt, p: Pt) -> bool {
    &&& cross(a, b, p) == 0
    &&& (a.x <= p.x <= b.x || b.x <= p.x <= a.x)
    &&& (a.y <= p.y <= b.y || b.y <= p.y <= a.y)
}

/// `p` lies on the edge that leaves entry `i` of the list.
pub open spec fn on_edge(s: Seq<Pt>, i: int, p: Pt) -> bool {
    on_segment(s[i], s[i + 1], p)
}

/// `p` lies on one of the edges of the list.
pub open spec fn on_boundary(s: Seq<Pt>, p: Pt) -> bool {
    exists|i: int| 0 <= i < s.len() - 1 && #[trigger] on_edge(s, i, p)
}

/// The ray from `p` towards growing `x` crosses the edge from `a` to `b`.
/// An edge owns its lower end and not its upper one, so that a ray through a
/// vertex meets each of the two edges there at most once, and a level edge
/// never.
pub open spec fn ray_crosses(a: Pt, b: Pt, p: Pt) -> bool {
    ||| a.y <= p.y < b.y && cross(a, b, p) > 0
    ||| b.y <= p.y < a.y && cross(a, b, p) < 0
}

/// How many of the first `n` edges of the list the ray from `p` crosses.
pub open spec fn crossings(s: Seq<Pt>, n: int, p: Pt) -> int
    decreases n,
{
    if n <= 0 {
        0
    } else {
        crossings(s, n - 1, p) + if ray_crosses(s[n - 1], s[n], p) {
            1int
        } else {
            0int
        }
    }
}

/// The area bounded by the list holds `p`: the point lies on the boundary, or
/// a ray from it crosses the boundary an odd number of times.
pub open spec fn encloses(s: Seq<Pt>, p: Pt) -> bool {
    on_boundary(s, p) || crossings(s, s.len() - 1, p) % 2 == 1
}

/// The list after vertex `k` has moved to `p`. Vertex 0 is stored twice, as
/// the first and as the closing entry, and both follow it.
pub open spec fn with_vertex(s: Seq<Pt>, k: int, p: Pt) -> Seq<Pt> {
    if k == 0 {
        s.update(0, p).update(s.len() - 1, p)
    } else {
        s.update(k, p)
    }
}

/// Moving a vertex moves that vertex and nothing else; with vertex 0 the
/// closing entry moves too. The other entries stay, and so does the length.
pub proof fn lemma_with_vertex(s: Seq<Pt>, k: int, p: Pt)
    requires
        s.len() >= 2,
        0 <= k < s.len() - 1,
    ensures
        with_vertex(s, k, p).len() == s.len(),
        with_vertex(s, k, p)[k] == p,
        k == 0 ==> with_vertex(s, k, p)[s.len() - 1] == p,
        forall|i: int|
            0 <= i < s.len() && i != k && !(k == 0 && i == s.len() - 1) ==> with_vertex(s, k, p)[i]
                == s[i],
{
}

/// A closed list stays closed when one of its vertices moves.
pub proof fn lemma_move_keeps_closed(s: Seq<Pt>, k: int, p: Pt)
    requires
        is_closed(s),
        0 <= k < s.len() - 1,
    ensures
        is_closed(with_vertex(s, k, p)),
{
}

/// Every entry of a point list lies on the list's boundary, and so inside
/// the area that the list bounds.
pub proof fn lemma_vertex_is_enclosed(s: Seq<Pt>, k: int)
    requires
        s.len() >= 2,
        0 <= k < s.len(),
    ensures
        on_boundary(s, s[k]),
        encloses(s, s[k]),
{
    let i = if k < s.len() - 1 { k } else { k - 1 };
    let a = s[i];
    let b = s[i + 1];
    assert(cross(a, b, a) == 0) by (nonlinear_arith);
    assert(cross(a, b, b) == 0) by (nonlinear_arith);
    assert(on_edge(s, i, s[k]));
}

/// The sign of a product with a positive factor is the sign of the other.
proof fn lemma_sign_of_product(a: int, b: int)
    by (nonlinear_arith)
    requires
        a > 0,
    ensures
        a * b > 0 <==> b > 0,
        a * b < 0 <==> b < 0,
        a * b == 0 <==> b == 0,
{
}

/// The area bounded by the four sides of a level rectangle is the rectangle,
/// sides and corners included.
pub proof fn lemma_level_rectangle(x0: i32, y0: i32, x1: i32, y1: i32, p: Pt)
    requires
        x0 < x1,
        y0 < y1,
    ensures
        encloses(
            seq![
                Pt { x: x0, y: y0 },
                Pt { x: x1, y: y0 },
                Pt { x: x1, y: y1 },
                Pt { x: x0, y: y1 },
                Pt { x: x0, y: y0 },
            ],
            p,
        ) <==> x0 <= p.x <= x1 && y0 <= p.y <= y1,
{
    let s = seq![
        Pt { x: x0, y: y0 },
        Pt { x: x1, y: y0 },
        Pt { x: x1, y: y1 },
        Pt { x: x0, y: y1 },
        Pt { x: x0, y: y0 },
    ];
    let w = x1 - x0;
    let h = y1 - y0;
    assert(cross(s[0], s[1], p) == w * (p.y - y0)) by (nonlinear_arith)
        requires
            s[0] == (Pt { x: x0, y: y0 }),
            s[1] == (Pt { x: x1, y: y0 }),
            w == x1 - x0,
    ;
    assert(cross(s[1], s[2], p) == -(h * (p.x - x1))) by (nonlinear_arith)
        requires
            s[1] == (Pt { x: x1, y: y0 }),
            s[2] == (Pt { x: x1, y: y1 }),
            h == y1 - y0,
    ;
    assert(cross(s[2], s[3], p) == -(w * (p.y - y1))) by (nonlinear_arith)
        requires
            s[2] == (Pt { x: x1, y: y1 }),
            s[3] == (Pt { x: x0, y: y1 }),
            w == x1 - x0,
    ;
    assert(cross(s[3], s[4], p) == h * (p.x - x0)) by (nonlinear_arith)
        requires
            s[3] == (Pt { x: x0, y: y1 }),
            s[4] == (Pt { x: x0, y: y0 }),
            h == y1 - y0,
    ;
    lemma_sign_of_product(w, p.y - y0);
    lemma_sign_of_product(h, p.x - x1);
    lemma_sign_of_product(w, p.y - y1);
    lemma_sign_of_product(h, p.x - x0);
    assert(on_edge(s, 0, p) <==> p.y == y0 && x0 <= p.x <= x1);
    assert(on_edge(s, 1, p) <==> p.x == x1 && y0 <= p.y <= y1);
    assert(on_edge(s, 2, p) <==> p.y == y1 && x0 <= p.x <= x1);
    assert(on_edge(s, 3, p) <==> p.x == x0 && y0 <= p.y <= y1);
    assert(!ray_crosses(s[0], s[1], p));
    assert(ray_crosses(s[1], s[2], p) <==> y0 <= p.y < y1 && p.x < x1);
    assert(!ray_crosses(s[2], s[3], p));
    assert(ray_crosses(s[3], s[4], p) <==> y0 <= p.y < y1 && p.x < x0);
    assert(crossings(s, 4, p) % 2 == 1 <==> y0 <= p.y < y1 && x0 <= p.x < x1) by {
        reveal_with_fuel(crossings, 5);
    }
    if on_boundary(s, p) {
        let i = choose|i: int| 0 <= i < s.len() - 1 && #[trigger] on_edge(s, i, p);
        assert(i == 0 || i == 1 || i == 2 || i == 3);
    }
}

/// A ray that starts to the right of both ends of an edge does not cross it.
proof fn lemma_no_crossing_from_the_right(a: Pt, b: Pt, p: Pt)
    requires
        p.x > a.x,
        p.x > b.x,
    ensures
        !ray_crosses(a, b, p),
{
    let dx = b.x - a.x;
    let dy = b.y - a.y;
    let t = p.y - a.y;
    let u = p.x - a.x;
    assert(cross(a, b, p) == dx * t - dy * u);
    if a.y <= p.y < b.y {
        assert(dx * t - dy * u < 0) by (nonlinear_arith)
            requires
                dy > 0,
                0 <= t < dy,
                u > 0,
                u > dx,
        ;
    }
    if b.y <= p.y < a.y {
        assert(dx * t - dy * u > 0) by (nonlinear_arith)
            requires
                dy < 0,
                dy <= t < 0,
                u > 0,
                u > dx,
        ;
    }
}

/// A ray that starts to the left of both ends of an edge crosses it when
/// the edge passes the level of the ray, and only then.
proof fn lemma_crossing_from_the_left(a: Pt, b: Pt, p: Pt)
    requires
        p.x < a.x,
        p.x < b.x,
    ensures
        ray_crosses(a, b, p) <==> ((a.y <= p.y) != (b.y <= p.y)),
{
    let dx = b.x - a.x;
    let dy = b.y - a.y;
    let t = p.y - a.y;
    let u = p.x - a.x;
    assert(cross(a, b, p) == dx * t - dy * u);
    if a.y <= p.y < b.y {
        assert(dx * t - dy * u > 0) by (nonlinear_arith)
            requires
                dy > 0,
                0 <= t < dy,
                u < 0,
                u < dx,
        ;
    }
    if b.y <= p.y < a.y {
        assert(dx * t - dy * u < 0) by (nonlinear_arith)
            requires
                dy < 0,
                dy <= t < 0,
                u < 0,
                u < dx,
        ;
    }
}

/// Seen from the left of every point, the ray has crossed an odd number of
/// edges exactly when it has changed sides between entry 0 and entry `n`.
proof fn lemma_crossings_from_the_left(s: Seq<Pt>, n: int, p: Pt)
    requires
        0 <= n < s.len(),
        forall|k: int| 0 <= k < s.len() ==> p.x < (#[trigger] s[k]).x,
    ensures
        crossings(s, n, p) % 2 == 1 <==> ((s[0].y <= p.y) != (s[n].y <= p.y)),
    decreases n,
{
    if n > 0 {
        lemma_crossings_from_the_left(s, n - 1, p);
        lemma_crossing_from_the_left(s[n - 1], s[n], p);
    }
}

/// Where the ray crosses none of the first `n` edges, it has no crossings.
proof fn lemma_no_crossings(s: Seq<Pt>, n: int, p: Pt)
    requires
        0 <= n < s.len(),
        forall|k: int| 0 <= k < n ==> !ray_crosses(#[trigger] s[k], s[k + 1], p),
    ensures
        crossings(s, n, p) == 0,
    decreases n,
{
    if n > 0 {
        lemma_no_crossings(s, n - 1, p);
        assert(!ray_crosses(s[n - 1], s[n - 1 + 1], p));
    }
}

/// A list that ends where it starts encloses no point outside a box that
/// holds all of its points.
pub proof fn lemma_outside_the_box_is_outside(s: Seq<Pt>, b: Bounds, p: Pt)
    requires
        s.len() >= 1,
        s[0] == s[s.len() - 1],
        forall|k: int| 0 <= k < s.len() ==> b.encloses(#[trigger] s[k]),
        !b.encloses(p),
    ensures
        !encloses(s, p),
{
    let n = s.len() - 1;
    assert forall|i: int| 0 <= i < n implies !#[trigger] on_edge(s, i, p) by {
        assert(b.encloses(s[i]) && b.encloses(s[i + 1]));
    }
    if p.x < b.min_x {
        assert forall|k: int| 0 <= k < s.len() implies p.x < (#[trigger] s[k]).x by {
            assert(b.encloses(s[k]));
        }
        lemma_crossings_from_the_left(s, n, p);
    } else {
        assert forall|k: int| 0 <= k < n implies !ray_crosses(#[trigger] s[k], s[k + 1], p) by {
            assert(b.encloses(s[k]) && b.encloses(s[k + 1]));
            if p.x > b.max_x {
                lemma_no_crossing_from_the_right(s[k], s[k + 1], p);
            }
        }
        lemma_no_crossings(s, n, p);
    }
}

/// A point list that a ring can be made from has three vertices, no two of
/// them in one place.
pub proof fn lemma_valid_ring_has_three_vertices(s: Seq<Pt>)
    requires
        ring_defect(s) is None,
    ensures
        is_closed(s),
        s[0] != s[1],
        s[1] != s[2],
        s[0] != s[2],
{
}

/// A closed ring of points. Whatever is done to it, it stays closed.
#[derive(Debug)]
pub struct Ring {
    pts: Vec<Pt>,
}

impl View for Ring {
    type V = Seq<Pt>;

    closed spec fn view(&self) -> Seq<Pt> {
        self.pts@
    }
}

impl Ring {
    #[verifier::type_invariant]
    spec fn stays_closed(self) -> bool {
        is_closed(self.pts@)
    }

    /// Makes a ring from a point list, or names the list's first defect.
    pub fn new(pts: Vec<Pt>) -> (r: Result<Ring, RingError>)
        ensures
            match r {
                Ok(ring) => ring_defect(pts@) is None && ring@ == pts@,
                Err(e) => ring_defect(pts@) == Some(e),
            },
    {
        let n: usize = pts.len();
        if n < 4 {
            return Err(RingError::TooFewPoints);
        }
        if pts[0] != pts[n - 1] {
            return Err(RingError::NotClosed);
        }
        let mut i: usize = 0;
        while i < n - 1
            invariant
                n == pts@.len(),
                n >= 4,
                i <= n - 1,
                pts@[0] == pts@[n - 1],
                forall|a: int, b: int| 0 <= a < b < n - 1 && a < i ==> pts@[a] != pts@[b],
            decreases n - 1 - i,
        {
            let mut j: usize = i + 1;
            while j < n - 1
                invariant
                    n == pts@.len(),
                    n >= 4,
                    i < n - 1,
                    i < j <= n - 1,
                    pts@[0] == pts@[n - 1],
                    forall|b: int| i < b < j ==> pts@[i as int] != pts@[b],
                decreases n - 1 - j,
            {
                if pts[i] == pts[j] {
                    assert(pts@[i as int] == pts@[j as int]);
                    return Err(RingError::RepeatedVertex);
                }
                j += 1;
            }
            i += 1;
        }
        Ok(Ring { pts })
    }

    /// Makes a ring from a point list that is known to close.
    pub(crate) fn must_new(pts: Vec<Pt>) -> (r: Ring)
        requires
            is_closed(pts@),
        ensures
            r@ == pts@,
    {
        Ring { pts }
    }

    /// The stored points, the closing one included.
    pub fn points(&self) -> (v: &Vec<Pt>)
        ensures
            v@ == self@,
            is_closed(self@),
    {
        proof {
            use_type_invariant(self);
        }
        &self.pts
    }

    /// Whether the ring's area, boundary included, holds `p`.
    pub fn contains_pt(&self, p: Pt) -> (r: bool)
        ensures
            r == encloses(self@, p),
    {
        proof {
            use_type_invariant(self);
        }
        let n: usize = self.pts.len();
        let mut inside: bool = false;
        let mut i: usize = 0;
        while i < n - 1
            invariant
                n == self.pts@.len(),
                n >= 4,
                i <= n - 1,
                forall|k: int| 0 <= k < i ==> !#[trigger] on_edge(self.pts@, k, p),
                inside == (crossings(self.pts@, i as int, p) % 2 == 1),
            decreases n - 1 - i,
        {
            let a: Pt = self.pts[i];
            let b: Pt = self.pts[i + 1];
            let c: i128 = orientation(a, b, p);
            if c == 0 && ((a.x <= p.x && p.x <= b.x) || (b.x <= p.x && p.x <= a.x)) && ((a.y
                <= p.y && p.y <= b.y) || (b.y <= p.y && p.y <= a.y)) {
                assert(on_edge(self.pts@, i as int, p));
                return true;
            }
            if (a.y <= p.y && p.y < b.y && c > 0) || (b.y <= p.y && p.y < a.y && c < 0) {
                inside = !inside;
            }
            i += 1;
        }
        inside
    }
}

} // verus!
