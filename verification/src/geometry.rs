//! Points, pick circles and bounding boxes on the tick grid.

use vstd::prelude::*;

verus! {

/// How many coordinate ticks make one map unit.
pub const TICKS_PER_UNIT: i32 = 10_000;

/// A position on the map, in ticks.
#[derive(Clone, Copy, Debug, PartialEq, Eq, Structural)]
pub struct Pt {
    pub x: i32,
    pub y: i32,
}

/// Twice the signed area of the triangle `a`, `b`, `p`: positive when `p` lies
/// to the left of the directed line from `a` to `b`, zero when the three are
/// collinear.
pub open spec fn cross(a: Pt, b: Pt, p: Pt) -> int {
    (b.x - a.x) * (p.y - a.y) - (b.y - a.y) * (p.x - a.x)
}

/// The square of the distance between two points.
pub open spec fn dist_sq(a: Pt, b: Pt) -> int {
    (a.x - b.x) * (a.x - b.x) + (a.y - b.y) * (a.y - b.y)
}

/// The product of two coordinate differences stays far inside `i128`.
proof fn lemma_product_bound(a: int, b: int)
    by (nonlinear_arith)
    requires
        -0x1_0000_0000 <= a <= 0x1_0000_0000,
        -0x1_0000_0000 <= b <= 0x1_0000_0000,
    ensures
        -0x1_0000_0000_0000_0000 <= a * b <= 0x1_0000_0000_0000_0000,
{
}

impl Pt {
    pub fn new(x: i32, y: i32) -> (p: Pt)
        ensures
            p.x == x,
            p.y == y,
    {
        Pt { x, y }
    }
}

/// Computes [`cross`] without overflow.
pub fn orientation(a: Pt, b: Pt, p: Pt) -> (r: i128)
    ensures
        r == cross(a, b, p),
{
    let abx: i128 = b.x as i128 - a.x as i128;
    let aby: i128 = b.y as i128 - a.y as i128;
    let apx: i128 = p.x as i128 - a.x as i128;
    let apy: i128 = p.y as i128 - a.y as i128;
    proof {
        lemma_product_bound(abx as int, apy as int);
        lemma_product_bound(aby as int, apx as int);
    }
    abx * apy - aby * apx
}

/// A disc around a vertex; a point is picked when it falls strictly inside.
#[derive(Clone, Copy, Debug, PartialEq, Eq, Structural)]
pub struct Circle {
    pub center: Pt,
    pub radius: u32,
}

impl Circle {
    pub fn new(center: Pt, radius: u32) -> (c: Circle)
        ensures
            c.center == center,
            c.radius == radius,
    {
        Circle { center, radius }
    }

    /// The point lies closer to the centre than the radius.
    pub open spec fn covers(self, p: Pt) -> bool {
        dist_sq(self.center, p) < self.radius * self.radius
    }

    pub fn contains_pt(&self, p: Pt) -> (r: bool)
        ensures
            r == self.covers(p),
    {
        let dx: i128 = self.center.x as i128 - p.x as i128;
        let dy: i128 = self.center.y as i128 - p.y as i128;
        let rad: i128 = self.radius as i128;
        proof {
            lemma_product_bound(dx as int, dx as int);
            lemma_product_bound(dy as int, dy as int);
            lemma_product_bound(rad as int, rad as int);
        }
        dx * dx + dy * dy < rad * rad
    }
}

/// An axis-aligned box, given by its least and greatest coordinates.
///
/// The box that has met no point yet is inverted: its least coordinates are
/// the greatest `i32` and its greatest coordinates the least.
#[derive(Clone, Copy, Debug, PartialEq, Eq, Structural)]
pub struct Bounds {
    pub min_x: i32,
    pub min_y: i32,
    pub max_x: i32,
    pub max_y: i32,
}

impl Bounds {
    /// The inverted box around no point at all.
    pub open spec fn empty() -> Bounds {
        Bounds { min_x: i32::MAX, min_y: i32::MAX, max_x: i32::MIN, max_y: i32::MIN }
    }

    /// The smallest box that holds both this box and `p`.
    pub open spec fn grown(self, p: Pt) -> Bounds {
        Bounds {
            min_x: if p.x < self.min_x { p.x } else { self.min_x },
            min_y: if p.y < self.min_y { p.y } else { self.min_y },
            max_x: if p.x > self.max_x { p.x } else { self.max_x },
            max_y: if p.y > self.max_y { p.y } else { self.max_y },
        }
    }

    pub open spec fn encloses(self, p: Pt) -> bool {
        self.min_x <= p.x <= self.max_x && self.min_y <= p.y <= self.max_y
    }

    /// This box is the bounding box of `pts`: it holds every point, and each
    /// of its four sides passes through one of them. Around no point it is
    /// the inverted box.
    pub open spec fn is_bounding_box_of(self, pts: Seq<Pt>) -> bool {
        if pts.len() == 0 {
            self == Bounds::empty()
        } else {
            &&& forall|k: int| 0 <= k < pts.len() ==> self.encloses(#[trigger] pts[k])
            &&& exists|k: int| 0 <= k < pts.len() && (#[trigger] pts[k]).x == self.min_x
            &&& exists|k: int| 0 <= k < pts.len() && (#[trigger] pts[k]).y == self.min_y
            &&& exists|k: int| 0 <= k < pts.len() && (#[trigger] pts[k]).x == self.max_x
            &&& exists|k: int| 0 <= k < pts.len() && (#[trigger] pts[k]).y == self.max_y
        }
    }

    pub fn new() -> (b: Bounds)
        ensures
            b == Bounds::empty(),
    {
        Bounds { min_x: i32::MAX, min_y: i32::MAX, max_x: i32::MIN, max_y: i32::MIN }
    }

    pub fn update(&mut self, p: Pt)
        ensures
            *final(self) == old(self).grown(p),
    {
        if p.x < self.min_x {
            self.min_x = p.x;
        }
        if p.y < self.min_y {
            self.min_y = p.y;
        }
        if p.x > self.max_x {
            self.max_x = p.x;
        }
        if p.y > self.max_y {
            self.max_y = p.y;
        }
    }
}

/// Growing the bounding box of some points by one more point gives the
/// bounding box of all of them.
pub proof fn lemma_grown_is_bounding_box(b: Bounds, pts: Seq<Pt>, p: Pt)
    requires
        b.is_bounding_box_of(pts),
    ensures
        b.grown(p).is_bounding_box_of(pts.push(p)),
{
    let g = b.grown(p);
    let all = pts.push(p);
    let n = pts.len() as int;
    assert(all[n] == p);
    assert forall|k: int| 0 <= k < all.len() implies g.encloses(#[trigger] all[k]) by {
        if k < n {
            assert(all[k] == pts[k]);
        }
    }
    if n == 0 {
        assert(all[0].x == g.min_x && all[0].y == g.min_y);
        assert(all[0].x == g.max_x && all[0].y == g.max_y);
    } else {
        let k1 = if p.x < b.min_x { n } else { choose|k: int| 0 <= k < n && (#[trigger] pts[k]).x == b.min_x };
        let k2 = if p.y < b.min_y { n } else { choose|k: int| 0 <= k < n && (#[trigger] pts[k]).y == b.min_y };
        let k3 = if p.x > b.max_x { n } else { choose|k: int| 0 <= k < n && (#[trigger] pts[k]).x == b.max_x };
        let k4 = if p.y > b.max_y { n } else { choose|k: int| 0 <= k < n && (#[trigger] pts[k]).y == b.max_y };
        assert(all[k1].x == g.min_x);
        assert(all[k2].y == g.min_y);
        assert(all[k3].x == g.max_x);
        assert(all[k4].y == g.max_y);
    }
}

/// A sequence of points has one bounding box only.
pub proof fn lemma_bounding_box_unique(a: Bounds, b: Bounds, pts: Seq<Pt>)
    requires
        a.is_bounding_box_of(pts),
        b.is_bounding_box_of(pts),
    ensures
        a == b,
{
}

} // verus!
