//! The polygon collection: hit-testing and vertex edits.

use vstd::prelude::*;
use crate::feature::{Document, Feature, Geometry};
use crate::geometry::{lemma_grown_is_bounding_box, Bounds, Circle, Pt};
use crate::ring::{
    encloses, is_closed, lemma_outside_the_box_is_outside, ring_defect, with_vertex, Ring,
};

verus! {

/// The reach of a vertex when picking: one map unit.
pub const PICK_RADIUS: u32 = 10_000;

/// The width of the band that a highlight's outline is widened to: one map
/// unit.
pub const OUTLINE_WIDTH: u32 = 10_000;

/// What kind of thing an object shows; the display colour follows from it.
#[derive(Clone, Copy, Debug, PartialEq, Eq, Structural)]
pub enum ColorClass {
    Intersection,
    Road,
    Other,
}

/// One named, coloured polygon.
#[derive(Debug)]
pub struct Object {
    pub color: ColorClass,
    pub polygon: Ring,
    pub name: String,
}

/// The objects in the order in which they were loaded. An object is known by
/// its place in this list, a vertex by its object's place and its own place
/// in the ring. Later objects are painted over earlier ones.
#[derive(Debug)]
pub struct Model {
    pub objects: Vec<Object>,
}

/// What the cursor is over.
#[derive(Clone, Copy, Debug, PartialEq, Eq, Structural)]
pub enum Hovering {
    /// The area of the object at this place, away from its vertices.
    Polygon(usize),
    /// A vertex: the place of its object, then its own place in the ring.
    Point(usize, usize),
}

/// Why a document could not be loaded.
#[derive(Clone, Copy, Debug, PartialEq, Eq, Structural)]
pub enum LoadError {
    /// The document is neither a feature nor a collection of features.
    UnexpectedDocument,
    /// The feature at this place has no polygon to show, or the outer ring
    /// of its polygon is no valid ring.
    MalformedGeometry(usize),
}

/// What a shape of a render batch is painted with.
#[derive(Clone, Copy, Debug, PartialEq, Eq, Structural)]
pub enum Paint {
    /// The colour of an object of this class.
    Object(ColorClass),
    /// The highlight of a hovered object's boundary.
    Outline,
    /// The marker of the hovered vertex.
    ActiveVertex,
    /// The marker of any other vertex.
    Vertex,
}

/// A shape of a render batch.
#[derive(Clone, Debug, PartialEq, Eq)]
pub enum Shape {
    /// The area inside a list of points.
    Area(Vec<Pt>),
    Disc(Circle),
}

/// One entry of a render batch. Later entries are painted over earlier ones.
#[derive(Clone, Debug, PartialEq, Eq)]
pub struct Draw {
    pub paint: Paint,
    pub shape: Shape,
}

impl Draw {
    /// The entry paints the area inside `pts` with `paint`.
    pub open spec fn is_area(&self, paint: Paint, pts: Seq<Pt>) -> bool {
        self.paint == paint && (self.shape matches Shape::Area(v) && v@ == pts)
    }

    /// The entry paints the disc `c` with `paint`.
    pub open spec fn is_disc(&self, paint: Paint, c: Circle) -> bool {
        self.paint == paint && self.shape == Shape::Disc(c)
    }
}

/// Every stored point of the objects, object after object.
pub open spec fn points_of(objects: Seq<Object>) -> Seq<Pt>
    decreases objects.len(),
{
    if objects.len() == 0 {
        Seq::empty()
    } else {
        points_of(objects.drop_last()) + objects.last().polygon@
    }
}

/// The pick circle around a vertex.
pub open spec fn pick_circle(v: Pt) -> Circle {
    Circle { center: v, radius: PICK_RADIUS }
}

/// The cursor is within picking reach of the vertex `v`.
pub open spec fn picks(v: Pt, cursor: Pt) -> bool {
    pick_circle(v).covers(cursor)
}

/// Vertex `j` is the first vertex of the list that the cursor picks.
pub open spec fn first_picked(s: Seq<Pt>, j: int, cursor: Pt) -> bool {
    &&& 0 <= j < s.len() - 1
    &&& picks(s[j], cursor)
    &&& forall|k: int| 0 <= k < j ==> !picks(#[trigger] s[k], cursor)
}

/// The cursor picks no vertex of the list.
pub open spec fn none_picked(s: Seq<Pt>, cursor: Pt) -> bool {
    forall|k: int| 0 <= k < s.len() - 1 ==> !picks(#[trigger] s[k], cursor)
}

impl Feature {
    /// `o` is the object made of this feature.
    pub open spec fn loads_as(&self, o: Object) -> bool {
        &&& self.outer_ring() == Some(o.polygon@)
        &&& ring_defect(o.polygon@) is None
        &&& o.name@ == self.object_name()
        &&& o.color == self.object_color()
    }
}

impl Object {
    /// Makes the object that shows a feature: its outer ring, its `id` as
    /// the name (`unnamed` without one), and the colour class of its kind.
    /// `None` for a feature that is not loadable.
    pub fn from_feature(feature: &Feature) -> (r: Option<Object>)
        ensures
            match r {
                Some(o) => feature.loads_as(o),
                None => !feature.loadable(),
            },
    {
        let points: Vec<Pt> = match &feature.geometry {
            Some(Geometry::MultiPolygon(multi_polygon)) => {
                if multi_polygon.len() == 0 || multi_polygon[0].len() == 0 {
                    return None;
                }
                multi_polygon[0][0].clone()
            },
            Some(Geometry::Polygon(polygon)) => {
                if polygon.len() == 0 {
                    return None;
                }
                polygon[0].clone()
            },
            _ => {
                return None;
            },
        };
        let polygon: Ring = match Ring::new(points) {
            Ok(ring) => ring,
            Err(_) => {
                return None;
            },
        };
        let name: String = match &feature.id {
            Some(id) => id.clone(),
            None => "unnamed".to_owned(),
        };
        let color: ColorClass = match &feature.kind {
            Some(kind) => {
                if *kind == "intersection".to_owned() {
                    ColorClass::Intersection
                } else if *kind == "road".to_owned() {
                    ColorClass::Road
                } else {
                    ColorClass::Other
                }
            },
            None => ColorClass::Other,
        };
        Some(Object { polygon, color, name })
    }

    /// The pick circles of the object's vertices, in ring order. The closing
    /// point repeats vertex 0 and gets no circle of its own.
    pub fn get_pts(&self) -> (circles: Vec<Circle>)
        ensures
            circles@.len() == self.polygon@.len() - 1,
            forall|k: int|
                0 <= k < circles@.len() ==> #[trigger] circles@[k] == pick_circle(self.polygon@[k]),
    {
        let pts: &Vec<Pt> = self.polygon.points();
        let mut circles: Vec<Circle> = Vec::new();
        let mut k: usize = 0;
        while k < pts.len() - 1
            invariant
                pts@ == self.polygon@,
                pts@.len() >= 4,
                k <= pts@.len() - 1,
                circles@.len() == k,
                forall|i: int|
                    0 <= i < k ==> #[trigger] circles@[i] == pick_circle(self.polygon@[i]),
            decreases pts@.len() - 1 - k,
        {
            circles.push(Circle::new(pts[k], PICK_RADIUS));
            k += 1;
        }
        circles
    }
}

impl Model {
    /// Loads every feature of a document, in order. The first feature that
    /// is not loadable fails the whole load.
    pub fn load_geojson(doc: &Document) -> (r: Result<Model, LoadError>)
        ensures
            match r {
                Ok(m) => {
                    &&& doc.features() matches Some(fs)
                    &&& m.objects@.len() == fs.len()
                    &&& forall|i: int| 0 <= i < fs.len() ==> (#[trigger] fs[i]).loads_as(m.objects@[i])
                    &&& m.all_closed()
                },
                Err(LoadError::UnexpectedDocument) => doc.features() is None,
                Err(LoadError::MalformedGeometry(i)) => {
                    &&& doc.features() matches Some(fs)
                    &&& i < fs.len()
                    &&& !fs[i as int].loadable()
                    &&& forall|j: int| 0 <= j < i ==> (#[trigger] fs[j]).loadable()
                },
            },
    {
        let mut objects: Vec<Object> = Vec::new();
        match doc {
            Document::Feature(feature) => {
                match Object::from_feature(feature) {
                    Some(o) => {
                        objects.push(o);
                    },
                    None => {
                        return Err(LoadError::MalformedGeometry(0));
                    },
                }
            },
            Document::FeatureCollection(features) => {
                let mut i: usize = 0;
                while i < features.len()
                    invariant
                        doc.features() == Some(features@),
                        i <= features@.len(),
                        objects@.len() == i,
                        forall|j: int|
                            0 <= j < i ==> (#[trigger] features@[j]).loads_as(objects@[j]),
                    decreases features@.len() - i,
                {
                    match Object::from_feature(&features[i]) {
                        Some(o) => {
                            objects.push(o);
                        },
                        None => {
                            return Err(LoadError::MalformedGeometry(i));
                        },
                    }
                    i += 1;
                }
            },
            Document::Geometry => {
                return Err(LoadError::UnexpectedDocument);
            },
        }
        proof {
            let fs: Seq<Feature> = doc.features().unwrap();
            assert forall|i: int| 0 <= i < objects@.len() implies is_closed(
                #[trigger] objects@[i].polygon@,
            ) by {
                assert(fs[i].loads_as(objects@[i]));
            }
        }
        Ok(Model { objects })
    }

    /// The bounding box of every stored point of every object.
    pub fn get_bounds(&self) -> (b: Bounds)
        ensures
            b.is_bounding_box_of(points_of(self.objects@)),
    {
        let mut b: Bounds = Bounds::new();
        let mut i: usize = 0;
        assert(self.objects@.take(0) =~= Seq::empty());
        while i < self.objects.len()
            invariant
                i <= self.objects@.len(),
                b.is_bounding_box_of(points_of(self.objects@.take(i as int))),
            decreases self.objects@.len() - i,
        {
            let pts: &Vec<Pt> = self.objects[i].polygon.points();
            let ghost before: Seq<Pt> = points_of(self.objects@.take(i as int));
            let mut k: usize = 0;
            assert(before + pts@.take(0) =~= before);
            while k < pts.len()
                invariant
                    k <= pts@.len(),
                    b.is_bounding_box_of(before + pts@.take(k as int)),
                decreases pts@.len() - k,
            {
                proof {
                    lemma_grown_is_bounding_box(b, before + pts@.take(k as int), pts@[k as int]);
                    assert((before + pts@.take(k as int)).push(pts@[k as int]) =~= before
                        + pts@.take(k + 1));
                }
                b.update(pts[k]);
                k += 1;
            }
            proof {
                let next: Seq<Object> = self.objects@.take(i + 1);
                assert(pts@.take(pts@.len() as int) =~= pts@);
                assert(next.drop_last() =~= self.objects@.take(i as int));
                assert(next.last() == self.objects@[i as int]);
            }
            i += 1;
        }
        assert(self.objects@.take(self.objects@.len() as int) =~= self.objects@);
        b
    }

    /// One area for each object, in the object's colour and in the order of
    /// the objects.
    pub fn render(&self) -> (batch: Vec<Draw>)
        ensures
            batch@.len() == self.objects@.len(),
            forall|i: int|
                0 <= i < batch@.len() ==> (#[trigger] batch@[i]).is_area(
                    Paint::Object(self.objects@[i].color),
                    self.objects@[i].polygon@,
                ),
    {
        let mut batch: Vec<Draw> = Vec::new();
        let mut i: usize = 0;
        while i < self.objects.len()
            invariant
                i <= self.objects@.len(),
                batch@.len() == i,
                forall|j: int|
                    0 <= j < i ==> (#[trigger] batch@[j]).is_area(
                        Paint::Object(self.objects@[j].color),
                        self.objects@[j].polygon@,
                    ),
            decreases self.objects@.len() - i,
        {
            let obj: &Object = &self.objects[i];
            batch.push(
                Draw { paint: Paint::Object(obj.color), shape: Shape::Area(obj.polygon.points().clone()) },
            );
            i += 1;
        }
        batch
    }

    /// Every ring of the model is closed.
    pub open spec fn all_closed(&self) -> bool {
        forall|i: int| 0 <= i < self.objects@.len() ==> is_closed(#[trigger] self.objects@[i].polygon@)
    }

    /// This model is `before` after vertex `id.1` of object `id.0` has moved
    /// to `pt`: that object's ring has changed as [`with_vertex`] says, its
    /// colour and name are the same, and so is every other object.
    pub open spec fn moved_from(&self, before: &Model, id: (usize, usize), pt: Pt) -> bool {
        &&& self.objects@.len() == before.objects@.len()
        &&& forall|i: int|
            0 <= i < before.objects@.len() && i != id.0 ==> #[trigger] self.objects@[i]
                == before.objects@[i]
        &&& self.objects@[id.0 as int].color == before.objects@[id.0 as int].color
        &&& self.objects@[id.0 as int].name == before.objects@[id.0 as int].name
        &&& self.objects@[id.0 as int].polygon@ == with_vertex(
            before.objects@[id.0 as int].polygon@,
            id.1 as int,
            pt,
        )
    }

    /// The area of the object at place `i` holds the cursor.
    pub open spec fn holds(&self, i: int, cursor: Pt) -> bool {
        encloses(self.objects@[i].polygon@, cursor)
    }

    /// The object at place `i` is the first whose area holds the cursor.
    pub open spec fn first_holding(&self, i: int, cursor: Pt) -> bool {
        &&& 0 <= i < self.objects@.len()
        &&& self.holds(i, cursor)
        &&& forall|j: int| 0 <= j < i ==> !#[trigger] self.holds(j, cursor)
    }

    /// `h` is what the cursor is over: nothing, when no object's area holds
    /// it; else, of the first object that does, the first vertex within
    /// picking reach, or the object itself when no vertex is.
    pub open spec fn is_hit(&self, cursor: Pt, h: Option<Hovering>) -> bool {
        match h {
            None => forall|i: int|
                0 <= i < self.objects@.len() ==> !#[trigger] self.holds(i, cursor),
            Some(Hovering::Polygon(i)) => {
                &&& self.first_holding(i as int, cursor)
                &&& none_picked(self.objects@[i as int].polygon@, cursor)
            },
            Some(Hovering::Point(i, j)) => {
                &&& self.first_holding(i as int, cursor)
                &&& first_picked(self.objects@[i as int].polygon@, j as int, cursor)
            },
        }
    }

    /// Finds what the cursor is over.
    pub fn compute_hovering(&self, cursor: Pt) -> (h: Option<Hovering>)
        ensures
            self.is_hit(cursor, h),
    {
        let mut idx1: usize = 0;
        while idx1 < self.objects.len()
            invariant
                idx1 <= self.objects@.len(),
                forall|i: int| 0 <= i < idx1 ==> !#[trigger] self.holds(i, cursor),
            decreases self.objects@.len() - idx1,
        {
            let obj: &Object = &self.objects[idx1];
            if obj.polygon.contains_pt(cursor) {
                let circles: Vec<Circle> = obj.get_pts();
                let mut idx2: usize = 0;
                while idx2 < circles.len()
                    invariant
                        idx1 < self.objects@.len(),
                        *obj == self.objects@[idx1 as int],
                        self.holds(idx1 as int, cursor),
                        forall|i: int| 0 <= i < idx1 ==> !#[trigger] self.holds(i, cursor),
                        idx2 <= circles@.len(),
                        circles@.len() == obj.polygon@.len() - 1,
                        forall|k: int|
                            0 <= k < circles@.len() ==> #[trigger] circles@[k] == pick_circle(
                                obj.polygon@[k],
                            ),
                        forall|k: int| 0 <= k < idx2 ==> !picks(#[trigger] obj.polygon@[k], cursor),
                    decreases circles@.len() - idx2,
                {
                    if circles[idx2].contains_pt(cursor) {
                        return Some(Hovering::Point(idx1, idx2));
                    }
                    idx2 += 1;
                }
                return Some(Hovering::Polygon(idx1));
            }
            idx1 += 1;
        }
        None
    }

    /// Moves one vertex of one object to `pt`. `id` gives the object's place
    /// and the vertex's place in its ring; the closing point is no vertex.
    /// Nothing else in the model changes, and the ring stays closed: with
    /// vertex 0 the closing point moves too.
    pub fn move_pt(&mut self, id: (usize, usize), pt: Pt)
        requires
            id.0 < old(self).objects@.len(),
            id.1 < old(self).objects@[id.0 as int].polygon@.len() - 1,
        ensures
            final(self).moved_from(old(self), id, pt),
            is_closed(final(self).objects@[id.0 as int].polygon@),
            old(self).all_closed() ==> final(self).all_closed(),
    {
        let mut pts: Vec<Pt> = self.objects[id.0].polygon.points().clone();
        pts[id.1] = pt;
        if id.1 == 0 {
            let last: usize = pts.len() - 1;
            pts[last] = pt;
        }
        self.objects[id.0].polygon = Ring::must_new(pts);
        proof {
            if old(self).all_closed() {
                assert forall|i: int| 0 <= i < self.objects@.len() implies is_closed(
                    #[trigger] self.objects@[i].polygon@,
                ) by {
                    if i != id.0 {
                        assert(self.objects@[i] == old(self).objects@[i]);
                        assert(is_closed(old(self).objects@[i].polygon@));
                    }
                }
            }
        }
    }
}

impl Hovering {
    /// The place of the object that is hovered, or whose vertex is.
    pub open spec fn object(&self) -> usize {
        match self {
            Hovering::Polygon(i) => *i,
            Hovering::Point(i, _) => *i,
        }
    }

    /// How many entries of the highlight the outline takes: one, or none
    /// without an outline.
    pub open spec fn outline_len(outline: Option<Vec<Pt>>) -> int {
        if outline is Some {
            1
        } else {
            0
        }
    }

    /// How many vertex markers the highlight has: over a vertex, one for
    /// each vertex of the object; over the area, none.
    pub open spec fn marker_len(&self, model: &Model) -> int {
        match self {
            Hovering::Polygon(_) => 0,
            Hovering::Point(i, _) => model.objects@[*i as int].polygon@.len() - 1,
        }
    }

    /// The paint of the marker of vertex `k`.
    pub open spec fn marker_paint(&self, k: int) -> Paint {
        if self matches Hovering::Point(_, j) && k == j {
            Paint::ActiveVertex
        } else {
            Paint::Vertex
        }
    }

    /// The highlight to paint over the model. `outline` is the boundary of
    /// the hovered object, widened to a band; without it the highlight has
    /// no outline. Over a vertex, each vertex of the object then gets a
    /// marker on its pick circle, the hovered vertex in a paint of its own.
    pub fn render(&self, model: &Model, outline: Option<Vec<Pt>>) -> (batch: Vec<Draw>)
        requires
            self.object() < model.objects@.len(),
        ensures
            batch@.len() == Self::outline_len(outline) + self.marker_len(model),
            outline matches Some(band) ==> batch@[0].is_area(Paint::Outline, band@),
            forall|k: int|
                0 <= k < self.marker_len(model) ==> (#[trigger] batch@.skip(
                    Self::outline_len(outline),
                )[k]).is_disc(
                    self.marker_paint(k),
                    pick_circle(model.objects@[self.object() as int].polygon@[k]),
                ),
    {
        let mut batch: Vec<Draw> = Vec::new();
        let ghost lead: int = Self::outline_len(outline);
        match outline {
            Some(band) => {
                batch.push(Draw { paint: Paint::Outline, shape: Shape::Area(band) });
            },
            None => {},
        }
        match self {
            Hovering::Polygon(_) => {},
            Hovering::Point(idx1, idx2) => {
                let obj: &Object = &model.objects[*idx1];
                let circles: Vec<Circle> = obj.get_pts();
                let ghost first: Seq<Draw> = batch@;
                let mut idx: usize = 0;
                while idx < circles.len()
                    invariant
                        idx <= circles@.len(),
                        circles@.len() == obj.polygon@.len() - 1,
                        forall|k: int|
                            0 <= k < circles@.len() ==> #[trigger] circles@[k] == pick_circle(
                                obj.polygon@[k],
                            ),
                        0 <= lead <= 1,
                        first.len() == lead,
                        batch@.len() == lead + idx,
                        batch@.take(lead) =~= first,
                        *self == Hovering::Point(*idx1, *idx2),
                        forall|k: int|
                            0 <= k < idx ==> (#[trigger] batch@.skip(lead)[k]).is_disc(
                                self.marker_paint(k),
                                pick_circle(obj.polygon@[k]),
                            ),
                    decreases circles@.len() - idx,
                {
                    let paint: Paint = if *idx2 == idx {
                        Paint::ActiveVertex
                    } else {
                        Paint::Vertex
                    };
                    let ghost before: Seq<Draw> = batch@;
                    batch.push(Draw { paint, shape: Shape::Disc(circles[idx]) });
                    assert forall|k: int| 0 <= k < idx + 1 implies (#[trigger] batch@.skip(
                        lead,
                    )[k]).is_disc(self.marker_paint(k), pick_circle(obj.polygon@[k])) by {
                        if k < idx {
                            assert(batch@.skip(lead)[k] == before.skip(lead)[k]);
                        }
                    }
                    idx += 1;
                }
                assert(lead == 1 ==> batch@[0] == batch@.take(lead)[0]);
            },
        }
        batch
    }
}

/// Every stored point of every object is among [`points_of`].
pub proof fn lemma_points_of_has(objects: Seq<Object>, i: int, k: int)
    requires
        0 <= i < objects.len(),
        0 <= k < objects[i].polygon@.len(),
    ensures
        exists|n: int|
            0 <= n < points_of(objects).len() && #[trigger] points_of(objects)[n]
                == objects[i].polygon@[k],
    decreases objects.len(),
{
    let rest = objects.drop_last();
    let head = points_of(rest);
    if i == objects.len() - 1 {
        assert(points_of(objects)[head.len() + k] == objects[i].polygon@[k]);
    } else {
        lemma_points_of_has(rest, i, k);
        let n = choose|n: int| 0 <= n < head.len() && #[trigger] head[n] == rest[i].polygon@[k];
        assert(points_of(objects)[n] == head[n]);
    }
}

/// The bounding box of a model holds every stored point of every object.
pub proof fn lemma_bounds_hold_every_point(m: Model, b: Bounds, i: int, k: int)
    requires
        b.is_bounding_box_of(points_of(m.objects@)),
        0 <= i < m.objects@.len(),
        0 <= k < m.objects@[i].polygon@.len(),
    ensures
        b.encloses(m.objects@[i].polygon@[k]),
{
    lemma_points_of_has(m.objects@, i, k);
}

/// A cursor outside the bounding box of a model is over nothing.
pub proof fn lemma_outside_the_bounds_nothing_is_hit(
    m: Model,
    b: Bounds,
    cursor: Pt,
    h: Option<Hovering>,
)
    requires
        m.all_closed(),
        b.is_bounding_box_of(points_of(m.objects@)),
        !b.encloses(cursor),
        m.is_hit(cursor, h),
    ensures
        h is None,
{
    assert forall|i: int| 0 <= i < m.objects@.len() implies !#[trigger] m.holds(i, cursor) by {
        let s = m.objects@[i].polygon@;
        assert(is_closed(s));
        assert forall|k: int| 0 <= k < s.len() implies b.encloses(#[trigger] s[k]) by {
            lemma_bounds_hold_every_point(m, b, i, k);
        }
        lemma_outside_the_box_is_outside(s, b, cursor);
    }
}

/// Of two objects whose areas both hold the cursor, the later one is never
/// what is found: the find is at the earlier one or before it, and at the
/// earlier one when no object before it holds the cursor.
pub proof fn lemma_first_match(m: Model, cursor: Pt, a: int, b: int, h: Option<Hovering>)
    requires
        0 <= a < b < m.objects@.len(),
        m.holds(a, cursor),
        m.holds(b, cursor),
        m.is_hit(cursor, h),
    ensures
        h matches Some(found) && found.object() <= a && found.object() != b,
        (forall|j: int| 0 <= j < a ==> !#[trigger] m.holds(j, cursor)) ==> h.unwrap().object() == a,
{
}

/// A vertex goes before its object: when the first object that holds the
/// cursor has a vertex within picking reach, that object's first such
/// vertex is found, and not the object.
pub proof fn lemma_vertex_precedence(m: Model, cursor: Pt, i: int, k: int, h: Option<Hovering>)
    requires
        m.first_holding(i, cursor),
        0 <= k < m.objects@[i].polygon@.len() - 1,
        picks(m.objects@[i].polygon@[k], cursor),
        m.is_hit(cursor, h),
    ensures
        h matches Some(Hovering::Point(i2, j)) && i2 == i && j <= k,
{
}

/// A cursor is over one thing only: whatever is found for a model and a
/// cursor, it is the same each time.
pub proof fn lemma_hit_is_unique(m: Model, cursor: Pt, h1: Option<Hovering>, h2: Option<Hovering>)
    requires
        m.is_hit(cursor, h1),
        m.is_hit(cursor, h2),
    ensures
        h1 == h2,
{
}

} // verus!
