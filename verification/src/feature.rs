//! The document that a model is loaded from, as plain values.

use vstd::prelude::*;
use crate::geometry::Pt;
use crate::model::ColorClass;
use crate::ring::ring_defect;

verus! {

/// The shape of a feature. A polygon is a list of rings, the outer one
/// first; a multi-polygon is a list of polygons.
#[derive(Clone, Debug)]
pub enum Geometry {
    Polygon(Vec<Vec<Pt>>),
    MultiPolygon(Vec<Vec<Vec<Pt>>>),
    /// Any other kind of shape.
    Other,
}

/// One feature of the document, with the two attributes that are read:
/// `id`, and `kind` for the attribute called `type`. An attribute that is
/// missing, or is no string, is `None`.
#[derive(Clone, Debug)]
pub struct Feature {
    pub geometry: Option<Geometry>,
    pub id: Option<String>,
    pub kind: Option<String>,
}

/// A whole document.
#[derive(Clone, Debug)]
pub enum Document {
    /// A bare shape, outside any feature.
    Geometry,
    Feature(Feature),
    FeatureCollection(Vec<Feature>),
}

impl Geometry {
    /// The ring that is shown: the outer ring of a polygon, or of the first
    /// polygon of a multi-polygon. Holes and further polygons are dropped.
    pub open spec fn outer_ring(&self) -> Option<Seq<Pt>> {
        match self {
            Geometry::Polygon(rings) => if rings@.len() > 0 {
                Some(rings@[0]@)
            } else {
                None
            },
            Geometry::MultiPolygon(polygons) => if polygons@.len() > 0 && polygons@[0]@.len() > 0 {
                Some(polygons@[0]@[0]@)
            } else {
                None
            },
            Geometry::Other => None,
        }
    }
}

impl Feature {
    pub open spec fn outer_ring(&self) -> Option<Seq<Pt>> {
        match self.geometry {
            Some(g) => g.outer_ring(),
            None => None,
        }
    }

    /// An object can be made of the feature: it has an outer ring, and a
    /// ring can be made of that.
    pub open spec fn loadable(&self) -> bool {
        self.outer_ring() matches Some(s) && ring_defect(s) is None
    }

    /// The name of the object made of the feature.
    pub open spec fn object_name(&self) -> Seq<char> {
        match self.id {
            Some(id) => id@,
            None => "unnamed"@,
        }
    }

    /// The colour class of the object made of the feature.
    pub open spec fn object_color(&self) -> ColorClass {
        match self.kind {
            Some(kind) => if kind@ == "intersection"@ {
                ColorClass::Intersection
            } else if kind@ == "road"@ {
                ColorClass::Road
            } else {
                ColorClass::Other
            },
            None => ColorClass::Other,
        }
    }
}

impl Document {
    /// The features to load, in order; `None` for a document that holds no
    /// feature at its top.
    pub open spec fn features(&self) -> Option<Seq<Feature>> {
        match self {
            Document::Geometry => None,
            Document::Feature(f) => Some(seq![*f]),
            Document::FeatureCollection(fs) => Some(fs@),
        }
    }
}

} // verus!
