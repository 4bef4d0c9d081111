//! An editable collection of named, coloured map polygons.
//!
//! Positions are exact: every coordinate is a whole number of ticks
//! (see [`geometry::TICKS_PER_UNIT`]), so hit-testing and vertex edits are
//! decided by integer arithmetic alone.
//!
//! - [`geometry`]: points, pick circles, bounding boxes.
//! - [`ring`]: closed rings, what makes one valid, and the area it bounds.
//! - [`feature`]: the document that a model is loaded from.
//! - [`model`]: the objects, hit-testing, vertex moves, render batches.
//! - [`editor`]: the drag session driven by samples of the cursor.

pub mod editor;
pub mod feature;
pub mod geometry;
pub mod model;
pub mod ring;
