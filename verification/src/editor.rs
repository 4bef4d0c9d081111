//! The drag session: what one sample of the cursor does to the model and to
//! the highlight.

use vstd::prelude::*;
use crate::geometry::Pt;
use crate::model::{Hovering, Model};

verus! {

/// What is to happen to the highlight that is on show.
#[derive(Clone, Copy, Debug, PartialEq, Eq, Structural)]
pub enum Highlight {
    /// It stays as it is.
    Keep,
    /// It goes; nothing is hovered.
    Clear,
    /// It is to be made anew from the editor's `hovering`.
    Rebuild,
}

/// What is to be painted anew after a sample of the cursor.
#[derive(Clone, Copy, Debug, PartialEq, Eq, Structural)]
pub struct Redraw {
    /// The model has changed: its whole batch is to be made anew.
    pub model: bool,
    pub highlight: Highlight,
}

/// The state between samples: what the highlight on show was made for, and
/// the vertex that is being dragged, if any.
#[derive(Clone, Copy, Debug)]
pub struct Editor {
    pub hovering: Option<Hovering>,
    pub dragging: Option<(usize, usize)>,
}

impl Editor {
    /// The vertex that is being dragged, if any, is a vertex of the model.
    pub open spec fn tracks(&self, model: &Model) -> bool {
        self.dragging matches Some(id) ==> id.0 < model.objects@.len() && id.1
            < model.objects@[id.0 as int].polygon@.len() - 1
    }

    /// What the highlight needs when it was made for `before` and `now` is
    /// hovered.
    pub open spec fn highlight_for(before: Option<Hovering>, now: Option<Hovering>) -> Highlight {
        if now == before {
            Highlight::Keep
        } else if now is None {
            Highlight::Clear
        } else {
            Highlight::Rebuild
        }
    }

    /// The drag that starts, or does not, once `now` is hovered: a vertex
    /// is taken up when the modifier is held.
    pub open spec fn pick_up(now: Option<Hovering>, modifier: bool) -> Option<(usize, usize)> {
        match now {
            Some(Hovering::Point(i, j)) if modifier => Some((i, j)),
            _ => None,
        }
    }

    /// An editor that hovers over nothing and drags nothing.
    pub fn new() -> (e: Editor)
        ensures
            e.hovering is None,
            e.dragging is None,
    {
        Editor { hovering: None, dragging: None }
    }

    /// Takes one sample of the cursor: where it is on the map, if it is on
    /// the map at all, and whether the modifier is held.
    ///
    /// Without a position a drag ends and nothing else happens. During a
    /// drag, the dragged vertex follows the cursor for as long as the
    /// modifier is held, and the drag ends once it is not. Otherwise the
    /// editor finds what the cursor is over, and takes a vertex up when the
    /// modifier is held.
    pub fn event(&mut self, model: &mut Model, cursor: Option<Pt>, modifier: bool) -> (r: Redraw)
        requires
            old(self).tracks(old(model)),
        ensures
            final(self).tracks(final(model)),
            old(model).all_closed() ==> final(model).all_closed(),
            match (cursor, old(self).dragging) {
                (Some(pt), Some(id)) if modifier => {
                    &&& final(model).moved_from(old(model), id, pt)
                    &&& final(self).dragging == Some(id)
                    &&& final(self).hovering == Some(Hovering::Point(id.0, id.1))
                    &&& r == Redraw { model: true, highlight: Highlight::Rebuild }
                },
                (Some(pt), None) => {
                    &&& *final(model) == *old(model)
                    &&& old(model).is_hit(pt, final(self).hovering)
                    &&& final(self).dragging == Self::pick_up(final(self).hovering, modifier)
                    &&& r == Redraw {
                        model: false,
                        highlight: Self::highlight_for(old(self).hovering, final(self).hovering),
                    }
                },
                _ => {
                    &&& *final(model) == *old(model)
                    &&& final(self).dragging is None
                    &&& final(self).hovering == old(self).hovering
                    &&& r == Redraw { model: false, highlight: Highlight::Keep }
                },
            },
    {
        let pt: Pt = match cursor {
            Some(pt) => pt,
            None => {
                self.dragging = None;
                return Redraw { model: false, highlight: Highlight::Keep };
            },
        };
        match self.dragging {
            Some((idx1, idx2)) => {
                if modifier {
                    model.move_pt((idx1, idx2), pt);
                    self.hovering = Some(Hovering::Point(idx1, idx2));
                    Redraw { model: true, highlight: Highlight::Rebuild }
                } else {
                    self.dragging = None;
                    Redraw { model: false, highlight: Highlight::Keep }
                }
            },
            None => {
                let now: Option<Hovering> = model.compute_hovering(pt);
                let highlight: Highlight = if now == self.hovering {
                    Highlight::Keep
                } else if now.is_none() {
                    Highlight::Clear
                } else {
                    Highlight::Rebuild
                };
                self.hovering = now;
                if modifier {
                    if let Some(Hovering::Point(idx1, idx2)) = now {
                        self.dragging = Some((idx1, idx2));
                    }
                }
                Redraw { model: false, highlight }
            },
        }
    }
}

} // verus!
