//! The highlight state machine: a sticky "picked" rectangle and a
//! transient "hovered" one, driven by pointer presses, pointer motion and
//! the detail popover.

use vstd::prelude::*;

use crate::geometry::Rect;

verus! {

/// The two highlight rectangles. Both store only the rectangle, not the
/// node it came from, and both are cleared whenever the tree is cleared or
/// replaced. When both are present, the sticky pick takes visual
/// precedence over the hover.
#[derive(Clone, Copy, Debug, PartialEq, Eq, Structural)]
pub struct HighlightState {
    /// Sticky: set by a press on a hit, cleared by a press on no hit or by
    /// the detail popover closing.
    pub picked: Option<Rect>,
    /// Transient: follows the pointer, cleared when it leaves the surface.
    pub hovered: Option<Rect>,
}

impl HighlightState {
    pub fn new() -> (s: HighlightState)
        ensures
            s.picked is None,
            s.hovered is None,
    {
        HighlightState { picked: None, hovered: None }
    }

    /// The pointer moved; `hit` is the extents of the node now under it,
    /// if any. The hover follows the hit; the result says whether a redraw
    /// is due, which is exactly when the hover changed — jitter inside one
    /// node causes no redraw storm.
    pub fn motion(&mut self, hit: Option<Rect>) -> (redraw: bool)
        ensures
            final(self).hovered == hit,
            final(self).picked == old(self).picked,
            redraw == (old(self).hovered != hit),
    {
        let changed = !opt_rect_eq(&self.hovered, &hit);
        self.hovered = hit;
        changed
    }

    /// The pointer left the surface: the hover is cleared; a redraw is due
    /// exactly when it was set.
    pub fn leave(&mut self) -> (redraw: bool)
        ensures
            final(self).hovered is None,
            final(self).picked == old(self).picked,
            redraw == (old(self).hovered is Some),
    {
        let was_set = self.hovered.is_some();
        self.hovered = None;
        was_set
    }

    /// A press; `hit` is the extents of the picked node, if any. A hit
    /// becomes the sticky pick and asks for the detail popup to open at
    /// the press point; no hit clears the pick.
    pub fn press(&mut self, hit: Option<Rect>) -> (popup: bool)
        ensures
            final(self).picked == hit,
            final(self).hovered == old(self).hovered,
            popup == (hit is Some),
    {
        let is_hit = hit.is_some();
        self.picked = hit;
        is_hit
    }

    /// The detail popover closed, by any means: the sticky pick is
    /// cleared.
    pub fn popover_closed(&mut self)
        ensures
            final(self).picked is None,
            final(self).hovered == old(self).hovered,
    {
        self.picked = None;
    }

    /// Both highlights gone, whatever they were; used whenever the tree is
    /// cleared or replaced.
    pub fn clear(&mut self)
        ensures
            final(self).picked is None,
            final(self).hovered is None,
    {
        self.picked = None;
        self.hovered = None;
    }

    /// The rectangle a frame should fill: the sticky pick when set, else
    /// the hover.
    pub fn effective(&self) -> (r: Option<Rect>)
        ensures
            r == if self.picked is Some {
                self.picked
            } else {
                self.hovered
            },
    {
        if self.picked.is_some() {
            self.picked
        } else {
            self.hovered
        }
    }
}

fn opt_rect_eq(a: &Option<Rect>, b: &Option<Rect>) -> (r: bool)
    ensures
        r == (*a == *b),
{
    match (a, b) {
        (Option::Some(x), Option::Some(y)) => *x == *y,
        (Option::None, Option::None) => true,
        _ => false,
    }
}

} // verus!
