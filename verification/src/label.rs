//! A static label: pure data for the host's renderer, with no
//! interaction state and no part in the tick cycle.

use vstd::prelude::*;

use crate::common::IdAllocator;
use crate::geometry::Color;
use crate::geometry::Vec2;

verus! {

pub struct Label {
    pub id: u32,
    pub position: Vec2,
    pub size: Vec2,
    pub color: Color,
    pub text: Option<String>,
}

impl Label {
    /// A fresh label with the next free id.
    pub fn new(
        ids: &mut IdAllocator,
        position: Vec2,
        size: Vec2,
        color: Color,
        text: Option<String>,
    ) -> (l: Label)
        requires
            old(ids).next < u32::MAX,
        ensures
            final(ids).next == old(ids).next + 1,
            l == (Label { id: old(ids).next, position, size, color, text }),
    {
        Label { id: ids.next_id(), position, size, color, text }
    }
}

} // verus!
