//! Events, tagged events, widget identities and the common widget
//! interface.

use vstd::prelude::*;

use crate::geometry::Vec2;

verus! {

/// A state transition a widget just made during a tick, carrying the
/// data the transition produced.
#[derive(Clone, Copy, PartialEq, Eq, Structural, Debug)]
pub enum Event {
    ButtonPressed,
    ButtonReleased,
    SliderMoved { value: i64 },
    SliderReleased { value: i64 },
    DraggablePressed,
    DraggableReleased { new_pos: Vec2 },
    DraggableMoved { new_pos: Vec2 },
}

/// A widget's event routed by the container: the caller-supplied tag,
/// the id of the widget that emitted the event, and the event itself.
#[derive(Clone, Copy, Debug)]
pub struct TaggedEvent<T: Copy> {
    pub tag: T,
    pub widget_id: u32,
    pub event: Event,
}

/// Allocates widget identities: a strictly increasing counter handed to
/// every widget constructor, so that no two widgets it serves ever share
/// an id.
#[derive(Clone, Copy, PartialEq, Eq, Structural, Debug)]
pub struct IdAllocator {
    pub next: u32,
}

impl IdAllocator {
    /// A fresh allocator, starting at id 0.
    pub fn new() -> (a: IdAllocator)
        ensures
            a.next == 0,
    {
        IdAllocator { next: 0 }
    }

    /// The next unused id. Each call returns the current counter and
    /// advances it, so successive ids are strictly increasing.
    pub fn next_id(&mut self) -> (id: u32)
        requires
            old(self).next < u32::MAX,
        ensures
            id == old(self).next,
            final(self).next == old(self).next + 1,
    {
        let id = self.next;
        self.next = self.next + 1;
        id
    }
}

/// The interface shared by the interactive widget kinds: an identity,
/// and one interaction tick.
pub trait Element {
    /// The widget's identity, as the contracts see it.
    spec fn id_spec(&self) -> u32;

    /// The states from which a tick may be taken; each widget kind's
    /// inherent `step` states its exact effect.
    spec fn valid(&self) -> bool;

    fn get_id(&self) -> (id: u32)
        ensures
            id == self.id_spec(),
    ;

    fn step(&mut self, mouse_position: Vec2, mouse_pressed: bool) -> (event: Option<Event>)
        requires
            old(self).valid(),
        ensures
            final(self).valid(),
    ;
}

} // verus!
