//! A push button: one rectangular region that reports presses and
//! releases.

use vstd::prelude::*;

use crate::common::Element;
use crate::common::Event;
use crate::common::IdAllocator;
use crate::geometry::Color;
use crate::geometry::Vec2;
use crate::geometry::hit_test;
use crate::geometry::in_rect;

verus! {

pub struct Button {
    pub id: u32,
    pub position: Vec2,
    pub size: Vec2,
    pub color: Color,
    pub label: Option<String>,
    /// The pointer was inside the button on the last tick.
    pub hovered: bool,
    /// The pointer was down inside the button on the last tick.
    pub pressed: bool,
    /// A press has happened and no release has been reported yet.
    pub was_pressed: bool,
}

/// The button state after one tick: `hovered` tracks the hit test,
/// `pressed` is down-while-hovered, and `was_pressed` stays armed while
/// the pointer is down and is cleared by the release.
pub open spec fn button_after(b: Button, m: Vec2, down: bool) -> Button {
    let hov = in_rect(m, b.position, b.size);
    Button {
        hovered: hov,
        pressed: down && hov,
        was_pressed: down && (hov || b.was_pressed),
        ..b
    }
}

/// The event one tick emits: `ButtonPressed` exactly on the tick the
/// pointer goes down while hovering an unpressed button, `ButtonReleased`
/// exactly on the first tick the pointer is up after a press, whether or
/// not it still hovers. At most one of the two can fire per tick.
pub open spec fn button_event(b: Button, m: Vec2, down: bool) -> Option<Event> {
    let hov = in_rect(m, b.position, b.size);
    if down && hov && !b.pressed {
        Some(Event::ButtonPressed)
    } else if !down && b.was_pressed {
        Some(Event::ButtonReleased)
    } else {
        None
    }
}

impl Button {
    /// A fresh button with the next free id and cleared interaction
    /// flags.
    pub fn new(
        ids: &mut IdAllocator,
        position: Vec2,
        size: Vec2,
        color: Color,
        label: Option<String>,
    ) -> (b: Button)
        requires
            old(ids).next < u32::MAX,
        ensures
            final(ids).next == old(ids).next + 1,
            b == (Button {
                id: old(ids).next,
                position,
                size,
                color,
                label,
                hovered: false,
                pressed: false,
                was_pressed: false,
            }),
    {
        Button {
            id: ids.next_id(),
            position,
            size,
            color,
            label,
            hovered: false,
            pressed: false,
            was_pressed: false,
        }
    }

    /// One interaction tick, given the pointer position and whether the
    /// pointer is down. The new state and the emitted event are exactly
    /// `button_after` and `button_event` of the prior state and the
    /// inputs.
    pub fn step(&mut self, mouse_position: Vec2, mouse_pressed: bool) -> (event: Option<Event>)
        ensures
            *final(self) == button_after(*old(self), mouse_position, mouse_pressed),
            event == button_event(*old(self), mouse_position, mouse_pressed),
    {
        let mut event: Option<Event> = None;
        if !mouse_pressed && self.was_pressed {
            event = Some(Event::ButtonReleased);
            self.was_pressed = false;
        }

        self.hovered = hit_test(mouse_position, self.position, self.size);

        if mouse_pressed && self.hovered {
            if !self.pressed {
                event = Some(Event::ButtonPressed);
            }
            self.pressed = true;
            self.was_pressed = true;
        } else {
            self.pressed = false;
        }

        event
    }
}

impl Element for Button {
    open spec fn id_spec(&self) -> u32 {
        self.id
    }

    open spec fn valid(&self) -> bool {
        true
    }

    fn get_id(&self) -> (id: u32) {
        self.id
    }

    fn step(&mut self, mouse_position: Vec2, mouse_pressed: bool) -> (event: Option<Event>) {
        self.step(mouse_position, mouse_pressed)
    }
}

} // verus!
