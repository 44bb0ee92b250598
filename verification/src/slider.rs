//! A horizontal slider: a track whose value follows the pointer's x
//! position while pressed.

use vstd::prelude::*;

use crate::common::Element;
use crate::common::Event;
use crate::common::IdAllocator;
use crate::fixed::COORD_ONE;
use crate::fixed::VALUE_LIMIT;
use crate::geometry::Color;
use crate::geometry::Vec2;
use crate::geometry::hit_test;
use crate::geometry::in_rect;
use crate::track::compute_track_value;
use crate::track::track_value;

verus! {

pub struct Slider {
    pub id: u32,
    pub position: Vec2,
    pub size: Vec2,
    /// Width of the drawn thumb; carried for the host's renderer and
    /// never read by the interaction logic.
    pub thumb_width: i64,
    pub minimum: i64,
    pub maximum: i64,
    pub step_size: i64,
    /// Proximity fraction (in units of 1/`COORD_ONE`) within which the
    /// value snaps to a bound; zero disables snapping.
    pub snap_sensitivity_fraction: i64,
    pub value: i64,
    pub color: Color,
    pub label: Option<String>,
    /// The pointer was inside the track on the last tick.
    pub hovered: bool,
    /// The pointer was pressed on the track and no release has been
    /// reported yet.
    pub was_pressed: bool,
}

impl Slider {
    /// The range parameters a slider must keep for its value arithmetic
    /// to be meaningful: a positive step size, ordered bounds within the
    /// value limit, and a snap fraction between zero and one.
    pub open spec fn wf(self) -> bool {
        &&& 0 < self.step_size <= VALUE_LIMIT
        &&& -VALUE_LIMIT <= self.minimum <= self.maximum <= VALUE_LIMIT
        &&& 0 <= self.snap_sensitivity_fraction <= COORD_ONE
    }

    /// A fresh slider with the next free id, the given range and default
    /// value, and cleared interaction flags.
    pub fn new(
        ids: &mut IdAllocator,
        position: Vec2,
        size: Vec2,
        thumb_width: i64,
        minimum: i64,
        maximum: i64,
        step_size: i64,
        default_value: i64,
        snap_sensitivity_fraction: i64,
        color: Color,
        label: Option<String>,
    ) -> (s: Slider)
        requires
            old(ids).next < u32::MAX,
            0 < step_size <= VALUE_LIMIT,
            -VALUE_LIMIT <= minimum <= maximum <= VALUE_LIMIT,
            0 <= snap_sensitivity_fraction <= COORD_ONE,
        ensures
            final(ids).next == old(ids).next + 1,
            s == (Slider {
                id: old(ids).next,
                position,
                size,
                thumb_width,
                minimum,
                maximum,
                step_size,
                snap_sensitivity_fraction,
                value: default_value,
                color,
                label,
                hovered: false,
                was_pressed: false,
            }),
            s.wf(),
    {
        Slider {
            id: ids.next_id(),
            position,
            size,
            thumb_width,
            minimum,
            maximum,
            step_size,
            snap_sensitivity_fraction,
            value: default_value,
            color,
            label,
            hovered: false,
            was_pressed: false,
        }
    }

    /// One interaction tick. The new state and the emitted event are
    /// exactly `slider_after` and `slider_event` of the prior state and
    /// the inputs.
    pub fn step(&mut self, mouse_position: Vec2, mouse_pressed: bool) -> (event: Option<Event>)
        requires
            old(self).wf(),
        ensures
            *final(self) == slider_after(*old(self), mouse_position, mouse_pressed),
            event == slider_event(*old(self), mouse_position, mouse_pressed),
            final(self).wf(),
    {
        let mut event: Option<Event> = None;

        if self.was_pressed && !mouse_pressed {
            event = Some(Event::SliderReleased { value: self.value });
            self.was_pressed = false;
        }

        if hit_test(mouse_position, self.position, self.size) {
            self.hovered = true;
            if mouse_pressed {
                let old_value = self.value;
                let local = mouse_position.x - self.position.x;
                let value = compute_track_value(
                    self.minimum,
                    self.maximum,
                    self.step_size,
                    self.snap_sensitivity_fraction,
                    local,
                    self.size.x,
                );
                self.value = value;
                if value != old_value {
                    event = Some(Event::SliderMoved { value });
                }
                self.was_pressed = true;
            }
        } else {
            self.hovered = false;
        }

        event
    }
}

/// The value the slider takes from pointer position m while pressed on
/// the track: the x axis is the drag axis.
pub open spec fn slider_value_at(s: Slider, m: Vec2) -> int {
    track_value(
        s.minimum as int,
        s.maximum as int,
        s.step_size as int,
        s.snap_sensitivity_fraction as int,
        m.x - s.position.x,
        s.size.x as int,
    )
}

/// The slider state after one tick: `hovered` tracks the hit test, the
/// value follows the pointer while pressed on the track, and
/// `was_pressed` stays armed until the release tick.
pub open spec fn slider_after(s: Slider, m: Vec2, down: bool) -> Slider {
    let hov = in_rect(m, s.position, s.size);
    Slider {
        hovered: hov,
        was_pressed: if down {
            if hov {
                true
            } else {
                s.was_pressed
            }
        } else {
            false
        },
        value: if hov && down {
            slider_value_at(s, m) as i64
        } else {
            s.value
        },
        ..s
    }
}

/// The event one tick emits: `SliderMoved` with the new value exactly
/// when a pressed pointer on the track changes the value, and
/// `SliderReleased` with the resting value exactly on the first tick the
/// pointer is up after a press. At most one of the two can fire per
/// tick.
pub open spec fn slider_event(s: Slider, m: Vec2, down: bool) -> Option<Event> {
    let hov = in_rect(m, s.position, s.size);
    if hov && down && slider_value_at(s, m) != s.value {
        Some(Event::SliderMoved { value: slider_value_at(s, m) as i64 })
    } else if s.was_pressed && !down {
        Some(Event::SliderReleased { value: s.value })
    } else {
        None
    }
}

impl Element for Slider {
    open spec fn id_spec(&self) -> u32 {
        self.id
    }

    open spec fn valid(&self) -> bool {
        self.wf()
    }

    fn get_id(&self) -> (id: u32) {
        self.id
    }

    fn step(&mut self, mouse_position: Vec2, mouse_pressed: bool) -> (event: Option<Event>) {
        self.step(mouse_position, mouse_pressed)
    }
}

} // verus!
