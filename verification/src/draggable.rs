//! A draggable handle: a rectangular region the pointer can pick up and
//! move, with a pre-hover debounce so that a drag already in progress
//! does not pick up every handle it passes over.

use vstd::prelude::*;

use crate::common::Element;
use crate::common::Event;
use crate::common::IdAllocator;
use crate::fixed::sat_add_delta;
use crate::geometry::Color;
use crate::geometry::Vec2;
use crate::geometry::hit_test;
use crate::geometry::in_rect;
use crate::geometry::vec_offset_sat;

verus! {

pub struct Draggable {
    pub id: u32,
    pub position: Vec2,
    pub size: Vec2,
    pub color: Color,
    pub label: Option<String>,
    /// The pointer was inside the handle on the last tick.
    pub hovered: bool,
    /// A drag is in progress: the handle follows the pointer.
    pub being_dragged: bool,
    /// Where the pointer was last seen while dragging; present whenever
    /// `being_dragged` holds.
    pub mouse_last_position: Option<Vec2>,
    /// The handle was hovered without a press recently enough that a
    /// press would start a drag.
    pub was_pre_hovered: bool,
    /// Ticks left before the pre-hover arming expires; arming sets it to
    /// 3, and the same tick's decay lowers it to 2.
    pub pre_hover_countdown: i32,
}

/// One draggable tick: the new state and the emitted event.
///
/// The checks run in a fixed order — hit test, pre-hover arming,
/// countdown decay, drag start, drag end, drag move — and a later
/// check's event overwrites an earlier one's, so at most one event
/// survives the tick (last-writer-wins, not a queue).
pub open spec fn draggable_tick(d: Draggable, m: Vec2, down: bool) -> (Draggable, Option<Event>) {
    let hov = in_rect(m, d.position, d.size);
    let arm = hov && !down && !d.being_dragged;
    let wp_armed = arm || d.was_pre_hovered;
    let cd_armed: i32 = if arm {
        3
    } else {
        d.pre_hover_countdown
    };
    let cd: i32 = if cd_armed > 0 {
        (cd_armed - 1) as i32
    } else {
        cd_armed
    };
    let wp = if cd == 0 {
        false
    } else {
        wp_armed
    };
    let start = wp && !d.being_dragged && down && hov;
    let dragging_in = start || d.being_dragged;
    let last_in = if start {
        Some(m)
    } else {
        d.mouse_last_position
    };
    let dragging = dragging_in && down;
    let moving = dragging && m != last_in.unwrap();
    let position = if moving {
        vec_offset_sat(d.position, m, last_in.unwrap())
    } else {
        d.position
    };
    let state = Draggable {
        hovered: hov,
        being_dragged: dragging,
        mouse_last_position: if moving {
            Some(m)
        } else {
            last_in
        },
        was_pre_hovered: if start {
            false
        } else {
            wp
        },
        pre_hover_countdown: if start {
            0
        } else {
            cd
        },
        position,
        ..d
    };
    let event = if moving {
        Some(Event::DraggableMoved { new_pos: position })
    } else if dragging_in && !down {
        Some(Event::DraggableReleased { new_pos: d.position })
    } else if start {
        Some(Event::DraggablePressed)
    } else {
        None
    };
    (state, event)
}

/// The draggable state after one tick.
pub open spec fn draggable_after(d: Draggable, m: Vec2, down: bool) -> Draggable {
    draggable_tick(d, m, down).0
}

/// The event one tick emits: `DraggablePressed` on a drag start,
/// `DraggableReleased` on the tick the pointer is let go, and
/// `DraggableMoved` with the new position whenever a dragged handle
/// follows the pointer.
pub open spec fn draggable_event(d: Draggable, m: Vec2, down: bool) -> Option<Event> {
    draggable_tick(d, m, down).1
}

impl Draggable {
    /// The internal consistency a draggable keeps across ticks: a drag
    /// in progress remembers the last pointer position, and the
    /// pre-hover countdown stays within its arming range.
    pub open spec fn wf(self) -> bool {
        &&& self.being_dragged ==> self.mouse_last_position.is_some()
        &&& 0 <= self.pre_hover_countdown <= 3
    }

    /// A fresh draggable handle with the next free id and cleared
    /// interaction state.
    pub fn new(
        ids: &mut IdAllocator,
        position: Vec2,
        size: Vec2,
        color: Color,
        label: Option<String>,
    ) -> (d: Draggable)
        requires
            old(ids).next < u32::MAX,
        ensures
            final(ids).next == old(ids).next + 1,
            d == (Draggable {
                id: old(ids).next,
                position,
                size,
                color,
                label,
                hovered: false,
                being_dragged: false,
                mouse_last_position: None,
                was_pre_hovered: false,
                pre_hover_countdown: 0,
            }),
            d.wf(),
    {
        Draggable {
            id: ids.next_id(),
            position,
            size,
            color,
            label,
            hovered: false,
            being_dragged: false,
            mouse_last_position: None,
            was_pre_hovered: false,
            pre_hover_countdown: 0,
        }
    }

    /// One interaction tick. The new state and the emitted event are
    /// exactly `draggable_after` and `draggable_event` of the prior
    /// state and the inputs.
    pub fn step(&mut self, mouse_position: Vec2, mouse_pressed: bool) -> (event: Option<Event>)
        requires
            old(self).wf(),
        ensures
            *final(self) == draggable_after(*old(self), mouse_position, mouse_pressed),
            event == draggable_event(*old(self), mouse_position, mouse_pressed),
            final(self).wf(),
    {
        let mut event: Option<Event> = None;

        let in_bounds = hit_test(mouse_position, self.position, self.size);
        if in_bounds {
            self.hovered = true;
        } else {
            self.hovered = false;
        }

        // Hovering without a press arms the pre-hover window, so that a
        // drag passing over the handle does not pick it up.
        if self.hovered && !mouse_pressed && !self.being_dragged {
            self.was_pre_hovered = true;
            self.pre_hover_countdown = 3;
        }

        // The arming decays: without a press soon enough, it expires.
        if self.pre_hover_countdown > 0 {
            self.pre_hover_countdown = self.pre_hover_countdown - 1;
        }
        if self.pre_hover_countdown == 0 {
            self.was_pre_hovered = false;
        }

        // Drag start.
        if self.was_pre_hovered && !self.being_dragged && mouse_pressed && self.hovered {
            self.being_dragged = true;
            self.mouse_last_position = Some(mouse_position);
            event = Some(Event::DraggablePressed);
            self.was_pre_hovered = false;
            self.pre_hover_countdown = 0;
        }

        // Drag end.
        if self.being_dragged && !mouse_pressed {
            self.being_dragged = false;
            event = Some(Event::DraggableReleased { new_pos: self.position });
        }

        // Drag move.
        if self.being_dragged {
            let last = self.mouse_last_position.unwrap();
            if mouse_position != last {
                self.position = Vec2 {
                    x: sat_add_delta(self.position.x, mouse_position.x, last.x),
                    y: sat_add_delta(self.position.y, mouse_position.y, last.y),
                };
                self.mouse_last_position = Some(mouse_position);
                event = Some(Event::DraggableMoved { new_pos: self.position });
            }
        }

        event
    }
}

impl Element for Draggable {
    open spec fn id_spec(&self) -> u32 {
        self.id
    }

    open spec fn valid(&self) -> bool {
        self.wf()
    }

    fn get_id(&self) -> (id: u32) {
        self.id
    }

    fn step(&mut self, mouse_position: Vec2, mouse_pressed: bool) -> (event: Option<Event>) {
        self.step(mouse_position, mouse_pressed)
    }
}

} // verus!
