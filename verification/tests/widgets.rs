// Per-widget interaction scenarios, in fixed-point coordinates:
// 10_000 units stand for 1.0 of the host's normalized space.

use rshigg::Color;
use rshigg::Event;
use rshigg::IdAllocator;
use rshigg::Button;
use rshigg::Draggable;
use rshigg::Slider;
use rshigg::Vec2;
use rshigg::VerticalSlider;

fn gray() -> Color {
    Color::new(200, 200, 200, 255)
}

// A button at (0.2, 0.2), size (0.1, 0.05): press inside, hold, release.
#[test]
fn button_press_hold_release() {
    let mut ids = IdAllocator::new();
    let mut b = Button::new(&mut ids, Vec2::new(2000, 2000), Vec2::new(1000, 500), gray(), None);
    assert!(!b.hovered && !b.pressed && !b.was_pressed);

    // Tick 1: pointer at (0.25, 0.22), pressed.
    let e1 = b.step(Vec2::new(2500, 2200), true);
    assert!(b.hovered && b.pressed && b.was_pressed);
    assert_eq!(e1, Some(Event::ButtonPressed));

    // Tick 2: unchanged, still pressed: no event.
    let e2 = b.step(Vec2::new(2500, 2200), true);
    assert_eq!(e2, None);

    // Tick 3: pointer up: released.
    let e3 = b.step(Vec2::new(2500, 2200), false);
    assert_eq!(e3, Some(Event::ButtonReleased));
    assert!(!b.pressed && !b.was_pressed);
}

#[test]
fn button_hold_fires_exactly_one_press() {
    let mut ids = IdAllocator::new();
    let mut b = Button::new(&mut ids, Vec2::new(0, 0), Vec2::new(1000, 1000), gray(), None);
    let inside = Vec2::new(500, 500);
    assert_eq!(b.step(inside, true), Some(Event::ButtonPressed));
    for _ in 0..10 {
        assert_eq!(b.step(inside, true), None);
    }
}

#[test]
fn button_release_fires_once_even_after_leaving() {
    let mut ids = IdAllocator::new();
    let mut b = Button::new(&mut ids, Vec2::new(0, 0), Vec2::new(1000, 1000), gray(), None);
    assert_eq!(b.step(Vec2::new(500, 500), true), Some(Event::ButtonPressed));
    // Drag off the button while still pressed: no event.
    assert_eq!(b.step(Vec2::new(5000, 5000), true), None);
    assert!(!b.hovered && !b.pressed && b.was_pressed);
    // Release far away: exactly one ButtonReleased.
    assert_eq!(b.step(Vec2::new(5000, 5000), false), Some(Event::ButtonReleased));
    assert_eq!(b.step(Vec2::new(5000, 5000), false), None);
}

// The hit test excludes all edges: a pointer exactly on a boundary does
// not hover.
#[test]
fn hit_test_edges_are_exclusive() {
    let mut ids = IdAllocator::new();
    let mut b = Button::new(&mut ids, Vec2::new(1000, 1000), Vec2::new(500, 500), gray(), None);
    b.step(Vec2::new(1000, 1200), true);
    assert!(!b.hovered);
    b.step(Vec2::new(1500, 1200), true);
    assert!(!b.hovered);
    b.step(Vec2::new(1200, 1000), true);
    assert!(!b.hovered);
    b.step(Vec2::new(1200, 1500), true);
    assert!(!b.hovered);
    b.step(Vec2::new(1001, 1001), true);
    assert!(b.hovered);
}

// A slider over [0, 100] with step 1.0 and snap fraction 0.05, track
// from x = 0.2 to x = 0.4.
#[test]
fn slider_snap_boundary_and_snap() {
    let mut ids = IdAllocator::new();
    let mut s = Slider::new(
        &mut ids,
        Vec2::new(2000, 2000),
        Vec2::new(2000, 1000),
        100,
        0,
        1_000_000,
        10_000,
        0,
        500,
        gray(),
        None,
    );

    // Pointer at x = 0.39: fraction 0.95, raw value 95. The snap test
    // "95 > 100 * (1 - 0.05)" fails exactly at the boundary: no snap.
    let e1 = s.step(Vec2::new(3900, 2500), true);
    assert_eq!(s.value, 950_000);
    assert_eq!(e1, Some(Event::SliderMoved { value: 950_000 }));

    // Unchanged pointer: the recomputed value is equal, no event.
    assert_eq!(s.step(Vec2::new(3900, 2500), true), None);

    // Pointer at x = 0.399: raw value 99.5 > 95, snaps to the maximum.
    let e2 = s.step(Vec2::new(3990, 2500), true);
    assert_eq!(s.value, 1_000_000);
    assert_eq!(e2, Some(Event::SliderMoved { value: 1_000_000 }));

    // Releasing reports the resting value.
    let e3 = s.step(Vec2::new(3990, 2500), false);
    assert_eq!(e3, Some(Event::SliderReleased { value: 1_000_000 }));
    assert!(!s.was_pressed);
}

#[test]
fn slider_snaps_to_minimum() {
    let mut ids = IdAllocator::new();
    let mut s = Slider::new(
        &mut ids,
        Vec2::new(0, 0),
        Vec2::new(10_000, 1000),
        100,
        0,
        1_000_000,
        10_000,
        500_000,
        500,
        gray(),
        None,
    );
    // Pointer at 2% of the track: raw value 2 < (100 - 0) * 0.05 = 5,
    // snaps to the minimum.
    let e = s.step(Vec2::new(200, 500), true);
    assert_eq!(s.value, 0);
    assert_eq!(e, Some(Event::SliderMoved { value: 0 }));
}

// Values land on the step grid and inside the range.
#[test]
fn slider_values_stay_on_step_grid() {
    let mut ids = IdAllocator::new();
    let mut s = Slider::new(
        &mut ids,
        Vec2::new(0, 0),
        Vec2::new(10_000, 1000),
        100,
        0,
        1_000_000,
        5_000,
        0,
        0,
        gray(),
        None,
    );
    let mut x: i64 = 100;
    while x < 10_000 {
        s.step(Vec2::new(x, 500), true);
        assert!(0 <= s.value && s.value <= 1_000_000);
        assert_eq!(s.value % 5_000, 0);
        x += 700;
    }
}

// Rounding to the nearest 0.01 happens before step quantization.
#[test]
fn slider_rounds_to_hundredths() {
    let mut ids = IdAllocator::new();
    let mut s = Slider::new(
        &mut ids,
        Vec2::new(0, 0),
        Vec2::new(9000, 1000),
        100,
        0,
        10_000,
        100,
        0,
        0,
        gray(),
        None,
    );
    // fraction 1/9: raw value 0.111..., rounded to 0.11.
    let e = s.step(Vec2::new(1000, 500), true);
    assert_eq!(s.value, 1100);
    assert_eq!(e, Some(Event::SliderMoved { value: 1100 }));
}

#[test]
fn vertical_slider_tracks_y_axis() {
    let mut ids = IdAllocator::new();
    let mut v = VerticalSlider::new(
        &mut ids,
        Vec2::new(2000, 2000),
        Vec2::new(1000, 2000),
        100,
        0,
        1_000_000,
        10_000,
        0,
        500,
        gray(),
        None,
    );
    // Pointer at y = 0.25 of a track from 0.2 to 0.4: fraction 0.25.
    let e1 = v.step(Vec2::new(2500, 2500), true);
    assert_eq!(v.value, 250_000);
    assert_eq!(e1, Some(Event::SliderMoved { value: 250_000 }));
    // x movement alone changes nothing.
    assert_eq!(v.step(Vec2::new(2700, 2500), true), None);
    assert_eq!(v.value, 250_000);
    // Near the bottom: snaps to the maximum.
    let e2 = v.step(Vec2::new(2500, 3990), true);
    assert_eq!(v.value, 1_000_000);
    assert_eq!(e2, Some(Event::SliderMoved { value: 1_000_000 }));
}

// A pointer arriving on a draggable already pressed never picks it up.
#[test]
fn draggable_press_without_prehover_does_not_drag() {
    let mut ids = IdAllocator::new();
    let mut d = Draggable::new(&mut ids, Vec2::new(1000, 1000), Vec2::new(1000, 1000), gray(), None);
    let inside = Vec2::new(1500, 1500);
    for _ in 0..5 {
        let e = d.step(inside, true);
        assert_eq!(e, None);
        assert!(!d.being_dragged);
    }
    assert_eq!(d.position, Vec2::new(1000, 1000));
}

// A hover sustained for three ticks before the press starts the drag.
#[test]
fn draggable_sustained_hover_then_press_drags() {
    let mut ids = IdAllocator::new();
    let mut d = Draggable::new(&mut ids, Vec2::new(1000, 1000), Vec2::new(1000, 1000), gray(), None);
    let inside = Vec2::new(1500, 1500);
    for _ in 0..3 {
        assert_eq!(d.step(inside, false), None);
        assert!(d.was_pre_hovered);
    }
    let e = d.step(inside, true);
    assert_eq!(e, Some(Event::DraggablePressed));
    assert!(d.being_dragged);
    assert!(!d.was_pre_hovered);
}

// Dragging moves the handle by the pointer displacement and reports the
// new position; releasing reports where it came to rest.
#[test]
fn draggable_move_and_release() {
    let mut ids = IdAllocator::new();
    let mut d = Draggable::new(&mut ids, Vec2::new(1000, 1000), Vec2::new(1000, 1000), gray(), None);
    assert_eq!(d.step(Vec2::new(1500, 1500), false), None);
    assert_eq!(d.step(Vec2::new(1500, 1500), true), Some(Event::DraggablePressed));
    let e = d.step(Vec2::new(1600, 1700), true);
    assert_eq!(d.position, Vec2::new(1100, 1200));
    assert_eq!(e, Some(Event::DraggableMoved { new_pos: Vec2::new(1100, 1200) }));
    // Dragging keeps following even outside the original bounds.
    let e = d.step(Vec2::new(4000, 4000), true);
    assert_eq!(d.position, Vec2::new(3500, 3500));
    assert_eq!(e, Some(Event::DraggableMoved { new_pos: Vec2::new(3500, 3500) }));
    let e = d.step(Vec2::new(4000, 4000), false);
    assert_eq!(e, Some(Event::DraggableReleased { new_pos: Vec2::new(3500, 3500) }));
    assert!(!d.being_dragged);
}

// The pre-hover window expires after its countdown, and re-hovering
// arms it afresh.
#[test]
fn draggable_prehover_expires_and_rearms() {
    let mut ids = IdAllocator::new();
    let mut d = Draggable::new(&mut ids, Vec2::new(0, 0), Vec2::new(1000, 1000), gray(), None);
    let inside = Vec2::new(500, 500);
    let outside = Vec2::new(5000, 5000);

    d.step(inside, false);
    assert!(d.was_pre_hovered);
    assert_eq!(d.pre_hover_countdown, 2);

    d.step(outside, false);
    assert!(d.was_pre_hovered);
    d.step(outside, false);
    assert!(!d.was_pre_hovered);
    assert_eq!(d.pre_hover_countdown, 0);

    // The window is closed: a press inside does not start a drag.
    assert_eq!(d.step(inside, true), None);
    assert!(!d.being_dragged);

    // Re-hovering arms the window again.
    d.step(inside, false);
    assert!(d.was_pre_hovered);
    assert_eq!(d.pre_hover_countdown, 2);
    assert_eq!(d.step(inside, true), Some(Event::DraggablePressed));
    assert!(d.being_dragged);
}

// A press one tick after the hover began lands inside the window: the
// debounce rejects only presses that arrive with the hover itself.
#[test]
fn draggable_press_one_tick_after_hover_drags() {
    let mut ids = IdAllocator::new();
    let mut d = Draggable::new(&mut ids, Vec2::new(0, 0), Vec2::new(1000, 1000), gray(), None);
    let inside = Vec2::new(500, 500);
    assert_eq!(d.step(inside, false), None);
    assert_eq!(d.step(inside, true), Some(Event::DraggablePressed));
    assert!(d.being_dragged);
}

// Widget ids are allocated strictly increasing across kinds.
#[test]
fn ids_are_unique_and_increasing() {
    let mut ids = IdAllocator::new();
    let b = Button::new(&mut ids, Vec2::new(0, 0), Vec2::new(1, 1), gray(), None);
    let d = Draggable::new(&mut ids, Vec2::new(0, 0), Vec2::new(1, 1), gray(), None);
    let s = Slider::new(
        &mut ids,
        Vec2::new(0, 0),
        Vec2::new(1, 1),
        1,
        0,
        100,
        1,
        0,
        0,
        gray(),
        None,
    );
    assert_eq!(b.id, 0);
    assert_eq!(d.id, 1);
    assert_eq!(s.id, 2);
    assert_eq!(ids.next, 3);
}

// Replaying the same input sequence from the same initial state yields
// the identical event sequence.
#[test]
fn replay_is_deterministic() {
    let inputs = [
        (Vec2::new(500, 500), false),
        (Vec2::new(500, 500), true),
        (Vec2::new(700, 900), true),
        (Vec2::new(700, 900), false),
        (Vec2::new(5000, 5000), true),
    ];
    let run = || {
        let mut ids = IdAllocator::new();
        let mut d =
            Draggable::new(&mut ids, Vec2::new(0, 0), Vec2::new(1000, 1000), gray(), None);
        let mut events = Vec::new();
        for (m, p) in inputs.iter() {
            events.push(d.step(*m, *p));
        }
        (events, d.position)
    };
    let (events1, pos1) = run();
    let (events2, pos2) = run();
    assert_eq!(events1, events2);
    assert_eq!(pos1, pos2);
}

// A slider whose range is negative: the proportional value and the
// half-away-from-zero rounding work below zero too.
#[test]
fn slider_with_negative_range() {
    let mut ids = IdAllocator::new();
    let mut s = Slider::new(
        &mut ids,
        Vec2::new(0, 0),
        Vec2::new(10_000, 1000),
        100,
        -1_000_000,
        0,
        10_000,
        0,
        0,
        gray(),
        None,
    );
    let e = s.step(Vec2::new(2_500, 500), true);
    assert_eq!(s.value, -750_000);
    assert_eq!(e, Some(Event::SliderMoved { value: -750_000 }));
}

// Halves round away from zero on the negative side: a raw value of
// -0.875 rounds to -0.88 on the 0.01 grid.
#[test]
fn slider_rounds_negative_halves_away_from_zero() {
    let mut ids = IdAllocator::new();
    let mut s = Slider::new(
        &mut ids,
        Vec2::new(0, 0),
        Vec2::new(8000, 1000),
        100,
        -10_000,
        0,
        100,
        0,
        0,
        gray(),
        None,
    );
    let e = s.step(Vec2::new(1000, 500), true);
    assert_eq!(s.value, -8800);
    assert_eq!(e, Some(Event::SliderMoved { value: -8800 }));
}

// A drag that would push a coordinate past the representable range
// saturates at the boundary instead of wrapping.
#[test]
fn draggable_saturates_at_coordinate_limit() {
    let mut ids = IdAllocator::new();
    let mut d = Draggable::new(&mut ids, Vec2::new(0, 0), Vec2::new(1000, 1000), gray(), None);
    let inside = Vec2::new(500, 500);
    assert_eq!(d.step(inside, false), None);
    assert_eq!(d.step(inside, true), Some(Event::DraggablePressed));
    // One giant leap to the far left edge of the coordinate space.
    let e = d.step(Vec2::new(i64::MIN, 500), true);
    assert_eq!(d.position, Vec2::new(i64::MIN, 0));
    assert_eq!(e, Some(Event::DraggableMoved { new_pos: Vec2::new(i64::MIN, 0) }));
}
