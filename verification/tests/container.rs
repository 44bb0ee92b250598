// Container scenarios: tagging, routing, kind ordering, removal.

use rshigg::Color;
use rshigg::Event;
use rshigg::Gui;
use rshigg::IdAllocator;
use rshigg::Button;
use rshigg::Draggable;
use rshigg::Label;
use rshigg::Slider;
use rshigg::Vec2;
use rshigg::VerticalSlider;

#[derive(Clone, Copy, PartialEq, Eq, Debug)]
enum Purpose {
    Confirm,
    Volume,
}

fn gray() -> Color {
    Color::new(200, 200, 200, 255)
}

fn make_button(ids: &mut IdAllocator, x: i64, y: i64) -> Button {
    Button::new(ids, Vec2::new(x, y), Vec2::new(1000, 1000), gray(), None)
}

fn make_slider(ids: &mut IdAllocator, x: i64, y: i64) -> Slider {
    Slider::new(ids, Vec2::new(x, y), Vec2::new(1000, 1000), 100, 0, 1_000_000, 10_000, 0, 0, gray(), None)
}

#[test]
fn tagged_events_route_back_to_the_host() {
    let mut ids = IdAllocator::new();
    let mut gui: Gui<Purpose> = Gui::new();
    let button = make_button(&mut ids, 0, 0);
    let button_id = button.id;
    gui.add_button(button, Purpose::Confirm);

    let events = gui.step(Vec2::new(500, 500), true);
    assert_eq!(events.len(), 1);
    assert_eq!(events[0].tag, Purpose::Confirm);
    assert_eq!(events[0].widget_id, button_id);
    assert_eq!(events[0].event, Event::ButtonPressed);

    // Holding: nothing further.
    assert_eq!(gui.step(Vec2::new(500, 500), true).len(), 0);

    let events = gui.step(Vec2::new(500, 500), false);
    assert_eq!(events.len(), 1);
    assert_eq!(events[0].event, Event::ButtonReleased);
}

// Within a tick, buttons report before sliders, sliders before vertical
// sliders, vertical sliders before draggables; within a kind, insertion
// order. Overlapping widgets make several kinds fire on one tick.
#[test]
fn events_keep_the_fixed_kind_order() {
    let mut ids = IdAllocator::new();
    let mut gui: Gui<u32> = Gui::new();

    let s = make_slider(&mut ids, 0, 0);
    let slider_id = s.id;
    gui.add_slider(s, 20);

    let b = make_button(&mut ids, 0, 0);
    let button_id = b.id;
    gui.add_button(b, 10);

    let v = VerticalSlider::new(
        &mut ids,
        Vec2::new(0, 0),
        Vec2::new(1000, 1000),
        100,
        0,
        1_000_000,
        10_000,
        0,
        0,
        gray(),
        None,
    );
    let vertical_id = v.id;
    gui.add_vertical_slider(v, 30);

    // The pointer lands inside all three overlapping widgets at once.
    let events = gui.step(Vec2::new(500, 500), true);
    assert_eq!(events.len(), 3);
    assert_eq!(events[0].widget_id, button_id);
    assert_eq!(events[0].tag, 10);
    assert_eq!(events[0].event, Event::ButtonPressed);
    assert_eq!(events[1].widget_id, slider_id);
    assert_eq!(events[1].tag, 20);
    assert_eq!(events[2].widget_id, vertical_id);
    assert_eq!(events[2].tag, 30);
}

#[test]
fn two_buttons_report_in_insertion_order() {
    let mut ids = IdAllocator::new();
    let mut gui: Gui<u32> = Gui::new();
    let b1 = make_button(&mut ids, 0, 0);
    let b2 = make_button(&mut ids, 0, 0);
    let (id1, id2) = (b1.id, b2.id);
    gui.add_button(b1, 1);
    gui.add_button(b2, 2);
    let events = gui.step(Vec2::new(500, 500), true);
    assert_eq!(events.len(), 2);
    assert_eq!((events[0].widget_id, events[0].tag), (id1, 1));
    assert_eq!((events[1].widget_id, events[1].tag), (id2, 2));
}

// Removing a widget removes its tag entry with it: the id resolves to
// nothing and no later tick can produce an event for it.
#[test]
fn removed_button_is_gone_with_its_tag() {
    let mut ids = IdAllocator::new();
    let mut gui: Gui<Purpose> = Gui::new();
    let b1 = make_button(&mut ids, 0, 0);
    let b2 = make_button(&mut ids, 3000, 3000);
    let (id1, id2) = (b1.id, b2.id);
    gui.add_button(b1, Purpose::Confirm);
    gui.add_button(b2, Purpose::Volume);

    assert!(gui.get_button(id1).is_some());
    gui.remove_button(id1);
    assert!(gui.get_button(id1).is_none());
    assert!(gui.get_button(id2).is_some());
    assert!(!gui.el_to_tag_map.contains_key(&id1));

    // A tick with the pointer pressed where the removed button stood
    // produces nothing for its id.
    let events = gui.step(Vec2::new(500, 500), true);
    assert!(events.iter().all(|te| te.widget_id != id1));
    assert_eq!(events.len(), 0);
}

#[test]
fn remove_of_unknown_id_changes_nothing() {
    let mut ids = IdAllocator::new();
    let mut gui: Gui<u32> = Gui::new();
    let b = make_button(&mut ids, 0, 0);
    let id = b.id;
    gui.add_button(b, 7);
    gui.remove_button(9999);
    gui.remove_slider(9999);
    assert!(gui.get_button(id).is_some());
    assert_eq!(gui.step(Vec2::new(500, 500), true).len(), 1);
}

#[test]
fn getters_find_by_id_per_kind() {
    let mut ids = IdAllocator::new();
    let mut gui: Gui<u32> = Gui::new();
    let s = make_slider(&mut ids, 0, 0);
    let slider_id = s.id;
    gui.add_slider(s, 1);
    let d = Draggable::new(&mut ids, Vec2::new(0, 0), Vec2::new(1, 1), gray(), None);
    let drag_id = d.id;
    gui.add_draggable(d, 2);
    let l = Label::new(&mut ids, Vec2::new(0, 0), Vec2::new(1, 1), gray(), Some("title".to_string()));
    let label_id = l.id;
    gui.add_label(l);

    assert_eq!(gui.get_slider(slider_id).unwrap().id, slider_id);
    assert_eq!(gui.get_draggable(drag_id).unwrap().id, drag_id);
    assert_eq!(gui.get_label(label_id).unwrap().text.as_deref(), Some("title"));
    // A slider's id is not a button's id.
    assert!(gui.get_button(slider_id).is_none());
    assert!(gui.get_vertical_slider(slider_id).is_none());
}

#[test]
fn get_mut_edits_in_place() {
    let mut ids = IdAllocator::new();
    let mut gui: Gui<u32> = Gui::new();
    let b = make_button(&mut ids, 0, 0);
    let id = b.id;
    gui.add_button(b, 1);

    let b = gui.get_button_mut(id).unwrap();
    b.position = Vec2::new(4000, 4000);
    assert_eq!(gui.get_button(id).unwrap().position, Vec2::new(4000, 4000));
    assert!(gui.get_button_mut(9999).is_none());

    // After the move, the old spot no longer hits.
    assert_eq!(gui.step(Vec2::new(500, 500), true).len(), 0);
    assert_eq!(gui.step(Vec2::new(4500, 4500), true).len(), 1);
}

#[test]
fn labels_never_step_and_remove_cleanly() {
    let mut ids = IdAllocator::new();
    let mut gui: Gui<u32> = Gui::new();
    let l = Label::new(&mut ids, Vec2::new(0, 0), Vec2::new(1000, 1000), gray(), None);
    let label_id = l.id;
    gui.add_label(l);
    assert_eq!(gui.step(Vec2::new(500, 500), true).len(), 0);
    gui.remove_label(label_id);
    assert!(gui.get_label(label_id).is_none());
}

#[test]
fn empty_and_default_containers_are_idle() {
    let mut gui: Gui<u32> = Gui::default();
    assert_eq!(gui.step(Vec2::new(0, 0), true).len(), 0);
    let mut gui2: Gui<u32> = Gui::new();
    assert_eq!(gui2.step(Vec2::new(123, 456), false).len(), 0);
}

// Replaying one input sequence on two identically built containers
// yields identical tagged event sequences.
#[test]
fn container_replay_is_deterministic() {
    let build = || {
        let mut ids = IdAllocator::new();
        let mut gui: Gui<u32> = Gui::new();
        gui.add_button(make_button(&mut ids, 0, 0), 1);
        gui.add_slider(make_slider(&mut ids, 2000, 0), 2);
        gui.add_draggable(
            Draggable::new(&mut ids, Vec2::new(0, 2000), Vec2::new(1000, 1000), gray(), None),
            3,
        );
        gui
    };
    let inputs = [
        (Vec2::new(500, 500), true),
        (Vec2::new(500, 500), false),
        (Vec2::new(2500, 500), true),
        (Vec2::new(500, 2500), false),
        (Vec2::new(500, 2500), true),
        (Vec2::new(900, 2900), true),
    ];
    let mut g1 = build();
    let mut g2 = build();
    for (m, p) in inputs.iter() {
        let e1 = g1.step(*m, *p);
        let e2 = g2.step(*m, *p);
        assert_eq!(e1.len(), e2.len());
        for (a, b) in e1.iter().zip(e2.iter()) {
            assert_eq!(a.tag, b.tag);
            assert_eq!(a.widget_id, b.widget_id);
            assert_eq!(a.event, b.event);
        }
    }
}
