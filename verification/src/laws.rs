//! The toolkit's cross-cutting guarantees, stated and proved over the
//! same transition functions that the widgets' `step` contracts pin
//! their behavior to.

use vstd::prelude::*;

use crate::button::Button;
use crate::button::button_after;
use crate::button::button_event;
use crate::common::Event;
use crate::common::TaggedEvent;
use crate::draggable::Draggable;
use crate::draggable::draggable_after;
use crate::draggable::draggable_event;
use crate::fixed::CENTI;
use crate::geometry::Vec2;
use crate::geometry::in_rect;
use crate::gui::button_events;
use crate::gui::draggable_events;
use crate::gui::gui_events;
use crate::gui::slider_events;
use crate::gui::vertical_slider_events;
use crate::slider::Slider;
use crate::slider::slider_after;
use crate::slider::slider_event;
use crate::track::lemma_track_value_in_range;
use crate::vertical_slider::VerticalSlider;
use crate::vertical_slider::vertical_slider_after;
use crate::vertical_slider::vertical_slider_event;

verus! {

// ---------------------------------------------------------------------
// Determinism
// ---------------------------------------------------------------------
/// One tick is a function of the prior state and the inputs alone:
/// every `step` contract pins the new state and the event to the
/// `*_after` and `*_event` functions of exactly those, so two equal
/// containers stepped with equal inputs produce equal event lists and
/// end in equal states. Replaying an input sequence therefore replays
/// the event sequences.
pub proof fn lemma_tick_deterministic<T: Copy>(
    tags1: Map<u32, T>,
    tags2: Map<u32, T>,
    bs1: Seq<Button>,
    bs2: Seq<Button>,
    ss1: Seq<Slider>,
    ss2: Seq<Slider>,
    vs1: Seq<VerticalSlider>,
    vs2: Seq<VerticalSlider>,
    ds1: Seq<Draggable>,
    ds2: Seq<Draggable>,
    m1: Vec2,
    m2: Vec2,
    down1: bool,
    down2: bool,
)
    requires
        tags1 == tags2,
        bs1 == bs2,
        ss1 == ss2,
        vs1 == vs2,
        ds1 == ds2,
        m1 == m2,
        down1 == down2,
    ensures
        gui_events(tags1, bs1, ss1, vs1, ds1, m1, down1) == gui_events(
            tags2,
            bs2,
            ss2,
            vs2,
            ds2,
            m2,
            down2,
        ),
        forall|i: int|
            0 <= i < bs1.len() ==> button_after(#[trigger] bs1[i], m1, down1) == button_after(
                bs2[i],
                m2,
                down2,
            ),
        forall|i: int|
            0 <= i < ss1.len() ==> slider_after(#[trigger] ss1[i], m1, down1) == slider_after(
                ss2[i],
                m2,
                down2,
            ),
        forall|i: int|
            0 <= i < vs1.len() ==> vertical_slider_after(#[trigger] vs1[i], m1, down1)
                == vertical_slider_after(vs2[i], m2, down2),
        forall|i: int|
            0 <= i < ds1.len() ==> draggable_after(#[trigger] ds1[i], m1, down1)
                == draggable_after(ds2[i], m2, down2),
{
}

/// All buttons advanced by one tick, in place.
pub open spec fn buttons_after(bs: Seq<Button>, m: Vec2, down: bool) -> Seq<Button> {
    bs.map_values(|b: Button| button_after(b, m, down))
}

/// All sliders advanced by one tick, in place.
pub open spec fn sliders_after(ss: Seq<Slider>, m: Vec2, down: bool) -> Seq<Slider> {
    ss.map_values(|s: Slider| slider_after(s, m, down))
}

/// All vertical sliders advanced by one tick, in place.
pub open spec fn vertical_sliders_after(
    vs: Seq<VerticalSlider>,
    m: Vec2,
    down: bool,
) -> Seq<VerticalSlider> {
    vs.map_values(|v: VerticalSlider| vertical_slider_after(v, m, down))
}

/// All draggables advanced by one tick, in place.
pub open spec fn draggables_after(ds: Seq<Draggable>, m: Vec2, down: bool) -> Seq<Draggable> {
    ds.map_values(|d: Draggable| draggable_after(d, m, down))
}

/// The event history of a whole run: for each tick of the input
/// sequence, the tagged events that tick emits, with the container
/// state advanced tick by tick. `Gui::step` takes exactly one of these
/// ticks.
pub open spec fn gui_run_events<T: Copy>(
    tags: Map<u32, T>,
    bs: Seq<Button>,
    ss: Seq<Slider>,
    vs: Seq<VerticalSlider>,
    ds: Seq<Draggable>,
    inputs: Seq<(Vec2, bool)>,
) -> Seq<Seq<TaggedEvent<T>>>
    decreases inputs.len(),
{
    if inputs.len() == 0 {
        Seq::empty()
    } else {
        let m = inputs[0].0;
        let down = inputs[0].1;
        seq![gui_events(tags, bs, ss, vs, ds, m, down)] + gui_run_events(
            tags,
            buttons_after(bs, m, down),
            sliders_after(ss, m, down),
            vertical_sliders_after(vs, m, down),
            draggables_after(ds, m, down),
            inputs.skip(1),
        )
    }
}

/// Replay determinism over whole runs: the event history of any
/// sequence of ticks is a function of the initial state and the inputs
/// alone, so replaying the same input sequence from the same initial
/// state yields the identical event history. Nothing else — no clock,
/// no randomness, no hidden state — enters a run.
pub proof fn lemma_replay_deterministic<T: Copy>(
    tags1: Map<u32, T>,
    tags2: Map<u32, T>,
    bs1: Seq<Button>,
    bs2: Seq<Button>,
    ss1: Seq<Slider>,
    ss2: Seq<Slider>,
    vs1: Seq<VerticalSlider>,
    vs2: Seq<VerticalSlider>,
    ds1: Seq<Draggable>,
    ds2: Seq<Draggable>,
    inputs1: Seq<(Vec2, bool)>,
    inputs2: Seq<(Vec2, bool)>,
)
    requires
        tags1 == tags2,
        bs1 == bs2,
        ss1 == ss2,
        vs1 == vs2,
        ds1 == ds2,
        inputs1 == inputs2,
    ensures
        gui_run_events(tags1, bs1, ss1, vs1, ds1, inputs1) == gui_run_events(
            tags2,
            bs2,
            ss2,
            vs2,
            ds2,
            inputs2,
        ),
{
}

// ---------------------------------------------------------------------
// Slider values stay on the grid and in range
// ---------------------------------------------------------------------
/// Whenever a tick changes a slider's value — exactly the ticks that
/// emit `SliderMoved` — the new value lies in [minimum, maximum] and on
/// a whole multiple of the step size, provided the bounds sit on the
/// step grid and the step size is a whole multiple of 0.01. (Off-grid
/// bounds are left out: for those the final quantization can escape the
/// range.)
pub proof fn lemma_slider_moved_value_in_range(s: Slider, m: Vec2, down: bool)
    requires
        s.wf(),
        s.minimum % s.step_size == 0,
        s.maximum % s.step_size == 0,
        s.step_size % CENTI == 0,
    ensures
        slider_after(s, m, down).value != s.value ==> {
            let v = slider_after(s, m, down).value;
            &&& s.minimum <= v <= s.maximum
            &&& v % s.step_size == 0
            &&& slider_event(s, m, down) == Some(Event::SliderMoved { value: v })
        },
{
    if slider_after(s, m, down).value != s.value {
        lemma_track_value_in_range(
            s.minimum as int,
            s.maximum as int,
            s.step_size as int,
            s.snap_sensitivity_fraction as int,
            m.x - s.position.x,
            s.size.x as int,
        );
    }
}

/// The same guarantee for the vertical slider, whose drag axis is y.
pub proof fn lemma_vertical_slider_moved_value_in_range(s: VerticalSlider, m: Vec2, down: bool)
    requires
        s.wf(),
        s.minimum % s.step_size == 0,
        s.maximum % s.step_size == 0,
        s.step_size % CENTI == 0,
    ensures
        vertical_slider_after(s, m, down).value != s.value ==> {
            let v = vertical_slider_after(s, m, down).value;
            &&& s.minimum <= v <= s.maximum
            &&& v % s.step_size == 0
            &&& vertical_slider_event(s, m, down) == Some(Event::SliderMoved { value: v })
        },
{
    if vertical_slider_after(s, m, down).value != s.value {
        lemma_track_value_in_range(
            s.minimum as int,
            s.maximum as int,
            s.step_size as int,
            s.snap_sensitivity_fraction as int,
            m.y - s.position.y,
            s.size.y as int,
        );
    }
}

// ---------------------------------------------------------------------
// A button press and a button release each fire exactly once
// ---------------------------------------------------------------------
/// The events a button emits over a run of ticks, one entry per tick.
pub open spec fn button_run_events(b: Button, inputs: Seq<(Vec2, bool)>) -> Seq<Option<Event>>
    decreases inputs.len(),
{
    if inputs.len() == 0 {
        Seq::empty()
    } else {
        seq![button_event(b, inputs[0].0, inputs[0].1)] + button_run_events(
            button_after(b, inputs[0].0, inputs[0].1),
            inputs.skip(1),
        )
    }
}

/// A run has one event entry per tick.
proof fn lemma_button_run_events_len(b: Button, inputs: Seq<(Vec2, bool)>)
    ensures
        button_run_events(b, inputs).len() == inputs.len(),
    decreases inputs.len(),
{
    if inputs.len() > 0 {
        lemma_button_run_events_len(button_after(b, inputs[0].0, inputs[0].1), inputs.skip(1));
    }
}

/// While the pointer stays down inside an already-pressed button, no
/// tick emits an event.
proof fn lemma_button_hold_stays_silent(b: Button, inputs: Seq<(Vec2, bool)>)
    requires
        b.pressed,
        forall|k: int|
            0 <= k < inputs.len() ==> (#[trigger] inputs[k]).1 && in_rect(
                inputs[k].0,
                b.position,
                b.size,
            ),
    ensures
        forall|k: int| 0 <= k < inputs.len() ==> button_run_events(b, inputs)[k] == None::<Event>,
    decreases inputs.len(),
{
    if inputs.len() > 0 {
        let b1 = button_after(b, inputs[0].0, inputs[0].1);
        assert(inputs[0].1 && in_rect(inputs[0].0, b.position, b.size));
        assert(b1.pressed && b1.position == b.position && b1.size == b.size);
        assert forall|k: int|
            0 <= k < inputs.skip(1).len() implies (#[trigger] inputs.skip(1)[k]).1 && in_rect(
            inputs.skip(1)[k].0,
            b1.position,
            b1.size,
        ) by {
            assert(inputs.skip(1)[k] == inputs[k + 1]);
        }
        lemma_button_hold_stays_silent(b1, inputs.skip(1));
    lemma_button_run_events_len(b1, inputs.skip(1));
        lemma_button_run_events_len(b1, inputs.skip(1));
        assert forall|k: int|
            0 <= k < inputs.len() implies button_run_events(b, inputs)[k] == None::<Event> by {
            if k > 0 {
                assert(button_run_events(b, inputs)[k] == button_run_events(b1, inputs.skip(1))[k
                    - 1]);
            }
        }
    }
}

/// Pressing and holding produces exactly one `ButtonPressed`: over a
/// run whose every tick has the pointer down inside the button, an
/// unpressed button emits `ButtonPressed` on the first tick and nothing
/// on any later tick.
pub proof fn lemma_button_hold_presses_once(b: Button, inputs: Seq<(Vec2, bool)>)
    requires
        !b.pressed,
        inputs.len() > 0,
        forall|k: int|
            0 <= k < inputs.len() ==> (#[trigger] inputs[k]).1 && in_rect(
                inputs[k].0,
                b.position,
                b.size,
            ),
    ensures
        button_run_events(b, inputs)[0] == Some(Event::ButtonPressed),
        forall|k: int| 1 <= k < inputs.len() ==> button_run_events(b, inputs)[k] == None::<Event>,
{
    assert(inputs[0].1 && in_rect(inputs[0].0, b.position, b.size));
    let b1 = button_after(b, inputs[0].0, inputs[0].1);
    assert(b1.pressed && b1.position == b.position && b1.size == b.size);
    assert forall|k: int|
        0 <= k < inputs.skip(1).len() implies (#[trigger] inputs.skip(1)[k]).1 && in_rect(
        inputs.skip(1)[k].0,
        b1.position,
        b1.size,
    ) by {
        assert(inputs.skip(1)[k] == inputs[k + 1]);
    }
    lemma_button_hold_stays_silent(b1, inputs.skip(1));
    lemma_button_run_events_len(b1, inputs.skip(1));
    assert forall|k: int|
        1 <= k < inputs.len() implies button_run_events(b, inputs)[k] == None::<Event> by {
        assert(button_run_events(b, inputs)[k] == button_run_events(b1, inputs.skip(1))[k - 1]);
    }
}

/// While the pointer stays up over a button with no unreported press,
/// no tick emits an event.
proof fn lemma_button_idle_stays_silent(b: Button, inputs: Seq<(Vec2, bool)>)
    requires
        !b.was_pressed,
        forall|k: int| 0 <= k < inputs.len() ==> !(#[trigger] inputs[k]).1,
    ensures
        forall|k: int| 0 <= k < inputs.len() ==> button_run_events(b, inputs)[k] == None::<Event>,
    decreases inputs.len(),
{
    if inputs.len() > 0 {
        assert(!inputs[0].1);
        let b1 = button_after(b, inputs[0].0, inputs[0].1);
        assert(!b1.was_pressed);
        assert forall|k: int|
            0 <= k < inputs.skip(1).len() implies !(#[trigger] inputs.skip(1)[k]).1 by {
            assert(inputs.skip(1)[k] == inputs[k + 1]);
        }
        lemma_button_idle_stays_silent(b1, inputs.skip(1));
    lemma_button_run_events_len(b1, inputs.skip(1));
        lemma_button_run_events_len(b1, inputs.skip(1));
        assert forall|k: int|
            0 <= k < inputs.len() implies button_run_events(b, inputs)[k] == None::<Event> by {
            if k > 0 {
                assert(button_run_events(b, inputs)[k] == button_run_events(b1, inputs.skip(1))[k
                    - 1]);
            }
        }
    }
}

/// Releasing produces exactly one `ButtonReleased`, wherever the
/// pointer sits: over a run whose every tick has the pointer up, a
/// button with an unreported press emits `ButtonReleased` on the first
/// tick and nothing on any later tick.
pub proof fn lemma_button_release_fires_once(b: Button, inputs: Seq<(Vec2, bool)>)
    requires
        b.was_pressed,
        inputs.len() > 0,
        forall|k: int| 0 <= k < inputs.len() ==> !(#[trigger] inputs[k]).1,
    ensures
        button_run_events(b, inputs)[0] == Some(Event::ButtonReleased),
        forall|k: int| 1 <= k < inputs.len() ==> button_run_events(b, inputs)[k] == None::<Event>,
{
    assert(!inputs[0].1);
    let b1 = button_after(b, inputs[0].0, inputs[0].1);
    assert(!b1.was_pressed);
    assert forall|k: int|
        0 <= k < inputs.skip(1).len() implies !(#[trigger] inputs.skip(1)[k]).1 by {
        assert(inputs.skip(1)[k] == inputs[k + 1]);
    }
    lemma_button_idle_stays_silent(b1, inputs.skip(1));
    lemma_button_run_events_len(b1, inputs.skip(1));
    assert forall|k: int|
        1 <= k < inputs.len() implies button_run_events(b, inputs)[k] == None::<Event> by {
        assert(button_run_events(b, inputs)[k] == button_run_events(b1, inputs.skip(1))[k - 1]);
    }
}

// ---------------------------------------------------------------------
// The draggable's pre-hover debounce
// ---------------------------------------------------------------------
/// A press on a draggable that was not pre-hovered starts no drag and
/// emits nothing: the pointer cannot pick a handle up by arriving on it
/// already pressed.
pub proof fn lemma_draggable_press_without_prehover(d: Draggable, m: Vec2)
    requires
        d.wf(),
        !d.was_pre_hovered,
        !d.being_dragged,
    ensures
        !draggable_after(d, m, true).being_dragged,
        draggable_event(d, m, true) == None::<Event>,
{
}

/// Hovering an idle draggable without pressing arms the pre-hover
/// window: arming sets the countdown to 3 and the same tick's decay
/// leaves it at 2. The handle does not move.
pub proof fn lemma_draggable_hover_arms(d: Draggable, m: Vec2)
    requires
        d.wf(),
        !d.being_dragged,
        in_rect(m, d.position, d.size),
    ensures
        ({
            let a = draggable_after(d, m, false);
            &&& a.was_pre_hovered
            &&& a.pre_hover_countdown == 2
            &&& !a.being_dragged
            &&& a.position == d.position
            &&& a.size == d.size
            &&& a.wf()
        }),
{
}

/// A press while the pre-hover window is still open (countdown at
/// least 2) starts the drag and emits `DraggablePressed`.
pub proof fn lemma_draggable_armed_press_starts(d: Draggable, m: Vec2)
    requires
        d.wf(),
        d.was_pre_hovered,
        d.pre_hover_countdown >= 2,
        !d.being_dragged,
        in_rect(m, d.position, d.size),
    ensures
        draggable_after(d, m, true).being_dragged,
        draggable_event(d, m, true) == Some(Event::DraggablePressed),
{
}

/// A hover sustained for three ticks and then pressed does start a
/// drag: each hover tick re-arms the window, so the press lands while
/// it is open.
pub proof fn lemma_draggable_sustained_hover_drags(d: Draggable, m: Vec2)
    requires
        d.wf(),
        !d.being_dragged,
        in_rect(m, d.position, d.size),
    ensures
        ({
            let s1 = draggable_after(d, m, false);
            let s2 = draggable_after(s1, m, false);
            let s3 = draggable_after(s2, m, false);
            &&& draggable_after(s3, m, true).being_dragged
            &&& draggable_event(s3, m, true) == Some(Event::DraggablePressed)
        }),
{
    let s1 = draggable_after(d, m, false);
    lemma_draggable_hover_arms(d, m);
    let s2 = draggable_after(s1, m, false);
    lemma_draggable_hover_arms(s1, m);
    let s3 = draggable_after(s2, m, false);
    lemma_draggable_hover_arms(s2, m);
    lemma_draggable_armed_press_starts(s3, m);
}

/// Without a press soon enough, the pre-hover arming expires: a tick
/// that does not re-arm (no unpressed hover) while the countdown is at
/// 1 clears the window. A later unpressed hover arms it afresh, as
/// `lemma_draggable_hover_arms` states.
pub proof fn lemma_draggable_prehover_expires(d: Draggable, m: Vec2, down: bool)
    requires
        d.wf(),
        d.was_pre_hovered,
        d.pre_hover_countdown == 1,
        !d.being_dragged,
        !(in_rect(m, d.position, d.size) && !down),
    ensures
        !draggable_after(d, m, down).was_pre_hovered,
        draggable_after(d, m, down).pre_hover_countdown == 0,
{
}

// ---------------------------------------------------------------------
// A removed widget cannot produce events
// ---------------------------------------------------------------------
/// Every tagged button event of a tick carries an id the tag map knows.
proof fn lemma_button_events_tagged<T: Copy>(
    tags: Map<u32, T>,
    bs: Seq<Button>,
    m: Vec2,
    down: bool,
)
    ensures
        forall|k: int|
            0 <= k < button_events(tags, bs, m, down).len() ==> tags.contains_key(
                #[trigger] button_events(tags, bs, m, down)[k].widget_id,
            ),
    decreases bs.len(),
{
    if bs.len() > 0 {
        lemma_button_events_tagged(tags, bs.drop_last(), m, down);
    }
}

/// Every tagged slider event of a tick carries an id the tag map knows.
proof fn lemma_slider_events_tagged<T: Copy>(tags: Map<u32, T>, ss: Seq<Slider>, m: Vec2, down: bool)
    ensures
        forall|k: int|
            0 <= k < slider_events(tags, ss, m, down).len() ==> tags.contains_key(
                #[trigger] slider_events(tags, ss, m, down)[k].widget_id,
            ),
    decreases ss.len(),
{
    if ss.len() > 0 {
        lemma_slider_events_tagged(tags, ss.drop_last(), m, down);
    }
}

/// Every tagged vertical slider event of a tick carries an id the tag
/// map knows.
proof fn lemma_vertical_slider_events_tagged<T: Copy>(
    tags: Map<u32, T>,
    vs: Seq<VerticalSlider>,
    m: Vec2,
    down: bool,
)
    ensures
        forall|k: int|
            0 <= k < vertical_slider_events(tags, vs, m, down).len() ==> tags.contains_key(
                #[trigger] vertical_slider_events(tags, vs, m, down)[k].widget_id,
            ),
    decreases vs.len(),
{
    if vs.len() > 0 {
        lemma_vertical_slider_events_tagged(tags, vs.drop_last(), m, down);
    }
}

/// Every tagged draggable event of a tick carries an id the tag map
/// knows.
proof fn lemma_draggable_events_tagged<T: Copy>(
    tags: Map<u32, T>,
    ds: Seq<Draggable>,
    m: Vec2,
    down: bool,
)
    ensures
        forall|k: int|
            0 <= k < draggable_events(tags, ds, m, down).len() ==> tags.contains_key(
                #[trigger] draggable_events(tags, ds, m, down)[k].widget_id,
            ),
    decreases ds.len(),
{
    if ds.len() > 0 {
        lemma_draggable_events_tagged(tags, ds.drop_last(), m, down);
    }
}

/// Every tagged event of a tick carries an id the tag map knows. A
/// removed widget's tag entry is gone, so no later tick can produce a
/// tagged event for its id.
pub proof fn lemma_events_only_for_tagged_ids<T: Copy>(
    tags: Map<u32, T>,
    bs: Seq<Button>,
    ss: Seq<Slider>,
    vs: Seq<VerticalSlider>,
    ds: Seq<Draggable>,
    m: Vec2,
    down: bool,
)
    ensures
        forall|k: int|
            0 <= k < gui_events(tags, bs, ss, vs, ds, m, down).len() ==> tags.contains_key(
                #[trigger] gui_events(tags, bs, ss, vs, ds, m, down)[k].widget_id,
            ),
{
    lemma_button_events_tagged(tags, bs, m, down);
    lemma_slider_events_tagged(tags, ss, m, down);
    lemma_vertical_slider_events_tagged(tags, vs, m, down);
    lemma_draggable_events_tagged(tags, ds, m, down);
}

} // verus!
