//! The widget container: owns ordered collections of every widget kind,
//! maps each widget id to a caller-supplied tag, and drives one
//! interaction tick across all owned widgets, collecting their events
//! into a single ordered, tagged list.

use vstd::prelude::*;

use std::collections::HashMap;

use crate::button::Button;
use crate::button::button_after;
use crate::button::button_event;
use crate::common::TaggedEvent;
use crate::draggable::Draggable;
use crate::draggable::draggable_after;
use crate::draggable::draggable_event;
use crate::geometry::Vec2;
use crate::label::Label;
use crate::slider::Slider;
use crate::slider::slider_after;
use crate::slider::slider_event;
use crate::vertical_slider::VerticalSlider;
use crate::vertical_slider::vertical_slider_after;
use crate::vertical_slider::vertical_slider_event;

verus! {

broadcast use vstd::std_specs::hash::group_hash_axioms;

/// Some button in the sequence carries this id.
pub open spec fn has_button_id(bs: Seq<Button>, id: u32) -> bool {
    exists|i: int| 0 <= i < bs.len() && bs[i].id == id
}

/// Some slider in the sequence carries this id.
pub open spec fn has_slider_id(ss: Seq<Slider>, id: u32) -> bool {
    exists|i: int| 0 <= i < ss.len() && ss[i].id == id
}

/// Some vertical slider in the sequence carries this id.
pub open spec fn has_vertical_slider_id(vs: Seq<VerticalSlider>, id: u32) -> bool {
    exists|i: int| 0 <= i < vs.len() && vs[i].id == id
}

/// Some draggable in the sequence carries this id.
pub open spec fn has_draggable_id(ds: Seq<Draggable>, id: u32) -> bool {
    exists|i: int| 0 <= i < ds.len() && ds[i].id == id
}

/// Some label in the sequence carries this id.
pub open spec fn has_label_id(ls: Seq<Label>, id: u32) -> bool {
    exists|i: int| 0 <= i < ls.len() && ls[i].id == id
}

pub struct Gui<T: Copy> {
    /// The id-to-tag mapping for the interactive widgets; kept in
    /// lockstep with the four interactive collections.
    pub el_to_tag_map: HashMap<u32, T>,
    pub buttons: Vec<Button>,
    pub sliders: Vec<Slider>,
    pub vertical_sliders: Vec<VerticalSlider>,
    pub draggables: Vec<Draggable>,
    pub labels: Vec<Label>,
}

impl<T: Copy> Gui<T> {
    /// Every owned slider, vertical slider and draggable is in a state
    /// its own step accepts; this is all one tick needs.
    pub open spec fn widgets_ok(self) -> bool {
        &&& forall|i: int|
            0 <= i < self.sliders@.len() ==> (#[trigger] self.sliders@[i]).wf()
        &&& forall|i: int|
            0 <= i < self.vertical_sliders@.len() ==> (#[trigger] self.vertical_sliders@[i]).wf()
        &&& forall|i: int|
            0 <= i < self.draggables@.len() ==> (#[trigger] self.draggables@[i]).wf()
    }

    /// Some interactive widget (of any of the four stepped kinds) in
    /// this container carries the id.
    pub open spec fn has_interactive_id(self, id: u32) -> bool {
        ||| has_button_id(self.buttons@, id)
        ||| has_slider_id(self.sliders@, id)
        ||| has_vertical_slider_id(self.vertical_sliders@, id)
        ||| has_draggable_id(self.draggables@, id)
    }

    /// Some widget of any kind, label or interactive, carries the id.
    pub open spec fn has_any_id(self, id: u32) -> bool {
        self.has_interactive_id(id) || has_label_id(self.labels@, id)
    }

    /// No two widgets of one kind share an id.
    pub open spec fn ids_unique_within_kinds(self) -> bool {
        &&& forall|i: int, j: int|
            0 <= i < j < self.buttons@.len() ==> self.buttons@[i].id != self.buttons@[j].id
        &&& forall|i: int, j: int|
            0 <= i < j < self.sliders@.len() ==> self.sliders@[i].id != self.sliders@[j].id
        &&& forall|i: int, j: int|
            0 <= i < j < self.vertical_sliders@.len() ==> self.vertical_sliders@[i].id
                != self.vertical_sliders@[j].id
        &&& forall|i: int, j: int|
            0 <= i < j < self.draggables@.len() ==> self.draggables@[i].id
                != self.draggables@[j].id
        &&& forall|i: int, j: int|
            0 <= i < j < self.labels@.len() ==> self.labels@[i].id != self.labels@[j].id
    }

    /// No two widgets of different kinds share an id.
    pub open spec fn ids_unique_across_kinds(self) -> bool {
        forall|id: u32|
            #![trigger has_button_id(self.buttons@, id)]
            #![trigger has_slider_id(self.sliders@, id)]
            #![trigger has_vertical_slider_id(self.vertical_sliders@, id)]
            #![trigger has_draggable_id(self.draggables@, id)]
            #![trigger has_label_id(self.labels@, id)]
            {
                &&& has_button_id(self.buttons@, id) ==> !has_slider_id(self.sliders@, id)
                    && !has_vertical_slider_id(self.vertical_sliders@, id) && !has_draggable_id(
                    self.draggables@,
                    id,
                ) && !has_label_id(self.labels@, id)
                &&& has_slider_id(self.sliders@, id) ==> !has_vertical_slider_id(
                    self.vertical_sliders@,
                    id,
                ) && !has_draggable_id(self.draggables@, id) && !has_label_id(self.labels@, id)
                &&& has_vertical_slider_id(self.vertical_sliders@, id) ==> !has_draggable_id(
                    self.draggables@,
                    id,
                ) && !has_label_id(self.labels@, id)
                &&& has_draggable_id(self.draggables@, id) ==> !has_label_id(self.labels@, id)
            }
    }

    /// The tag map holds exactly the ids of the interactive widgets.
    pub open spec fn tags_in_sync(self) -> bool {
        forall|id: u32|
            #![trigger self.el_to_tag_map@.contains_key(id)]
            #![trigger self.has_interactive_id(id)]
            self.el_to_tag_map@.contains_key(id) <==> self.has_interactive_id(id)
    }

    /// The container invariant: widget collections and the id-to-tag
    /// map stay in lockstep, no id is carried twice, and every widget is
    /// in a steppable state.
    pub open spec fn wf(self) -> bool {
        &&& self.widgets_ok()
        &&& self.ids_unique_within_kinds()
        &&& self.ids_unique_across_kinds()
        &&& self.tags_in_sync()
    }

    /// An empty container.
    pub fn new() -> (g: Gui<T>)
        ensures
            g.el_to_tag_map@ == Map::<u32, T>::empty(),
            g.buttons@ == Seq::<Button>::empty(),
            g.sliders@ == Seq::<Slider>::empty(),
            g.vertical_sliders@ == Seq::<VerticalSlider>::empty(),
            g.draggables@ == Seq::<Draggable>::empty(),
            g.labels@ == Seq::<Label>::empty(),
            g.wf(),
    {
        Gui {
            el_to_tag_map: HashMap::new(),
            buttons: Vec::new(),
            sliders: Vec::new(),
            vertical_sliders: Vec::new(),
            draggables: Vec::new(),
            labels: Vec::new(),
        }
    }

    /// Appends the button and records its tag, as one atomic pair.
    pub fn add_button(&mut self, button: Button, tag: T)
        ensures
            final(self).buttons@ == old(self).buttons@.push(button),
            final(self).el_to_tag_map@ == old(self).el_to_tag_map@.insert(button.id, tag),
            final(self).sliders@ == old(self).sliders@,
            final(self).vertical_sliders@ == old(self).vertical_sliders@,
            final(self).draggables@ == old(self).draggables@,
            final(self).labels@ == old(self).labels@,
            old(self).widgets_ok() ==> final(self).widgets_ok(),
            old(self).wf() && !old(self).has_any_id(button.id) ==> final(self).wf(),
    {
        self.el_to_tag_map.insert(button.id, tag);
        self.buttons.push(button);
        proof {
            if old(self).wf() && !old(self).has_any_id(button.id) {
                lemma_add_button_wf(*old(self), *self, button, tag);
            }
        }
    }

    /// Appends the slider and records its tag, as one atomic pair.
    pub fn add_slider(&mut self, slider: Slider, tag: T)
        ensures
            final(self).sliders@ == old(self).sliders@.push(slider),
            final(self).el_to_tag_map@ == old(self).el_to_tag_map@.insert(slider.id, tag),
            final(self).buttons@ == old(self).buttons@,
            final(self).vertical_sliders@ == old(self).vertical_sliders@,
            final(self).draggables@ == old(self).draggables@,
            final(self).labels@ == old(self).labels@,
            old(self).widgets_ok() && slider.wf() ==> final(self).widgets_ok(),
            old(self).wf() && slider.wf() && !old(self).has_any_id(slider.id)
                ==> final(self).wf(),
    {
        self.el_to_tag_map.insert(slider.id, tag);
        self.sliders.push(slider);
        proof {
            if old(self).wf() && slider.wf() && !old(self).has_any_id(slider.id) {
                lemma_add_slider_wf(*old(self), *self, slider, tag);
            }
        }
    }

    /// Appends the vertical slider and records its tag, as one atomic
    /// pair.
    pub fn add_vertical_slider(&mut self, vertical_slider: VerticalSlider, tag: T)
        ensures
            final(self).vertical_sliders@ == old(self).vertical_sliders@.push(vertical_slider),
            final(self).el_to_tag_map@ == old(self).el_to_tag_map@.insert(
                vertical_slider.id,
                tag,
            ),
            final(self).buttons@ == old(self).buttons@,
            final(self).sliders@ == old(self).sliders@,
            final(self).draggables@ == old(self).draggables@,
            final(self).labels@ == old(self).labels@,
            old(self).widgets_ok() && vertical_slider.wf() ==> final(self).widgets_ok(),
            old(self).wf() && vertical_slider.wf() && !old(self).has_any_id(vertical_slider.id)
                ==> final(self).wf(),
    {
        self.el_to_tag_map.insert(vertical_slider.id, tag);
        self.vertical_sliders.push(vertical_slider);
        proof {
            if old(self).wf() && vertical_slider.wf() && !old(self).has_any_id(vertical_slider.id) {
                lemma_add_vertical_slider_wf(*old(self), *self, vertical_slider, tag);
            }
        }
    }

    /// Appends the draggable and records its tag, as one atomic pair.
    pub fn add_draggable(&mut self, draggable: Draggable, tag: T)
        ensures
            final(self).draggables@ == old(self).draggables@.push(draggable),
            final(self).el_to_tag_map@ == old(self).el_to_tag_map@.insert(draggable.id, tag),
            final(self).buttons@ == old(self).buttons@,
            final(self).sliders@ == old(self).sliders@,
            final(self).vertical_sliders@ == old(self).vertical_sliders@,
            final(self).labels@ == old(self).labels@,
            old(self).widgets_ok() && draggable.wf() ==> final(self).widgets_ok(),
            old(self).wf() && draggable.wf() && !old(self).has_any_id(draggable.id)
                ==> final(self).wf(),
    {
        self.el_to_tag_map.insert(draggable.id, tag);
        self.draggables.push(draggable);
        proof {
            if old(self).wf() && draggable.wf() && !old(self).has_any_id(draggable.id) {
                lemma_add_draggable_wf(*old(self), *self, draggable, tag);
            }
        }
    }

    /// Appends the label. Labels take no tag: they never step and never
    /// emit events.
    pub fn add_label(&mut self, label: Label)
        ensures
            final(self).labels@ == old(self).labels@.push(label),
            final(self).el_to_tag_map@ == old(self).el_to_tag_map@,
            final(self).buttons@ == old(self).buttons@,
            final(self).sliders@ == old(self).sliders@,
            final(self).vertical_sliders@ == old(self).vertical_sliders@,
            final(self).draggables@ == old(self).draggables@,
            old(self).widgets_ok() ==> final(self).widgets_ok(),
            old(self).wf() && !old(self).has_any_id(label.id) ==> final(self).wf(),
    {
        self.labels.push(label);
        proof {
            if old(self).wf() && !old(self).has_any_id(label.id) {
                lemma_add_label_wf(*old(self), *self, label);
            }
        }
    }

    /// Removes every button carrying the id, and the id's tag entry, as one
    /// atomic pair. The insertion order of the rest is kept.
    pub fn remove_button(&mut self, id: u32)
        ensures
            final(self).buttons@ == old(self).buttons@.filter(|w: Button| w.id != id),
            final(self).el_to_tag_map@ == old(self).el_to_tag_map@.remove(id),
            final(self).sliders@ == old(self).sliders@,
            final(self).vertical_sliders@ == old(self).vertical_sliders@,
            final(self).draggables@ == old(self).draggables@,
            final(self).labels@ == old(self).labels@,
            !has_button_id(final(self).buttons@, id),
            forall|x: u32|
                x != id ==> (#[trigger] has_button_id(final(self).buttons@, x) <==> has_button_id(
                    old(self).buttons@,
                    x,
                )),
            old(self).widgets_ok() ==> final(self).widgets_ok(),
            old(self).wf() && (has_button_id(old(self).buttons@, id) || !old(self).el_to_tag_map@.contains_key(id)) ==> final(self).wf(),
    {
        let ghost orig = self.buttons@;
        let mut i: usize = self.buttons.len();
        proof {
            assert(orig.skip(i as int) =~= Seq::<Button>::empty());
            assert(Seq::<Button>::empty().filter(|w: Button| w.id != id) =~= Seq::<Button>::empty())
                by {
                reveal(Seq::filter);
            }
            assert(self.buttons@ =~= orig.take(i as int) + orig.skip(i as int).filter(
                |w: Button| w.id != id,
            ));
        }
        while i > 0
            invariant
                i <= orig.len(),
                orig == old(self).buttons@,
                self.buttons@ == orig.take(i as int) + orig.skip(i as int).filter(
                    |w: Button| w.id != id,
                ),
                self.el_to_tag_map@ == old(self).el_to_tag_map@,
                self.sliders@ == old(self).sliders@,
                self.vertical_sliders@ == old(self).vertical_sliders@,
                self.draggables@ == old(self).draggables@,
                self.labels@ == old(self).labels@,
            decreases i,
        {
            i = i - 1;
            proof {
                lemma_filter_unfold_front(
                    orig[i as int],
                    orig.skip(i as int + 1),
                    |w: Button| w.id != id,
                );
                assert(orig.skip(i as int) =~= seq![orig[i as int]] + orig.skip(i as int + 1));
                assert(self.buttons@[i as int] == orig[i as int]);
            }
            if self.buttons[i].id == id {
                self.buttons.remove(i);
            }
            proof {
                assert(self.buttons@ =~= orig.take(i as int) + orig.skip(i as int).filter(
                    |w: Button| w.id != id,
                ));
            }
        }
        proof {
            assert(orig.take(0) =~= Seq::<Button>::empty());
            assert(orig.skip(0) =~= orig);
            assert(self.buttons@ =~= orig.filter(|w: Button| w.id != id));
        }
        self.el_to_tag_map.remove(&id);
        proof {
            lemma_buttons_without(old(self).buttons@, self.buttons@, id);
            if old(self).wf() && (has_button_id(old(self).buttons@, id) || !old(self).el_to_tag_map@.contains_key(id)) {
                lemma_remove_button_wf(*old(self), *self, id);
            }
        }
    }

    /// Removes every slider carrying the id, and the id's tag entry, as one
    /// atomic pair. The insertion order of the rest is kept.
    pub fn remove_slider(&mut self, id: u32)
        ensures
            final(self).sliders@ == old(self).sliders@.filter(|w: Slider| w.id != id),
            final(self).el_to_tag_map@ == old(self).el_to_tag_map@.remove(id),
            final(self).buttons@ == old(self).buttons@,
            final(self).vertical_sliders@ == old(self).vertical_sliders@,
            final(self).draggables@ == old(self).draggables@,
            final(self).labels@ == old(self).labels@,
            !has_slider_id(final(self).sliders@, id),
            forall|x: u32|
                x != id ==> (#[trigger] has_slider_id(final(self).sliders@, x) <==> has_slider_id(
                    old(self).sliders@,
                    x,
                )),
            old(self).widgets_ok() ==> final(self).widgets_ok(),
            old(self).wf() && (has_slider_id(old(self).sliders@, id) || !old(self).el_to_tag_map@.contains_key(id)) ==> final(self).wf(),
    {
        let ghost orig = self.sliders@;
        let mut i: usize = self.sliders.len();
        proof {
            assert(orig.skip(i as int) =~= Seq::<Slider>::empty());
            assert(Seq::<Slider>::empty().filter(|w: Slider| w.id != id) =~= Seq::<Slider>::empty())
                by {
                reveal(Seq::filter);
            }
            assert(self.sliders@ =~= orig.take(i as int) + orig.skip(i as int).filter(
                |w: Slider| w.id != id,
            ));
        }
        while i > 0
            invariant
                i <= orig.len(),
                orig == old(self).sliders@,
                self.sliders@ == orig.take(i as int) + orig.skip(i as int).filter(
                    |w: Slider| w.id != id,
                ),
                self.el_to_tag_map@ == old(self).el_to_tag_map@,
                self.buttons@ == old(self).buttons@,
                self.vertical_sliders@ == old(self).vertical_sliders@,
                self.draggables@ == old(self).draggables@,
                self.labels@ == old(self).labels@,
            decreases i,
        {
            i = i - 1;
            proof {
                lemma_filter_unfold_front(
                    orig[i as int],
                    orig.skip(i as int + 1),
                    |w: Slider| w.id != id,
                );
                assert(orig.skip(i as int) =~= seq![orig[i as int]] + orig.skip(i as int + 1));
                assert(self.sliders@[i as int] == orig[i as int]);
            }
            if self.sliders[i].id == id {
                self.sliders.remove(i);
            }
            proof {
                assert(self.sliders@ =~= orig.take(i as int) + orig.skip(i as int).filter(
                    |w: Slider| w.id != id,
                ));
            }
        }
        proof {
            assert(orig.take(0) =~= Seq::<Slider>::empty());
            assert(orig.skip(0) =~= orig);
            assert(self.sliders@ =~= orig.filter(|w: Slider| w.id != id));
        }
        self.el_to_tag_map.remove(&id);
        proof {
            lemma_sliders_without(old(self).sliders@, self.sliders@, id);
            if old(self).widgets_ok() {
                assert forall|k: int|
                    0 <= k < self.sliders@.len() implies (#[trigger] self.sliders@[k]).wf() by {
                    let m = choose|m: int|
                        0 <= m < old(self).sliders@.len() && old(self).sliders@[m] == self.sliders@[k];
                }
            }
            if old(self).wf() && (has_slider_id(old(self).sliders@, id) || !old(self).el_to_tag_map@.contains_key(id)) {
                lemma_remove_slider_wf(*old(self), *self, id);
            }
        }
    }

    /// Removes every vertical slider carrying the id, and the id's tag entry, as one
    /// atomic pair. The insertion order of the rest is kept.
    pub fn remove_vertical_slider(&mut self, id: u32)
        ensures
            final(self).vertical_sliders@ == old(self).vertical_sliders@.filter(|w: VerticalSlider| w.id != id),
            final(self).el_to_tag_map@ == old(self).el_to_tag_map@.remove(id),
            final(self).buttons@ == old(self).buttons@,
            final(self).sliders@ == old(self).sliders@,
            final(self).draggables@ == old(self).draggables@,
            final(self).labels@ == old(self).labels@,
            !has_vertical_slider_id(final(self).vertical_sliders@, id),
            forall|x: u32|
                x != id ==> (#[trigger] has_vertical_slider_id(final(self).vertical_sliders@, x) <==> has_vertical_slider_id(
                    old(self).vertical_sliders@,
                    x,
                )),
            old(self).widgets_ok() ==> final(self).widgets_ok(),
            old(self).wf() && (has_vertical_slider_id(old(self).vertical_sliders@, id) || !old(self).el_to_tag_map@.contains_key(id)) ==> final(self).wf(),
    {
        let ghost orig = self.vertical_sliders@;
        let mut i: usize = self.vertical_sliders.len();
        proof {
            assert(orig.skip(i as int) =~= Seq::<VerticalSlider>::empty());
            assert(Seq::<VerticalSlider>::empty().filter(|w: VerticalSlider| w.id != id) =~= Seq::<VerticalSlider>::empty())
                by {
                reveal(Seq::filter);
            }
            assert(self.vertical_sliders@ =~= orig.take(i as int) + orig.skip(i as int).filter(
                |w: VerticalSlider| w.id != id,
            ));
        }
        while i > 0
            invariant
                i <= orig.len(),
                orig == old(self).vertical_sliders@,
                self.vertical_sliders@ == orig.take(i as int) + orig.skip(i as int).filter(
                    |w: VerticalSlider| w.id != id,
                ),
                self.el_to_tag_map@ == old(self).el_to_tag_map@,
                self.buttons@ == old(self).buttons@,
                self.sliders@ == old(self).sliders@,
                self.draggables@ == old(self).draggables@,
                self.labels@ == old(self).labels@,
            decreases i,
        {
            i = i - 1;
            proof {
                lemma_filter_unfold_front(
                    orig[i as int],
                    orig.skip(i as int + 1),
                    |w: VerticalSlider| w.id != id,
                );
                assert(orig.skip(i as int) =~= seq![orig[i as int]] + orig.skip(i as int + 1));
                assert(self.vertical_sliders@[i as int] == orig[i as int]);
            }
            if self.vertical_sliders[i].id == id {
                self.vertical_sliders.remove(i);
            }
            proof {
                assert(self.vertical_sliders@ =~= orig.take(i as int) + orig.skip(i as int).filter(
                    |w: VerticalSlider| w.id != id,
                ));
            }
        }
        proof {
            assert(orig.take(0) =~= Seq::<VerticalSlider>::empty());
            assert(orig.skip(0) =~= orig);
            assert(self.vertical_sliders@ =~= orig.filter(|w: VerticalSlider| w.id != id));
        }
        self.el_to_tag_map.remove(&id);
        proof {
            lemma_vertical_sliders_without(old(self).vertical_sliders@, self.vertical_sliders@, id);
            if old(self).widgets_ok() {
                assert forall|k: int|
                    0 <= k < self.vertical_sliders@.len() implies (#[trigger] self.vertical_sliders@[k]).wf() by {
                    let m = choose|m: int|
                        0 <= m < old(self).vertical_sliders@.len() && old(self).vertical_sliders@[m] == self.vertical_sliders@[k];
                }
            }
            if old(self).wf() && (has_vertical_slider_id(old(self).vertical_sliders@, id) || !old(self).el_to_tag_map@.contains_key(id)) {
                lemma_remove_vertical_slider_wf(*old(self), *self, id);
            }
        }
    }

    /// Removes every draggable carrying the id, and the id's tag entry, as one
    /// atomic pair. The insertion order of the rest is kept.
    pub fn remove_draggable(&mut self, id: u32)
        ensures
            final(self).draggables@ == old(self).draggables@.filter(|w: Draggable| w.id != id),
            final(self).el_to_tag_map@ == old(self).el_to_tag_map@.remove(id),
            final(self).buttons@ == old(self).buttons@,
            final(self).sliders@ == old(self).sliders@,
            final(self).vertical_sliders@ == old(self).vertical_sliders@,
            final(self).labels@ == old(self).labels@,
            !has_draggable_id(final(self).draggables@, id),
            forall|x: u32|
                x != id ==> (#[trigger] has_draggable_id(final(self).draggables@, x) <==> has_draggable_id(
                    old(self).draggables@,
                    x,
                )),
            old(self).widgets_ok() ==> final(self).widgets_ok(),
            old(self).wf() && (has_draggable_id(old(self).draggables@, id) || !old(self).el_to_tag_map@.contains_key(id)) ==> final(self).wf(),
    {
        let ghost orig = self.draggables@;
        let mut i: usize = self.draggables.len();
        proof {
            assert(orig.skip(i as int) =~= Seq::<Draggable>::empty());
            assert(Seq::<Draggable>::empty().filter(|w: Draggable| w.id != id) =~= Seq::<Draggable>::empty())
                by {
                reveal(Seq::filter);
            }
            assert(self.draggables@ =~= orig.take(i as int) + orig.skip(i as int).filter(
                |w: Draggable| w.id != id,
            ));
        }
        while i > 0
            invariant
                i <= orig.len(),
                orig == old(self).draggables@,
                self.draggables@ == orig.take(i as int) + orig.skip(i as int).filter(
                    |w: Draggable| w.id != id,
                ),
                self.el_to_tag_map@ == old(self).el_to_tag_map@,
                self.buttons@ == old(self).buttons@,
                self.sliders@ == old(self).sliders@,
                self.vertical_sliders@ == old(self).vertical_sliders@,
                self.labels@ == old(self).labels@,
            decreases i,
        {
            i = i - 1;
            proof {
                lemma_filter_unfold_front(
                    orig[i as int],
                    orig.skip(i as int + 1),
                    |w: Draggable| w.id != id,
                );
                assert(orig.skip(i as int) =~= seq![orig[i as int]] + orig.skip(i as int + 1));
                assert(self.draggables@[i as int] == orig[i as int]);
            }
            if self.draggables[i].id == id {
                self.draggables.remove(i);
            }
            proof {
                assert(self.draggables@ =~= orig.take(i as int) + orig.skip(i as int).filter(
                    |w: Draggable| w.id != id,
                ));
            }
        }
        proof {
            assert(orig.take(0) =~= Seq::<Draggable>::empty());
            assert(orig.skip(0) =~= orig);
            assert(self.draggables@ =~= orig.filter(|w: Draggable| w.id != id));
        }
        self.el_to_tag_map.remove(&id);
        proof {
            lemma_draggables_without(old(self).draggables@, self.draggables@, id);
            if old(self).widgets_ok() {
                assert forall|k: int|
                    0 <= k < self.draggables@.len() implies (#[trigger] self.draggables@[k]).wf() by {
                    let m = choose|m: int|
                        0 <= m < old(self).draggables@.len() && old(self).draggables@[m] == self.draggables@[k];
                }
            }
            if old(self).wf() && (has_draggable_id(old(self).draggables@, id) || !old(self).el_to_tag_map@.contains_key(id)) {
                lemma_remove_draggable_wf(*old(self), *self, id);
            }
        }
    }

    /// Removes every label carrying the id; labels have no tag entry, as one
    /// atomic pair. The insertion order of the rest is kept.
    pub fn remove_label(&mut self, id: u32)
        ensures
            final(self).labels@ == old(self).labels@.filter(|w: Label| w.id != id),
            final(self).el_to_tag_map@ == old(self).el_to_tag_map@,
            final(self).buttons@ == old(self).buttons@,
            final(self).sliders@ == old(self).sliders@,
            final(self).vertical_sliders@ == old(self).vertical_sliders@,
            final(self).draggables@ == old(self).draggables@,
            !has_label_id(final(self).labels@, id),
            forall|x: u32|
                x != id ==> (#[trigger] has_label_id(final(self).labels@, x) <==> has_label_id(
                    old(self).labels@,
                    x,
                )),
            old(self).widgets_ok() ==> final(self).widgets_ok(),
            old(self).wf() && (has_label_id(old(self).labels@, id) || !old(self).has_any_id(id)) ==> final(self).wf(),
    {
        let ghost orig = self.labels@;
        let mut i: usize = self.labels.len();
        proof {
            assert(orig.skip(i as int) =~= Seq::<Label>::empty());
            assert(Seq::<Label>::empty().filter(|w: Label| w.id != id) =~= Seq::<Label>::empty())
                by {
                reveal(Seq::filter);
            }
            assert(self.labels@ =~= orig.take(i as int) + orig.skip(i as int).filter(
                |w: Label| w.id != id,
            ));
        }
        while i > 0
            invariant
                i <= orig.len(),
                orig == old(self).labels@,
                self.labels@ == orig.take(i as int) + orig.skip(i as int).filter(
                    |w: Label| w.id != id,
                ),
                self.el_to_tag_map@ == old(self).el_to_tag_map@,
                self.buttons@ == old(self).buttons@,
                self.sliders@ == old(self).sliders@,
                self.vertical_sliders@ == old(self).vertical_sliders@,
                self.draggables@ == old(self).draggables@,
            decreases i,
        {
            i = i - 1;
            proof {
                lemma_filter_unfold_front(
                    orig[i as int],
                    orig.skip(i as int + 1),
                    |w: Label| w.id != id,
                );
                assert(orig.skip(i as int) =~= seq![orig[i as int]] + orig.skip(i as int + 1));
                assert(self.labels@[i as int] == orig[i as int]);
            }
            if self.labels[i].id == id {
                self.labels.remove(i);
            }
            proof {
                assert(self.labels@ =~= orig.take(i as int) + orig.skip(i as int).filter(
                    |w: Label| w.id != id,
                ));
            }
        }
        proof {
            assert(orig.take(0) =~= Seq::<Label>::empty());
            assert(orig.skip(0) =~= orig);
            assert(self.labels@ =~= orig.filter(|w: Label| w.id != id));
        }
        proof {
            lemma_labels_without(old(self).labels@, self.labels@, id);
            if old(self).wf() && (has_label_id(old(self).labels@, id) || !old(self).has_any_id(id)) {
                lemma_remove_label_wf(*old(self), *self, id);
            }
        }
    }

    /// One interaction tick across all owned widgets, in the fixed kind
    /// order buttons, sliders, vertical sliders, draggables (labels
    /// never step). Every widget takes exactly its own step, and the
    /// returned list holds, in that order, one tagged event for every
    /// widget that emitted one and whose id the tag map knows.
    pub fn step(&mut self, mouse_position: Vec2, mouse_pressed: bool) -> (events: Vec<
        TaggedEvent<T>,
    >)
        requires
            old(self).widgets_ok(),
        ensures
            final(self).el_to_tag_map@ == old(self).el_to_tag_map@,
            final(self).labels@ == old(self).labels@,
            final(self).buttons@.len() == old(self).buttons@.len(),
            forall|i: int|
                0 <= i < old(self).buttons@.len() ==> #[trigger] final(self).buttons@[i]
                    == button_after(old(self).buttons@[i], mouse_position, mouse_pressed),
            final(self).sliders@.len() == old(self).sliders@.len(),
            forall|i: int|
                0 <= i < old(self).sliders@.len() ==> #[trigger] final(self).sliders@[i]
                    == slider_after(old(self).sliders@[i], mouse_position, mouse_pressed),
            final(self).vertical_sliders@.len() == old(self).vertical_sliders@.len(),
            forall|i: int|
                0 <= i < old(self).vertical_sliders@.len()
                    ==> #[trigger] final(self).vertical_sliders@[i] == vertical_slider_after(
                    old(self).vertical_sliders@[i],
                    mouse_position,
                    mouse_pressed,
                ),
            final(self).draggables@.len() == old(self).draggables@.len(),
            forall|i: int|
                0 <= i < old(self).draggables@.len() ==> #[trigger] final(self).draggables@[i]
                    == draggable_after(old(self).draggables@[i], mouse_position, mouse_pressed),
            events@ == gui_events(
                old(self).el_to_tag_map@,
                old(self).buttons@,
                old(self).sliders@,
                old(self).vertical_sliders@,
                old(self).draggables@,
                mouse_position,
                mouse_pressed,
            ),
            final(self).widgets_ok(),
            old(self).wf() ==> final(self).wf(),
    {
        let mut events: Vec<TaggedEvent<T>> = Vec::new();
        let mut i: usize = 0;
        while i < self.buttons.len()
            invariant
                i <= old(self).buttons@.len(),
                self.el_to_tag_map@ == old(self).el_to_tag_map@,
                self.labels@ == old(self).labels@,
                self.sliders@ == old(self).sliders@,
                self.vertical_sliders@ == old(self).vertical_sliders@,
                self.draggables@ == old(self).draggables@,
                self.buttons@.len() == old(self).buttons@.len(),
                forall|k: int|
                    0 <= k < i ==> #[trigger] self.buttons@[k] == button_after(
                        old(self).buttons@[k],
                        mouse_position,
                        mouse_pressed,
                    ),
                forall|k: int| i <= k < old(self).buttons@.len() ==> #[trigger] self.buttons@[k]
                    == old(self).buttons@[k],
                events@ == button_events(old(self).el_to_tag_map@, old(self).buttons@.take(i as int), mouse_position, mouse_pressed),
            decreases old(self).buttons@.len() - i,
        {
            let event_opt = self.buttons[i].step(mouse_position, mouse_pressed);
            proof {
                assert(old(self).buttons@.take(i as int + 1).drop_last() =~= old(self).buttons@.take(
                    i as int,
                ));
                assert(old(self).buttons@.take(i as int + 1).last() == old(self).buttons@[i as int]);
            }
            match event_opt {
                Some(event) => {
                    let id = self.buttons[i].id;
                    match self.el_to_tag_map.get(&id) {
                        Some(tag) => {
                            events.push(TaggedEvent { tag: *tag, widget_id: id, event });
                        },
                        None => {},
                    }
                },
                None => {},
            }
            i = i + 1;
        }
        proof {
            assert(old(self).buttons@.take(old(self).buttons@.len() as int) =~= old(self).buttons@);
        }
        let mut i: usize = 0;
        while i < self.sliders.len()
            invariant
                i <= old(self).sliders@.len(),
                self.el_to_tag_map@ == old(self).el_to_tag_map@,
                self.labels@ == old(self).labels@,
                self.buttons@.len() == old(self).buttons@.len(),
                forall|k: int|
                    0 <= k < old(self).buttons@.len() ==> #[trigger] self.buttons@[k]
                        == button_after(old(self).buttons@[k], mouse_position, mouse_pressed),
                self.vertical_sliders@ == old(self).vertical_sliders@,
                self.draggables@ == old(self).draggables@,
                forall|k: int|
                    0 <= k < old(self).sliders@.len() ==> (#[trigger] old(self).sliders@[k]).wf(),
                self.sliders@.len() == old(self).sliders@.len(),
                forall|k: int|
                    0 <= k < i ==> #[trigger] self.sliders@[k] == slider_after(
                        old(self).sliders@[k],
                        mouse_position,
                        mouse_pressed,
                    ),
                forall|k: int| i <= k < old(self).sliders@.len() ==> #[trigger] self.sliders@[k]
                    == old(self).sliders@[k],
                events@ == button_events(old(self).el_to_tag_map@, old(self).buttons@, mouse_position, mouse_pressed) + slider_events(old(self).el_to_tag_map@, old(self).sliders@.take(i as int), mouse_position, mouse_pressed),
            decreases old(self).sliders@.len() - i,
        {
            let event_opt = self.sliders[i].step(mouse_position, mouse_pressed);
            proof {
                assert(old(self).sliders@.take(i as int + 1).drop_last() =~= old(self).sliders@.take(
                    i as int,
                ));
                assert(old(self).sliders@.take(i as int + 1).last() == old(self).sliders@[i as int]);
            }
            match event_opt {
                Some(event) => {
                    let id = self.sliders[i].id;
                    match self.el_to_tag_map.get(&id) {
                        Some(tag) => {
                            events.push(TaggedEvent { tag: *tag, widget_id: id, event });
                        },
                        None => {},
                    }
                },
                None => {},
            }
            i = i + 1;
        }
        proof {
            assert(old(self).sliders@.take(old(self).sliders@.len() as int) =~= old(self).sliders@);
        }
        let mut i: usize = 0;
        while i < self.vertical_sliders.len()
            invariant
                i <= old(self).vertical_sliders@.len(),
                self.el_to_tag_map@ == old(self).el_to_tag_map@,
                self.labels@ == old(self).labels@,
                self.buttons@.len() == old(self).buttons@.len(),
                forall|k: int|
                    0 <= k < old(self).buttons@.len() ==> #[trigger] self.buttons@[k]
                        == button_after(old(self).buttons@[k], mouse_position, mouse_pressed),
                self.sliders@.len() == old(self).sliders@.len(),
                forall|k: int|
                    0 <= k < old(self).sliders@.len() ==> #[trigger] self.sliders@[k]
                        == slider_after(old(self).sliders@[k], mouse_position, mouse_pressed),
                self.draggables@ == old(self).draggables@,
                forall|k: int|
                    0 <= k < old(self).vertical_sliders@.len() ==> (#[trigger] old(self).vertical_sliders@[k]).wf(),
                self.vertical_sliders@.len() == old(self).vertical_sliders@.len(),
                forall|k: int|
                    0 <= k < i ==> #[trigger] self.vertical_sliders@[k] == vertical_slider_after(
                        old(self).vertical_sliders@[k],
                        mouse_position,
                        mouse_pressed,
                    ),
                forall|k: int| i <= k < old(self).vertical_sliders@.len() ==> #[trigger] self.vertical_sliders@[k]
                    == old(self).vertical_sliders@[k],
                events@ == button_events(old(self).el_to_tag_map@, old(self).buttons@, mouse_position, mouse_pressed) + slider_events(old(self).el_to_tag_map@, old(self).sliders@, mouse_position, mouse_pressed) + vertical_slider_events(old(self).el_to_tag_map@, old(self).vertical_sliders@.take(i as int), mouse_position, mouse_pressed),
            decreases old(self).vertical_sliders@.len() - i,
        {
            let event_opt = self.vertical_sliders[i].step(mouse_position, mouse_pressed);
            proof {
                assert(old(self).vertical_sliders@.take(i as int + 1).drop_last() =~= old(self).vertical_sliders@.take(
                    i as int,
                ));
                assert(old(self).vertical_sliders@.take(i as int + 1).last() == old(self).vertical_sliders@[i as int]);
            }
            match event_opt {
                Some(event) => {
                    let id = self.vertical_sliders[i].id;
                    match self.el_to_tag_map.get(&id) {
                        Some(tag) => {
                            events.push(TaggedEvent { tag: *tag, widget_id: id, event });
                        },
                        None => {},
                    }
                },
                None => {},
            }
            i = i + 1;
        }
        proof {
            assert(old(self).vertical_sliders@.take(old(self).vertical_sliders@.len() as int) =~= old(self).vertical_sliders@);
        }
        let mut i: usize = 0;
        while i < self.draggables.len()
            invariant
                i <= old(self).draggables@.len(),
                self.el_to_tag_map@ == old(self).el_to_tag_map@,
                self.labels@ == old(self).labels@,
                self.buttons@.len() == old(self).buttons@.len(),
                forall|k: int|
                    0 <= k < old(self).buttons@.len() ==> #[trigger] self.buttons@[k]
                        == button_after(old(self).buttons@[k], mouse_position, mouse_pressed),
                self.sliders@.len() == old(self).sliders@.len(),
                forall|k: int|
                    0 <= k < old(self).sliders@.len() ==> #[trigger] self.sliders@[k]
                        == slider_after(old(self).sliders@[k], mouse_position, mouse_pressed),
                self.vertical_sliders@.len() == old(self).vertical_sliders@.len(),
                forall|k: int|
                    0 <= k < old(self).vertical_sliders@.len() ==> #[trigger] self.vertical_sliders@[k]
                        == vertical_slider_after(old(self).vertical_sliders@[k], mouse_position, mouse_pressed),
                forall|k: int|
                    0 <= k < old(self).draggables@.len() ==> (#[trigger] old(self).draggables@[k]).wf(),
                self.draggables@.len() == old(self).draggables@.len(),
                forall|k: int|
                    0 <= k < i ==> #[trigger] self.draggables@[k] == draggable_after(
                        old(self).draggables@[k],
                        mouse_position,
                        mouse_pressed,
                    ),
                forall|k: int| i <= k < old(self).draggables@.len() ==> #[trigger] self.draggables@[k]
                    == old(self).draggables@[k],
                events@ == button_events(old(self).el_to_tag_map@, old(self).buttons@, mouse_position, mouse_pressed) + slider_events(old(self).el_to_tag_map@, old(self).sliders@, mouse_position, mouse_pressed) + vertical_slider_events(old(self).el_to_tag_map@, old(self).vertical_sliders@, mouse_position, mouse_pressed) + draggable_events(old(self).el_to_tag_map@, old(self).draggables@.take(i as int), mouse_position, mouse_pressed),
            decreases old(self).draggables@.len() - i,
        {
            let event_opt = self.draggables[i].step(mouse_position, mouse_pressed);
            proof {
                assert(old(self).draggables@.take(i as int + 1).drop_last() =~= old(self).draggables@.take(
                    i as int,
                ));
                assert(old(self).draggables@.take(i as int + 1).last() == old(self).draggables@[i as int]);
            }
            match event_opt {
                Some(event) => {
                    let id = self.draggables[i].id;
                    match self.el_to_tag_map.get(&id) {
                        Some(tag) => {
                            events.push(TaggedEvent { tag: *tag, widget_id: id, event });
                        },
                        None => {},
                    }
                },
                None => {},
            }
            i = i + 1;
        }
        proof {
            assert(old(self).draggables@.take(old(self).draggables@.len() as int) =~= old(self).draggables@);
        }
        proof {
            if old(self).wf() {
                lemma_gui_step_wf(*old(self), *self);
            }
        }
        events
    }

    /// A shared reference to the first button carrying the id, if any.
    /// Unknown ids (removed, another kind, another container) give None.
    pub fn get_button(&self, id: u32) -> (r: Option<&Button>)
        ensures
            match r {
                Some(w) => w.id == id && exists|i: int|
                    0 <= i < self.buttons@.len() && self.buttons@[i] == *w && (forall|j: int|
                        0 <= j < i ==> self.buttons@[j].id != id),
                None => !has_button_id(self.buttons@, id),
            },
    {
        let mut i: usize = 0;
        while i < self.buttons.len()
            invariant
                i <= self.buttons@.len(),
                forall|j: int| 0 <= j < i ==> self.buttons@[j].id != id,
            decreases self.buttons@.len() - i,
        {
            if self.buttons[i].id == id {
                return Some(&self.buttons[i]);
            }
            i = i + 1;
        }
        None
    }

    /// A shared reference to the first slider carrying the id, if any.
    /// Unknown ids (removed, another kind, another container) give None.
    pub fn get_slider(&self, id: u32) -> (r: Option<&Slider>)
        ensures
            match r {
                Some(w) => w.id == id && exists|i: int|
                    0 <= i < self.sliders@.len() && self.sliders@[i] == *w && (forall|j: int|
                        0 <= j < i ==> self.sliders@[j].id != id),
                None => !has_slider_id(self.sliders@, id),
            },
    {
        let mut i: usize = 0;
        while i < self.sliders.len()
            invariant
                i <= self.sliders@.len(),
                forall|j: int| 0 <= j < i ==> self.sliders@[j].id != id,
            decreases self.sliders@.len() - i,
        {
            if self.sliders[i].id == id {
                return Some(&self.sliders[i]);
            }
            i = i + 1;
        }
        None
    }

    /// A shared reference to the first vertical slider carrying the id, if any.
    /// Unknown ids (removed, another kind, another container) give None.
    pub fn get_vertical_slider(&self, id: u32) -> (r: Option<&VerticalSlider>)
        ensures
            match r {
                Some(w) => w.id == id && exists|i: int|
                    0 <= i < self.vertical_sliders@.len() && self.vertical_sliders@[i] == *w && (forall|j: int|
                        0 <= j < i ==> self.vertical_sliders@[j].id != id),
                None => !has_vertical_slider_id(self.vertical_sliders@, id),
            },
    {
        let mut i: usize = 0;
        while i < self.vertical_sliders.len()
            invariant
                i <= self.vertical_sliders@.len(),
                forall|j: int| 0 <= j < i ==> self.vertical_sliders@[j].id != id,
            decreases self.vertical_sliders@.len() - i,
        {
            if self.vertical_sliders[i].id == id {
                return Some(&self.vertical_sliders[i]);
            }
            i = i + 1;
        }
        None
    }

    /// A shared reference to the first draggable carrying the id, if any.
    /// Unknown ids (removed, another kind, another container) give None.
    pub fn get_draggable(&self, id: u32) -> (r: Option<&Draggable>)
        ensures
            match r {
                Some(w) => w.id == id && exists|i: int|
                    0 <= i < self.draggables@.len() && self.draggables@[i] == *w && (forall|j: int|
                        0 <= j < i ==> self.draggables@[j].id != id),
                None => !has_draggable_id(self.draggables@, id),
            },
    {
        let mut i: usize = 0;
        while i < self.draggables.len()
            invariant
                i <= self.draggables@.len(),
                forall|j: int| 0 <= j < i ==> self.draggables@[j].id != id,
            decreases self.draggables@.len() - i,
        {
            if self.draggables[i].id == id {
                return Some(&self.draggables[i]);
            }
            i = i + 1;
        }
        None
    }

    /// A shared reference to the first label carrying the id, if any.
    /// Unknown ids (removed, another kind, another container) give None.
    pub fn get_label(&self, id: u32) -> (r: Option<&Label>)
        ensures
            match r {
                Some(w) => w.id == id && exists|i: int|
                    0 <= i < self.labels@.len() && self.labels@[i] == *w && (forall|j: int|
                        0 <= j < i ==> self.labels@[j].id != id),
                None => !has_label_id(self.labels@, id),
            },
    {
        let mut i: usize = 0;
        while i < self.labels.len()
            invariant
                i <= self.labels@.len(),
                forall|j: int| 0 <= j < i ==> self.labels@[j].id != id,
            decreases self.labels@.len() - i,
        {
            if self.labels[i].id == id {
                return Some(&self.labels[i]);
            }
            i = i + 1;
        }
        None
    }

    /// A mutable reference to the first button carrying the id, if any.
    /// Everything else in the container is left as it was.
    pub fn get_button_mut(&mut self, id: u32) -> (r: Option<&mut Button>)
        ensures
            final(self).el_to_tag_map@ == old(self).el_to_tag_map@,
            final(self).sliders@ == old(self).sliders@,
            final(self).vertical_sliders@ == old(self).vertical_sliders@,
            final(self).draggables@ == old(self).draggables@,
            final(self).labels@ == old(self).labels@,
            r.is_none() ==> !has_button_id(old(self).buttons@, id) && final(self).buttons@ == old(
                self,
            ).buttons@,
            r.is_some() ==> ({
                let taken = *r.unwrap();
                let written = *final(r.unwrap());
                taken.id == id && exists|i: int|
                    0 <= i < old(self).buttons@.len() && old(self).buttons@[i] == taken && (forall|
                        j: int,
                    |
                        0 <= j < i ==> old(self).buttons@[j].id != id) && final(self).buttons@ == old(
                        self,
                    ).buttons@.update(i, written)
            }),
    {
        let mut i: usize = 0;
        let n = self.buttons.len();
        while i < n
            invariant
                *self == *old(self),
                n == self.buttons@.len(),
                i <= n,
                forall|j: int| 0 <= j < i ==> self.buttons@[j].id != id,
            decreases n - i,
        {
            if self.buttons[i].id == id {
                return Some(&mut self.buttons[i]);
            }
            i = i + 1;
        }
        None
    }

    /// A mutable reference to the first slider carrying the id, if any.
    /// Everything else in the container is left as it was.
    pub fn get_slider_mut(&mut self, id: u32) -> (r: Option<&mut Slider>)
        ensures
            final(self).el_to_tag_map@ == old(self).el_to_tag_map@,
            final(self).buttons@ == old(self).buttons@,
            final(self).vertical_sliders@ == old(self).vertical_sliders@,
            final(self).draggables@ == old(self).draggables@,
            final(self).labels@ == old(self).labels@,
            r.is_none() ==> !has_slider_id(old(self).sliders@, id) && final(self).sliders@ == old(
                self,
            ).sliders@,
            r.is_some() ==> ({
                let taken = *r.unwrap();
                let written = *final(r.unwrap());
                taken.id == id && exists|i: int|
                    0 <= i < old(self).sliders@.len() && old(self).sliders@[i] == taken && (forall|
                        j: int,
                    |
                        0 <= j < i ==> old(self).sliders@[j].id != id) && final(self).sliders@ == old(
                        self,
                    ).sliders@.update(i, written)
            }),
    {
        let mut i: usize = 0;
        let n = self.sliders.len();
        while i < n
            invariant
                *self == *old(self),
                n == self.sliders@.len(),
                i <= n,
                forall|j: int| 0 <= j < i ==> self.sliders@[j].id != id,
            decreases n - i,
        {
            if self.sliders[i].id == id {
                return Some(&mut self.sliders[i]);
            }
            i = i + 1;
        }
        None
    }

    /// A mutable reference to the first vertical slider carrying the id, if any.
    /// Everything else in the container is left as it was.
    pub fn get_vertical_slider_mut(&mut self, id: u32) -> (r: Option<&mut VerticalSlider>)
        ensures
            final(self).el_to_tag_map@ == old(self).el_to_tag_map@,
            final(self).buttons@ == old(self).buttons@,
            final(self).sliders@ == old(self).sliders@,
            final(self).draggables@ == old(self).draggables@,
            final(self).labels@ == old(self).labels@,
            r.is_none() ==> !has_vertical_slider_id(old(self).vertical_sliders@, id) && final(self).vertical_sliders@ == old(
                self,
            ).vertical_sliders@,
            r.is_some() ==> ({
                let taken = *r.unwrap();
                let written = *final(r.unwrap());
                taken.id == id && exists|i: int|
                    0 <= i < old(self).vertical_sliders@.len() && old(self).vertical_sliders@[i] == taken && (forall|
                        j: int,
                    |
                        0 <= j < i ==> old(self).vertical_sliders@[j].id != id) && final(self).vertical_sliders@ == old(
                        self,
                    ).vertical_sliders@.update(i, written)
            }),
    {
        let mut i: usize = 0;
        let n = self.vertical_sliders.len();
        while i < n
            invariant
                *self == *old(self),
                n == self.vertical_sliders@.len(),
                i <= n,
                forall|j: int| 0 <= j < i ==> self.vertical_sliders@[j].id != id,
            decreases n - i,
        {
            if self.vertical_sliders[i].id == id {
                return Some(&mut self.vertical_sliders[i]);
            }
            i = i + 1;
        }
        None
    }

    /// A mutable reference to the first draggable carrying the id, if any.
    /// Everything else in the container is left as it was.
    pub fn get_draggable_mut(&mut self, id: u32) -> (r: Option<&mut Draggable>)
        ensures
            final(self).el_to_tag_map@ == old(self).el_to_tag_map@,
            final(self).buttons@ == old(self).buttons@,
            final(self).sliders@ == old(self).sliders@,
            final(self).vertical_sliders@ == old(self).vertical_sliders@,
            final(self).labels@ == old(self).labels@,
            r.is_none() ==> !has_draggable_id(old(self).draggables@, id) && final(self).draggables@ == old(
                self,
            ).draggables@,
            r.is_some() ==> ({
                let taken = *r.unwrap();
                let written = *final(r.unwrap());
                taken.id == id && exists|i: int|
                    0 <= i < old(self).draggables@.len() && old(self).draggables@[i] == taken && (forall|
                        j: int,
                    |
                        0 <= j < i ==> old(self).draggables@[j].id != id) && final(self).draggables@ == old(
                        self,
                    ).draggables@.update(i, written)
            }),
    {
        let mut i: usize = 0;
        let n = self.draggables.len();
        while i < n
            invariant
                *self == *old(self),
                n == self.draggables@.len(),
                i <= n,
                forall|j: int| 0 <= j < i ==> self.draggables@[j].id != id,
            decreases n - i,
        {
            if self.draggables[i].id == id {
                return Some(&mut self.draggables[i]);
            }
            i = i + 1;
        }
        None
    }

    /// A mutable reference to the first label carrying the id, if any.
    /// Everything else in the container is left as it was.
    pub fn get_label_mut(&mut self, id: u32) -> (r: Option<&mut Label>)
        ensures
            final(self).el_to_tag_map@ == old(self).el_to_tag_map@,
            final(self).buttons@ == old(self).buttons@,
            final(self).sliders@ == old(self).sliders@,
            final(self).vertical_sliders@ == old(self).vertical_sliders@,
            final(self).draggables@ == old(self).draggables@,
            r.is_none() ==> !has_label_id(old(self).labels@, id) && final(self).labels@ == old(
                self,
            ).labels@,
            r.is_some() ==> ({
                let taken = *r.unwrap();
                let written = *final(r.unwrap());
                taken.id == id && exists|i: int|
                    0 <= i < old(self).labels@.len() && old(self).labels@[i] == taken && (forall|
                        j: int,
                    |
                        0 <= j < i ==> old(self).labels@[j].id != id) && final(self).labels@ == old(
                        self,
                    ).labels@.update(i, written)
            }),
    {
        let mut i: usize = 0;
        let n = self.labels.len();
        while i < n
            invariant
                *self == *old(self),
                n == self.labels@.len(),
                i <= n,
                forall|j: int| 0 <= j < i ==> self.labels@[j].id != id,
            decreases n - i,
        {
            if self.labels[i].id == id {
                return Some(&mut self.labels[i]);
            }
            i = i + 1;
        }
        None
    }
}

/// Appending a button reaches exactly the ids reached before, plus the
/// new button's id.
proof fn lemma_push_has_id_button(bs: Seq<Button>, b: Button)
    ensures
        forall|x: u32| #[trigger]
            has_button_id(bs.push(b), x) <==> has_button_id(bs, x) || b.id == x,
{
    assert forall|x: u32| #[trigger] has_button_id(bs.push(b), x) implies has_button_id(bs, x)
        || b.id == x by {
        let i = choose|i: int| 0 <= i < bs.push(b).len() && bs.push(b)[i].id == x;
        if i < bs.len() {
            assert(bs[i].id == x);
        }
    }
    assert forall|x: u32| has_button_id(bs, x) || b.id == x implies #[trigger] has_button_id(
        bs.push(b),
        x,
    ) by {
        if has_button_id(bs, x) {
            let i = choose|i: int| 0 <= i < bs.len() && bs[i].id == x;
            assert(bs.push(b)[i].id == x);
        } else {
            assert(bs.push(b)[bs.len() as int].id == x);
        }
    }
}

/// Appending a slider reaches exactly the ids reached before, plus the
/// new slider's id.
proof fn lemma_push_has_id_slider(ss: Seq<Slider>, s: Slider)
    ensures
        forall|x: u32| #[trigger]
            has_slider_id(ss.push(s), x) <==> has_slider_id(ss, x) || s.id == x,
{
    assert forall|x: u32| #[trigger] has_slider_id(ss.push(s), x) implies has_slider_id(ss, x)
        || s.id == x by {
        let i = choose|i: int| 0 <= i < ss.push(s).len() && ss.push(s)[i].id == x;
        if i < ss.len() {
            assert(ss[i].id == x);
        }
    }
    assert forall|x: u32| has_slider_id(ss, x) || s.id == x implies #[trigger] has_slider_id(
        ss.push(s),
        x,
    ) by {
        if has_slider_id(ss, x) {
            let i = choose|i: int| 0 <= i < ss.len() && ss[i].id == x;
            assert(ss.push(s)[i].id == x);
        } else {
            assert(ss.push(s)[ss.len() as int].id == x);
        }
    }
}

/// Appending a vertical slider reaches exactly the ids reached before,
/// plus the new slider's id.
proof fn lemma_push_has_id_vertical_slider(vs: Seq<VerticalSlider>, v: VerticalSlider)
    ensures
        forall|x: u32| #[trigger]
            has_vertical_slider_id(vs.push(v), x) <==> has_vertical_slider_id(vs, x) || v.id
                == x,
{
    assert forall|x: u32| #[trigger]
        has_vertical_slider_id(vs.push(v), x) implies has_vertical_slider_id(vs, x) || v.id
        == x by {
        let i = choose|i: int| 0 <= i < vs.push(v).len() && vs.push(v)[i].id == x;
        if i < vs.len() {
            assert(vs[i].id == x);
        }
    }
    assert forall|x: u32|
        has_vertical_slider_id(vs, x) || v.id == x implies #[trigger] has_vertical_slider_id(
        vs.push(v),
        x,
    ) by {
        if has_vertical_slider_id(vs, x) {
            let i = choose|i: int| 0 <= i < vs.len() && vs[i].id == x;
            assert(vs.push(v)[i].id == x);
        } else {
            assert(vs.push(v)[vs.len() as int].id == x);
        }
    }
}

/// Appending a draggable reaches exactly the ids reached before, plus
/// the new draggable's id.
proof fn lemma_push_has_id_draggable(ds: Seq<Draggable>, d: Draggable)
    ensures
        forall|x: u32| #[trigger]
            has_draggable_id(ds.push(d), x) <==> has_draggable_id(ds, x) || d.id == x,
{
    assert forall|x: u32| #[trigger] has_draggable_id(ds.push(d), x) implies has_draggable_id(
        ds,
        x,
    ) || d.id == x by {
        let i = choose|i: int| 0 <= i < ds.push(d).len() && ds.push(d)[i].id == x;
        if i < ds.len() {
            assert(ds[i].id == x);
        }
    }
    assert forall|x: u32| has_draggable_id(ds, x) || d.id == x implies #[trigger] has_draggable_id(
        ds.push(d),
        x,
    ) by {
        if has_draggable_id(ds, x) {
            let i = choose|i: int| 0 <= i < ds.len() && ds[i].id == x;
            assert(ds.push(d)[i].id == x);
        } else {
            assert(ds.push(d)[ds.len() as int].id == x);
        }
    }
}

/// Appending a label reaches exactly the ids reached before, plus the
/// new label's id.
proof fn lemma_push_has_id_label(ls: Seq<Label>, l: Label)
    ensures
        forall|x: u32| #[trigger] has_label_id(ls.push(l), x) <==> has_label_id(ls, x) || l.id == x,
{
    assert forall|x: u32| #[trigger] has_label_id(ls.push(l), x) implies has_label_id(ls, x)
        || l.id == x by {
        let i = choose|i: int| 0 <= i < ls.push(l).len() && ls.push(l)[i].id == x;
        if i < ls.len() {
            assert(ls[i].id == x);
        }
    }
    assert forall|x: u32| has_label_id(ls, x) || l.id == x implies #[trigger] has_label_id(
        ls.push(l),
        x,
    ) by {
        if has_label_id(ls, x) {
            let i = choose|i: int| 0 <= i < ls.len() && ls[i].id == x;
            assert(ls.push(l)[i].id == x);
        } else {
            assert(ls.push(l)[ls.len() as int].id == x);
        }
    }
}

/// Appending a button with a fresh id, paired with its tag entry,
/// preserves the container invariant.
proof fn lemma_add_button_wf<T: Copy>(pre: Gui<T>, post: Gui<T>, w: Button, tag: T)
    requires
        pre.wf(),
                !pre.has_any_id(w.id),
        post.buttons@ == pre.buttons@.push(w),
        post.el_to_tag_map@ == pre.el_to_tag_map@.insert(w.id, tag),
        post.sliders@ == pre.sliders@,
        post.vertical_sliders@ == pre.vertical_sliders@,
        post.draggables@ == pre.draggables@,
        post.labels@ == pre.labels@,
    ensures
        post.wf(),
{
    lemma_push_has_id_button(pre.buttons@, w);
    assert forall|i: int, j: int|
        0 <= i < j < post.buttons@.len() implies post.buttons@[i].id != post.buttons@[j].id by {
        assert(post.buttons@[i] == pre.buttons@[i]);
        if j == pre.buttons@.len() {
            if pre.buttons@[i].id == w.id {
                assert(has_button_id(pre.buttons@, w.id));
            }
        } else {
            assert(post.buttons@[j] == pre.buttons@[j]);
        }
    }
    assert(post.tags_in_sync()) by {
        assert forall|x: u32|
            post.el_to_tag_map@.contains_key(x) <==> #[trigger] post.has_interactive_id(x) by {
            assert(has_button_id(post.buttons@, x) <==> has_button_id(pre.buttons@, x) || w.id == x);
            assert(pre.el_to_tag_map@.contains_key(x) <==> pre.has_interactive_id(x));
        }
    }
    assert(post.ids_unique_across_kinds()) by {
        assert forall|x: u32| #[trigger]
            has_button_id(post.buttons@, x) implies has_button_id(pre.buttons@, x) || x == w.id by {
            assert(has_button_id(post.buttons@, x) <==> has_button_id(pre.buttons@, x) || w.id == x);
        }
    }
}

/// Appending a slider with a fresh id, paired with its tag entry,
/// preserves the container invariant.
proof fn lemma_add_slider_wf<T: Copy>(pre: Gui<T>, post: Gui<T>, w: Slider, tag: T)
    requires
        pre.wf(),
                w.wf(),
        !pre.has_any_id(w.id),
        post.sliders@ == pre.sliders@.push(w),
        post.el_to_tag_map@ == pre.el_to_tag_map@.insert(w.id, tag),
        post.buttons@ == pre.buttons@,
        post.vertical_sliders@ == pre.vertical_sliders@,
        post.draggables@ == pre.draggables@,
        post.labels@ == pre.labels@,
    ensures
        post.wf(),
{
    lemma_push_has_id_slider(pre.sliders@, w);
    assert forall|i: int, j: int|
        0 <= i < j < post.sliders@.len() implies post.sliders@[i].id != post.sliders@[j].id by {
        assert(post.sliders@[i] == pre.sliders@[i]);
        if j == pre.sliders@.len() {
            if pre.sliders@[i].id == w.id {
                assert(has_slider_id(pre.sliders@, w.id));
            }
        } else {
            assert(post.sliders@[j] == pre.sliders@[j]);
        }
    }
    assert(post.tags_in_sync()) by {
        assert forall|x: u32|
            post.el_to_tag_map@.contains_key(x) <==> #[trigger] post.has_interactive_id(x) by {
            assert(has_slider_id(post.sliders@, x) <==> has_slider_id(pre.sliders@, x) || w.id == x);
            assert(pre.el_to_tag_map@.contains_key(x) <==> pre.has_interactive_id(x));
        }
    }
    assert(post.ids_unique_across_kinds()) by {
        assert forall|x: u32| #[trigger]
            has_slider_id(post.sliders@, x) implies has_slider_id(pre.sliders@, x) || x == w.id by {
            assert(has_slider_id(post.sliders@, x) <==> has_slider_id(pre.sliders@, x) || w.id == x);
        }
    }
}

/// Appending a vertical slider with a fresh id, paired with its tag entry,
/// preserves the container invariant.
proof fn lemma_add_vertical_slider_wf<T: Copy>(pre: Gui<T>, post: Gui<T>, w: VerticalSlider, tag: T)
    requires
        pre.wf(),
                w.wf(),
        !pre.has_any_id(w.id),
        post.vertical_sliders@ == pre.vertical_sliders@.push(w),
        post.el_to_tag_map@ == pre.el_to_tag_map@.insert(w.id, tag),
        post.buttons@ == pre.buttons@,
        post.sliders@ == pre.sliders@,
        post.draggables@ == pre.draggables@,
        post.labels@ == pre.labels@,
    ensures
        post.wf(),
{
    lemma_push_has_id_vertical_slider(pre.vertical_sliders@, w);
    assert forall|i: int, j: int|
        0 <= i < j < post.vertical_sliders@.len() implies post.vertical_sliders@[i].id != post.vertical_sliders@[j].id by {
        assert(post.vertical_sliders@[i] == pre.vertical_sliders@[i]);
        if j == pre.vertical_sliders@.len() {
            if pre.vertical_sliders@[i].id == w.id {
                assert(has_vertical_slider_id(pre.vertical_sliders@, w.id));
            }
        } else {
            assert(post.vertical_sliders@[j] == pre.vertical_sliders@[j]);
        }
    }
    assert(post.tags_in_sync()) by {
        assert forall|x: u32|
            post.el_to_tag_map@.contains_key(x) <==> #[trigger] post.has_interactive_id(x) by {
            assert(has_vertical_slider_id(post.vertical_sliders@, x) <==> has_vertical_slider_id(pre.vertical_sliders@, x) || w.id == x);
            assert(pre.el_to_tag_map@.contains_key(x) <==> pre.has_interactive_id(x));
        }
    }
    assert(post.ids_unique_across_kinds()) by {
        assert forall|x: u32| #[trigger]
            has_vertical_slider_id(post.vertical_sliders@, x) implies has_vertical_slider_id(pre.vertical_sliders@, x) || x == w.id by {
            assert(has_vertical_slider_id(post.vertical_sliders@, x) <==> has_vertical_slider_id(pre.vertical_sliders@, x) || w.id == x);
        }
    }
}

/// Appending a draggable with a fresh id, paired with its tag entry,
/// preserves the container invariant.
proof fn lemma_add_draggable_wf<T: Copy>(pre: Gui<T>, post: Gui<T>, w: Draggable, tag: T)
    requires
        pre.wf(),
                w.wf(),
        !pre.has_any_id(w.id),
        post.draggables@ == pre.draggables@.push(w),
        post.el_to_tag_map@ == pre.el_to_tag_map@.insert(w.id, tag),
        post.buttons@ == pre.buttons@,
        post.sliders@ == pre.sliders@,
        post.vertical_sliders@ == pre.vertical_sliders@,
        post.labels@ == pre.labels@,
    ensures
        post.wf(),
{
    lemma_push_has_id_draggable(pre.draggables@, w);
    assert forall|i: int, j: int|
        0 <= i < j < post.draggables@.len() implies post.draggables@[i].id != post.draggables@[j].id by {
        assert(post.draggables@[i] == pre.draggables@[i]);
        if j == pre.draggables@.len() {
            if pre.draggables@[i].id == w.id {
                assert(has_draggable_id(pre.draggables@, w.id));
            }
        } else {
            assert(post.draggables@[j] == pre.draggables@[j]);
        }
    }
    assert(post.tags_in_sync()) by {
        assert forall|x: u32|
            post.el_to_tag_map@.contains_key(x) <==> #[trigger] post.has_interactive_id(x) by {
            assert(has_draggable_id(post.draggables@, x) <==> has_draggable_id(pre.draggables@, x) || w.id == x);
            assert(pre.el_to_tag_map@.contains_key(x) <==> pre.has_interactive_id(x));
        }
    }
    assert(post.ids_unique_across_kinds()) by {
        assert forall|x: u32| #[trigger]
            has_draggable_id(post.draggables@, x) implies has_draggable_id(pre.draggables@, x) || x == w.id by {
            assert(has_draggable_id(post.draggables@, x) <==> has_draggable_id(pre.draggables@, x) || w.id == x);
        }
    }
}

/// Appending a label with a fresh id preserves the container invariant.
/// Labels take no tag entry.
proof fn lemma_add_label_wf<T: Copy>(pre: Gui<T>, post: Gui<T>, w: Label)
    requires
        pre.wf(),
        !pre.has_any_id(w.id),
        post.labels@ == pre.labels@.push(w),
        post.el_to_tag_map@ == pre.el_to_tag_map@,
        post.buttons@ == pre.buttons@,
        post.sliders@ == pre.sliders@,
        post.vertical_sliders@ == pre.vertical_sliders@,
        post.draggables@ == pre.draggables@,
    ensures
        post.wf(),
{
    lemma_push_has_id_label(pre.labels@, w);
    assert forall|i: int, j: int|
        0 <= i < j < post.labels@.len() implies post.labels@[i].id != post.labels@[j].id by {
        assert(post.labels@[i] == pre.labels@[i]);
        if j == pre.labels@.len() {
            if pre.labels@[i].id == w.id {
                assert(has_label_id(pre.labels@, w.id));
            }
        } else {
            assert(post.labels@[j] == pre.labels@[j]);
        }
    }
    assert(post.tags_in_sync()) by {
        assert forall|x: u32|
            post.el_to_tag_map@.contains_key(x) <==> #[trigger] post.has_interactive_id(x) by {
            assert(pre.el_to_tag_map@.contains_key(x) <==> pre.has_interactive_id(x));
        }
    }
    assert(post.ids_unique_across_kinds()) by {
        assert forall|x: u32| #[trigger]
            has_label_id(post.labels@, x) implies has_label_id(pre.labels@, x) || x == w.id by {
            assert(has_label_id(post.labels@, x) <==> has_label_id(pre.labels@, x) || w.id == x);
        }
    }
}

/// The filter of a one-element sequence keeps or drops that element.
proof fn lemma_filter_singleton<A>(x: A, pred: spec_fn(A) -> bool)
    ensures
        seq![x].filter(pred) == (if pred(x) {
            seq![x]
        } else {
            Seq::<A>::empty()
        }),
{
    reveal_with_fuel(Seq::filter, 2);
    assert(seq![x].drop_last() =~= Seq::<A>::empty());
    assert(seq![x].last() == x);
    if pred(x) {
        assert(seq![x].filter(pred) =~= seq![x]);
    } else {
        assert(seq![x].filter(pred) =~= Seq::<A>::empty());
    }
}

/// Filtering peels off a front element: with x in front of t, the
/// filter is x (when kept) followed by the filter of t.
proof fn lemma_filter_unfold_front<A>(x: A, t: Seq<A>, pred: spec_fn(A) -> bool)
    ensures
        (seq![x] + t).filter(pred) == (if pred(x) {
            seq![x]
        } else {
            Seq::<A>::empty()
        }) + t.filter(pred),
{
    Seq::filter_distributes_over_add(seq![x], t, pred);
    lemma_filter_singleton(x, pred);
}

/// Filtering a sequence of pairwise distinct keys leaves the kept keys
/// pairwise distinct.
proof fn lemma_filter_keeps_distinct<A>(s: Seq<A>, pred: spec_fn(A) -> bool, key: spec_fn(A) -> u32)
    requires
        forall|i: int, j: int| 0 <= i < j < s.len() ==> key(s[i]) != key(s[j]),
    ensures
        forall|i: int, j: int|
            0 <= i < j < s.filter(pred).len() ==> key(s.filter(pred)[i]) != key(s.filter(pred)[j]),
    decreases s.len(),
{
    reveal(Seq::filter);
    if s.len() > 0 {
        let d = s.drop_last();
        let last = s.last();
        assert forall|i: int, j: int| 0 <= i < j < d.len() implies key(d[i]) != key(d[j]) by {
            assert(d[i] == s[i] && d[j] == s[j]);
        }
        lemma_filter_keeps_distinct(d, pred, key);
        let fd = d.filter(pred);
        let f = s.filter(pred);
        if pred(last) {
            assert(f == fd.push(last));
            assert forall|k: int| 0 <= k < fd.len() implies key(fd[k]) != key(last) by {
                assert(fd.contains(fd[k]));
                d.lemma_filter_contains_rev(pred, fd[k]);
                let m = choose|m: int| 0 <= m < d.len() && d[m] == fd[k];
                assert(s[m] == fd[k] && s[s.len() - 1] == last);
            }
            assert forall|i: int, j: int| 0 <= i < j < f.len() implies key(f[i]) != key(f[j]) by {
                if j < fd.len() {
                    assert(f[i] == fd[i] && f[j] == fd[j]);
                } else {
                    assert(f[i] == fd[i] && f[j] == last);
                }
            }
        } else {
            assert(f == fd);
        }
    }
}

/// Filtering out one id from the button collection removes exactly that
/// id: it is gone, every other id is reached as before, and every kept
/// button is one of the originals.
proof fn lemma_buttons_without(s: Seq<Button>, f: Seq<Button>, id: u32)
    requires
        f == s.filter(|w: Button| w.id != id),
    ensures
        !has_button_id(f, id),
        forall|x: u32| x != id ==> (#[trigger] has_button_id(f, x) <==> has_button_id(s, x)),
        forall|k: int| 0 <= k < f.len() ==> s.contains(#[trigger] f[k]),
{
    broadcast use vstd::seq_lib::group_filter_ensures;

    let pred = |w: Button| w.id != id;
    assert forall|k: int| 0 <= k < f.len() implies s.contains(#[trigger] f[k]) by {
        assert(f.contains(f[k]));
        s.lemma_filter_contains_rev(pred, f[k]);
    }
    assert forall|k: int| 0 <= k < f.len() implies f[k].id != id by {
        assert(pred(f[k]));
    }
    assert forall|x: u32| x != id implies (#[trigger] has_button_id(f, x) <==> has_button_id(
        s,
        x,
    )) by {
        if has_button_id(f, x) {
            let k = choose|k: int| 0 <= k < f.len() && f[k].id == x;
            assert(s.contains(f[k]));
            let m = choose|m: int| 0 <= m < s.len() && s[m] == f[k];
            assert(has_button_id(s, x));
        }
        if has_button_id(s, x) {
            let m = choose|m: int| 0 <= m < s.len() && s[m].id == x;
            assert(pred(s[m]));
            assert(f.contains(s[m]));
            let k = choose|k: int| 0 <= k < f.len() && f[k] == s[m];
            assert(has_button_id(f, x));
        }
    }
}

/// Filtering out one id from the slider collection removes exactly that
/// id: it is gone, every other id is reached as before, and every kept
/// slider is one of the originals.
proof fn lemma_sliders_without(s: Seq<Slider>, f: Seq<Slider>, id: u32)
    requires
        f == s.filter(|w: Slider| w.id != id),
    ensures
        !has_slider_id(f, id),
        forall|x: u32| x != id ==> (#[trigger] has_slider_id(f, x) <==> has_slider_id(s, x)),
        forall|k: int| 0 <= k < f.len() ==> s.contains(#[trigger] f[k]),
{
    broadcast use vstd::seq_lib::group_filter_ensures;

    let pred = |w: Slider| w.id != id;
    assert forall|k: int| 0 <= k < f.len() implies s.contains(#[trigger] f[k]) by {
        assert(f.contains(f[k]));
        s.lemma_filter_contains_rev(pred, f[k]);
    }
    assert forall|k: int| 0 <= k < f.len() implies f[k].id != id by {
        assert(pred(f[k]));
    }
    assert forall|x: u32| x != id implies (#[trigger] has_slider_id(f, x) <==> has_slider_id(
        s,
        x,
    )) by {
        if has_slider_id(f, x) {
            let k = choose|k: int| 0 <= k < f.len() && f[k].id == x;
            assert(s.contains(f[k]));
            let m = choose|m: int| 0 <= m < s.len() && s[m] == f[k];
            assert(has_slider_id(s, x));
        }
        if has_slider_id(s, x) {
            let m = choose|m: int| 0 <= m < s.len() && s[m].id == x;
            assert(pred(s[m]));
            assert(f.contains(s[m]));
            let k = choose|k: int| 0 <= k < f.len() && f[k] == s[m];
            assert(has_slider_id(f, x));
        }
    }
}

/// Filtering out one id from the vertical slider collection removes exactly that
/// id: it is gone, every other id is reached as before, and every kept
/// vertical slider is one of the originals.
proof fn lemma_vertical_sliders_without(s: Seq<VerticalSlider>, f: Seq<VerticalSlider>, id: u32)
    requires
        f == s.filter(|w: VerticalSlider| w.id != id),
    ensures
        !has_vertical_slider_id(f, id),
        forall|x: u32| x != id ==> (#[trigger] has_vertical_slider_id(f, x) <==> has_vertical_slider_id(s, x)),
        forall|k: int| 0 <= k < f.len() ==> s.contains(#[trigger] f[k]),
{
    broadcast use vstd::seq_lib::group_filter_ensures;

    let pred = |w: VerticalSlider| w.id != id;
    assert forall|k: int| 0 <= k < f.len() implies s.contains(#[trigger] f[k]) by {
        assert(f.contains(f[k]));
        s.lemma_filter_contains_rev(pred, f[k]);
    }
    assert forall|k: int| 0 <= k < f.len() implies f[k].id != id by {
        assert(pred(f[k]));
    }
    assert forall|x: u32| x != id implies (#[trigger] has_vertical_slider_id(f, x) <==> has_vertical_slider_id(
        s,
        x,
    )) by {
        if has_vertical_slider_id(f, x) {
            let k = choose|k: int| 0 <= k < f.len() && f[k].id == x;
            assert(s.contains(f[k]));
            let m = choose|m: int| 0 <= m < s.len() && s[m] == f[k];
            assert(has_vertical_slider_id(s, x));
        }
        if has_vertical_slider_id(s, x) {
            let m = choose|m: int| 0 <= m < s.len() && s[m].id == x;
            assert(pred(s[m]));
            assert(f.contains(s[m]));
            let k = choose|k: int| 0 <= k < f.len() && f[k] == s[m];
            assert(has_vertical_slider_id(f, x));
        }
    }
}

/// Filtering out one id from the draggable collection removes exactly that
/// id: it is gone, every other id is reached as before, and every kept
/// draggable is one of the originals.
proof fn lemma_draggables_without(s: Seq<Draggable>, f: Seq<Draggable>, id: u32)
    requires
        f == s.filter(|w: Draggable| w.id != id),
    ensures
        !has_draggable_id(f, id),
        forall|x: u32| x != id ==> (#[trigger] has_draggable_id(f, x) <==> has_draggable_id(s, x)),
        forall|k: int| 0 <= k < f.len() ==> s.contains(#[trigger] f[k]),
{
    broadcast use vstd::seq_lib::group_filter_ensures;

    let pred = |w: Draggable| w.id != id;
    assert forall|k: int| 0 <= k < f.len() implies s.contains(#[trigger] f[k]) by {
        assert(f.contains(f[k]));
        s.lemma_filter_contains_rev(pred, f[k]);
    }
    assert forall|k: int| 0 <= k < f.len() implies f[k].id != id by {
        assert(pred(f[k]));
    }
    assert forall|x: u32| x != id implies (#[trigger] has_draggable_id(f, x) <==> has_draggable_id(
        s,
        x,
    )) by {
        if has_draggable_id(f, x) {
            let k = choose|k: int| 0 <= k < f.len() && f[k].id == x;
            assert(s.contains(f[k]));
            let m = choose|m: int| 0 <= m < s.len() && s[m] == f[k];
            assert(has_draggable_id(s, x));
        }
        if has_draggable_id(s, x) {
            let m = choose|m: int| 0 <= m < s.len() && s[m].id == x;
            assert(pred(s[m]));
            assert(f.contains(s[m]));
            let k = choose|k: int| 0 <= k < f.len() && f[k] == s[m];
            assert(has_draggable_id(f, x));
        }
    }
}

/// Filtering out one id from the label collection removes exactly that
/// id: it is gone, every other id is reached as before, and every kept
/// label is one of the originals.
proof fn lemma_labels_without(s: Seq<Label>, f: Seq<Label>, id: u32)
    requires
        f == s.filter(|w: Label| w.id != id),
    ensures
        !has_label_id(f, id),
        forall|x: u32| x != id ==> (#[trigger] has_label_id(f, x) <==> has_label_id(s, x)),
        forall|k: int| 0 <= k < f.len() ==> s.contains(#[trigger] f[k]),
{
    broadcast use vstd::seq_lib::group_filter_ensures;

    let pred = |w: Label| w.id != id;
    assert forall|k: int| 0 <= k < f.len() implies s.contains(#[trigger] f[k]) by {
        assert(f.contains(f[k]));
        s.lemma_filter_contains_rev(pred, f[k]);
    }
    assert forall|k: int| 0 <= k < f.len() implies f[k].id != id by {
        assert(pred(f[k]));
    }
    assert forall|x: u32| x != id implies (#[trigger] has_label_id(f, x) <==> has_label_id(
        s,
        x,
    )) by {
        if has_label_id(f, x) {
            let k = choose|k: int| 0 <= k < f.len() && f[k].id == x;
            assert(s.contains(f[k]));
            let m = choose|m: int| 0 <= m < s.len() && s[m] == f[k];
            assert(has_label_id(s, x));
        }
        if has_label_id(s, x) {
            let m = choose|m: int| 0 <= m < s.len() && s[m].id == x;
            assert(pred(s[m]));
            assert(f.contains(s[m]));
            let k = choose|k: int| 0 <= k < f.len() && f[k] == s[m];
            assert(has_label_id(f, x));
        }
    }
}

/// Removing one id from the button collection together with its tag entry
/// preserves the container invariant, provided the id belongs to a
/// button or to nothing at all.
proof fn lemma_remove_button_wf<T: Copy>(pre: Gui<T>, post: Gui<T>, id: u32)
    requires
        pre.wf(),
        has_button_id(pre.buttons@, id) || !pre.el_to_tag_map@.contains_key(id),
        post.buttons@ == pre.buttons@.filter(|w: Button| w.id != id),
        post.el_to_tag_map@ == pre.el_to_tag_map@.remove(id),
        post.sliders@ == pre.sliders@,
        post.vertical_sliders@ == pre.vertical_sliders@,
        post.draggables@ == pre.draggables@,
        post.labels@ == pre.labels@,
    ensures
        post.wf(),
{
    let pred = |w: Button| w.id != id;
    lemma_buttons_without(pre.buttons@, post.buttons@, id);
    lemma_filter_keeps_distinct(pre.buttons@, pred, |w: Button| w.id);
    assert(post.widgets_ok()) by {
        
    }
    assert(post.tags_in_sync()) by {
        assert forall|x: u32|
            post.el_to_tag_map@.contains_key(x) <==> #[trigger] post.has_interactive_id(x) by {
            assert(pre.el_to_tag_map@.contains_key(x) <==> pre.has_interactive_id(x));
            if x == id {
                assert(!has_button_id(post.buttons@, id));
                if pre.el_to_tag_map@.contains_key(id) {
                    assert(has_button_id(pre.buttons@, id));
                }
            }
        }
    }
    assert(post.ids_unique_across_kinds()) by {
        assert forall|x: u32| #[trigger]
            has_button_id(post.buttons@, x) implies has_button_id(pre.buttons@, x) && x != id by {
            let k = choose|k: int| 0 <= k < post.buttons@.len() && post.buttons@[k].id == x;
            assert(pre.buttons@.contains(post.buttons@[k]));
            let m = choose|m: int| 0 <= m < pre.buttons@.len() && pre.buttons@[m] == post.buttons@[k];
            assert(has_button_id(pre.buttons@, x));
        }
    }
}

/// Removing one id from the slider collection together with its tag entry
/// preserves the container invariant, provided the id belongs to a
/// slider or to nothing at all.
proof fn lemma_remove_slider_wf<T: Copy>(pre: Gui<T>, post: Gui<T>, id: u32)
    requires
        pre.wf(),
        has_slider_id(pre.sliders@, id) || !pre.el_to_tag_map@.contains_key(id),
        post.sliders@ == pre.sliders@.filter(|w: Slider| w.id != id),
        post.el_to_tag_map@ == pre.el_to_tag_map@.remove(id),
        post.buttons@ == pre.buttons@,
        post.vertical_sliders@ == pre.vertical_sliders@,
        post.draggables@ == pre.draggables@,
        post.labels@ == pre.labels@,
    ensures
        post.wf(),
{
    let pred = |w: Slider| w.id != id;
    lemma_sliders_without(pre.sliders@, post.sliders@, id);
    lemma_filter_keeps_distinct(pre.sliders@, pred, |w: Slider| w.id);
    assert(post.widgets_ok()) by {
        assert forall|k: int|
            0 <= k < post.sliders@.len() implies (#[trigger] post.sliders@[k]).wf() by {
            assert(pre.sliders@.contains(post.sliders@[k]));
            let m = choose|m: int| 0 <= m < pre.sliders@.len() && pre.sliders@[m] == post.sliders@[k];
        }
    }
    assert(post.tags_in_sync()) by {
        assert forall|x: u32|
            post.el_to_tag_map@.contains_key(x) <==> #[trigger] post.has_interactive_id(x) by {
            assert(pre.el_to_tag_map@.contains_key(x) <==> pre.has_interactive_id(x));
            if x == id {
                assert(!has_slider_id(post.sliders@, id));
                if pre.el_to_tag_map@.contains_key(id) {
                    assert(has_slider_id(pre.sliders@, id));
                }
            }
        }
    }
    assert(post.ids_unique_across_kinds()) by {
        assert forall|x: u32| #[trigger]
            has_slider_id(post.sliders@, x) implies has_slider_id(pre.sliders@, x) && x != id by {
            let k = choose|k: int| 0 <= k < post.sliders@.len() && post.sliders@[k].id == x;
            assert(pre.sliders@.contains(post.sliders@[k]));
            let m = choose|m: int| 0 <= m < pre.sliders@.len() && pre.sliders@[m] == post.sliders@[k];
            assert(has_slider_id(pre.sliders@, x));
        }
    }
}

/// Removing one id from the vertical slider collection together with its tag entry
/// preserves the container invariant, provided the id belongs to a
/// vertical slider or to nothing at all.
proof fn lemma_remove_vertical_slider_wf<T: Copy>(pre: Gui<T>, post: Gui<T>, id: u32)
    requires
        pre.wf(),
        has_vertical_slider_id(pre.vertical_sliders@, id) || !pre.el_to_tag_map@.contains_key(id),
        post.vertical_sliders@ == pre.vertical_sliders@.filter(|w: VerticalSlider| w.id != id),
        post.el_to_tag_map@ == pre.el_to_tag_map@.remove(id),
        post.buttons@ == pre.buttons@,
        post.sliders@ == pre.sliders@,
        post.draggables@ == pre.draggables@,
        post.labels@ == pre.labels@,
    ensures
        post.wf(),
{
    let pred = |w: VerticalSlider| w.id != id;
    lemma_vertical_sliders_without(pre.vertical_sliders@, post.vertical_sliders@, id);
    lemma_filter_keeps_distinct(pre.vertical_sliders@, pred, |w: VerticalSlider| w.id);
    assert(post.widgets_ok()) by {
        assert forall|k: int|
            0 <= k < post.vertical_sliders@.len() implies (#[trigger] post.vertical_sliders@[k]).wf() by {
            assert(pre.vertical_sliders@.contains(post.vertical_sliders@[k]));
            let m = choose|m: int| 0 <= m < pre.vertical_sliders@.len() && pre.vertical_sliders@[m] == post.vertical_sliders@[k];
        }
    }
    assert(post.tags_in_sync()) by {
        assert forall|x: u32|
            post.el_to_tag_map@.contains_key(x) <==> #[trigger] post.has_interactive_id(x) by {
            assert(pre.el_to_tag_map@.contains_key(x) <==> pre.has_interactive_id(x));
            if x == id {
                assert(!has_vertical_slider_id(post.vertical_sliders@, id));
                if pre.el_to_tag_map@.contains_key(id) {
                    assert(has_vertical_slider_id(pre.vertical_sliders@, id));
                }
            }
        }
    }
    assert(post.ids_unique_across_kinds()) by {
        assert forall|x: u32| #[trigger]
            has_vertical_slider_id(post.vertical_sliders@, x) implies has_vertical_slider_id(pre.vertical_sliders@, x) && x != id by {
            let k = choose|k: int| 0 <= k < post.vertical_sliders@.len() && post.vertical_sliders@[k].id == x;
            assert(pre.vertical_sliders@.contains(post.vertical_sliders@[k]));
            let m = choose|m: int| 0 <= m < pre.vertical_sliders@.len() && pre.vertical_sliders@[m] == post.vertical_sliders@[k];
            assert(has_vertical_slider_id(pre.vertical_sliders@, x));
        }
    }
}

/// Removing one id from the draggable collection together with its tag entry
/// preserves the container invariant, provided the id belongs to a
/// draggable or to nothing at all.
proof fn lemma_remove_draggable_wf<T: Copy>(pre: Gui<T>, post: Gui<T>, id: u32)
    requires
        pre.wf(),
        has_draggable_id(pre.draggables@, id) || !pre.el_to_tag_map@.contains_key(id),
        post.draggables@ == pre.draggables@.filter(|w: Draggable| w.id != id),
        post.el_to_tag_map@ == pre.el_to_tag_map@.remove(id),
        post.buttons@ == pre.buttons@,
        post.sliders@ == pre.sliders@,
        post.vertical_sliders@ == pre.vertical_sliders@,
        post.labels@ == pre.labels@,
    ensures
        post.wf(),
{
    let pred = |w: Draggable| w.id != id;
    lemma_draggables_without(pre.draggables@, post.draggables@, id);
    lemma_filter_keeps_distinct(pre.draggables@, pred, |w: Draggable| w.id);
    assert(post.widgets_ok()) by {
        assert forall|k: int|
            0 <= k < post.draggables@.len() implies (#[trigger] post.draggables@[k]).wf() by {
            assert(pre.draggables@.contains(post.draggables@[k]));
            let m = choose|m: int| 0 <= m < pre.draggables@.len() && pre.draggables@[m] == post.draggables@[k];
        }
    }
    assert(post.tags_in_sync()) by {
        assert forall|x: u32|
            post.el_to_tag_map@.contains_key(x) <==> #[trigger] post.has_interactive_id(x) by {
            assert(pre.el_to_tag_map@.contains_key(x) <==> pre.has_interactive_id(x));
            if x == id {
                assert(!has_draggable_id(post.draggables@, id));
                if pre.el_to_tag_map@.contains_key(id) {
                    assert(has_draggable_id(pre.draggables@, id));
                }
            }
        }
    }
    assert(post.ids_unique_across_kinds()) by {
        assert forall|x: u32| #[trigger]
            has_draggable_id(post.draggables@, x) implies has_draggable_id(pre.draggables@, x) && x != id by {
            let k = choose|k: int| 0 <= k < post.draggables@.len() && post.draggables@[k].id == x;
            assert(pre.draggables@.contains(post.draggables@[k]));
            let m = choose|m: int| 0 <= m < pre.draggables@.len() && pre.draggables@[m] == post.draggables@[k];
            assert(has_draggable_id(pre.draggables@, x));
        }
    }
}

/// Removing one id from the label collection preserves the container
/// invariant; labels have no tag entry, so the map is untouched.
proof fn lemma_remove_label_wf<T: Copy>(pre: Gui<T>, post: Gui<T>, id: u32)
    requires
        pre.wf(),
        post.labels@ == pre.labels@.filter(|w: Label| w.id != id),
        post.el_to_tag_map@ == pre.el_to_tag_map@,
        post.buttons@ == pre.buttons@,
        post.sliders@ == pre.sliders@,
        post.vertical_sliders@ == pre.vertical_sliders@,
        post.draggables@ == pre.draggables@,
    ensures
        post.wf(),
{
    lemma_labels_without(pre.labels@, post.labels@, id);
    lemma_filter_keeps_distinct(pre.labels@, |w: Label| w.id != id, |w: Label| w.id);
    assert(post.tags_in_sync()) by {
        assert forall|x: u32|
            post.el_to_tag_map@.contains_key(x) <==> #[trigger] post.has_interactive_id(x) by {
            assert(pre.el_to_tag_map@.contains_key(x) <==> pre.has_interactive_id(x));
        }
    }
    assert(post.ids_unique_across_kinds()) by {
        assert forall|x: u32| #[trigger]
            has_label_id(post.labels@, x) implies has_label_id(pre.labels@, x) by {
            let k = choose|k: int| 0 <= k < post.labels@.len() && post.labels@[k].id == x;
            assert(pre.labels@.contains(post.labels@[k]));
            let m = choose|m: int| 0 <= m < pre.labels@.len() && pre.labels@[m] == post.labels@[k];
            assert(has_label_id(pre.labels@, x));
        }
    }
}

/// The tagged events the buttons emit during one tick, in collection
/// order: a widget's event is appended exactly when the tag map knows
/// its id.
pub open spec fn button_events<T: Copy>(
    tags: Map<u32, T>,
    ws: Seq<Button>,
    m: Vec2,
    down: bool,
) -> Seq<TaggedEvent<T>>
    decreases ws.len(),
{
    if ws.len() == 0 {
        Seq::empty()
    } else {
        let w = ws.last();
        let rest = button_events(tags, ws.drop_last(), m, down);
        match button_event(w, m, down) {
            Some(e) => if tags.contains_key(w.id) {
                rest.push(TaggedEvent { tag: tags[w.id], widget_id: w.id, event: e })
            } else {
                rest
            },
            None => rest,
        }
    }
}

/// The tagged events the sliders emit during one tick, in collection
/// order: a widget's event is appended exactly when the tag map knows
/// its id.
pub open spec fn slider_events<T: Copy>(
    tags: Map<u32, T>,
    ws: Seq<Slider>,
    m: Vec2,
    down: bool,
) -> Seq<TaggedEvent<T>>
    decreases ws.len(),
{
    if ws.len() == 0 {
        Seq::empty()
    } else {
        let w = ws.last();
        let rest = slider_events(tags, ws.drop_last(), m, down);
        match slider_event(w, m, down) {
            Some(e) => if tags.contains_key(w.id) {
                rest.push(TaggedEvent { tag: tags[w.id], widget_id: w.id, event: e })
            } else {
                rest
            },
            None => rest,
        }
    }
}

/// The tagged events the vertical sliders emit during one tick, in collection
/// order: a widget's event is appended exactly when the tag map knows
/// its id.
pub open spec fn vertical_slider_events<T: Copy>(
    tags: Map<u32, T>,
    ws: Seq<VerticalSlider>,
    m: Vec2,
    down: bool,
) -> Seq<TaggedEvent<T>>
    decreases ws.len(),
{
    if ws.len() == 0 {
        Seq::empty()
    } else {
        let w = ws.last();
        let rest = vertical_slider_events(tags, ws.drop_last(), m, down);
        match vertical_slider_event(w, m, down) {
            Some(e) => if tags.contains_key(w.id) {
                rest.push(TaggedEvent { tag: tags[w.id], widget_id: w.id, event: e })
            } else {
                rest
            },
            None => rest,
        }
    }
}

/// The tagged events the draggables emit during one tick, in collection
/// order: a widget's event is appended exactly when the tag map knows
/// its id.
pub open spec fn draggable_events<T: Copy>(
    tags: Map<u32, T>,
    ws: Seq<Draggable>,
    m: Vec2,
    down: bool,
) -> Seq<TaggedEvent<T>>
    decreases ws.len(),
{
    if ws.len() == 0 {
        Seq::empty()
    } else {
        let w = ws.last();
        let rest = draggable_events(tags, ws.drop_last(), m, down);
        match draggable_event(w, m, down) {
            Some(e) => if tags.contains_key(w.id) {
                rest.push(TaggedEvent { tag: tags[w.id], widget_id: w.id, event: e })
            } else {
                rest
            },
            None => rest,
        }
    }
}

/// All tagged events of one tick: each kind's events in collection
/// order, the kinds in the fixed order buttons, sliders, vertical
/// sliders, draggables. Labels never step and never emit.
pub open spec fn gui_events<T: Copy>(
    tags: Map<u32, T>,
    bs: Seq<Button>,
    ss: Seq<Slider>,
    vs: Seq<VerticalSlider>,
    ds: Seq<Draggable>,
    m: Vec2,
    down: bool,
) -> Seq<TaggedEvent<T>> {
    button_events(tags, bs, m, down) + slider_events(tags, ss, m, down) + vertical_slider_events(
        tags,
        vs,
        m,
        down,
    ) + draggable_events(tags, ds, m, down)
}

/// Two button collections with pointwise equal ids reach the same ids.
proof fn lemma_same_ids_button(pre: Seq<Button>, post: Seq<Button>)
    requires
        post.len() == pre.len(),
        forall|k: int| 0 <= k < pre.len() ==> #[trigger] post[k].id == pre[k].id,
    ensures
        forall|x: u32| #[trigger] has_button_id(post, x) <==> has_button_id(pre, x),
{
    assert forall|x: u32| #[trigger] has_button_id(post, x) <==> has_button_id(pre, x) by {
        if has_button_id(post, x) {
            let k = choose|k: int| 0 <= k < post.len() && post[k].id == x;
            assert(pre[k].id == x);
        }
        if has_button_id(pre, x) {
            let k = choose|k: int| 0 <= k < pre.len() && pre[k].id == x;
            assert(post[k].id == x);
        }
    }
}

/// Two slider collections with pointwise equal ids reach the same ids.
proof fn lemma_same_ids_slider(pre: Seq<Slider>, post: Seq<Slider>)
    requires
        post.len() == pre.len(),
        forall|k: int| 0 <= k < pre.len() ==> #[trigger] post[k].id == pre[k].id,
    ensures
        forall|x: u32| #[trigger] has_slider_id(post, x) <==> has_slider_id(pre, x),
{
    assert forall|x: u32| #[trigger] has_slider_id(post, x) <==> has_slider_id(pre, x) by {
        if has_slider_id(post, x) {
            let k = choose|k: int| 0 <= k < post.len() && post[k].id == x;
            assert(pre[k].id == x);
        }
        if has_slider_id(pre, x) {
            let k = choose|k: int| 0 <= k < pre.len() && pre[k].id == x;
            assert(post[k].id == x);
        }
    }
}

/// Two vertical slider collections with pointwise equal ids reach the same ids.
proof fn lemma_same_ids_vertical_slider(pre: Seq<VerticalSlider>, post: Seq<VerticalSlider>)
    requires
        post.len() == pre.len(),
        forall|k: int| 0 <= k < pre.len() ==> #[trigger] post[k].id == pre[k].id,
    ensures
        forall|x: u32| #[trigger] has_vertical_slider_id(post, x) <==> has_vertical_slider_id(pre, x),
{
    assert forall|x: u32| #[trigger] has_vertical_slider_id(post, x) <==> has_vertical_slider_id(pre, x) by {
        if has_vertical_slider_id(post, x) {
            let k = choose|k: int| 0 <= k < post.len() && post[k].id == x;
            assert(pre[k].id == x);
        }
        if has_vertical_slider_id(pre, x) {
            let k = choose|k: int| 0 <= k < pre.len() && pre[k].id == x;
            assert(post[k].id == x);
        }
    }
}

/// Two draggable collections with pointwise equal ids reach the same ids.
proof fn lemma_same_ids_draggable(pre: Seq<Draggable>, post: Seq<Draggable>)
    requires
        post.len() == pre.len(),
        forall|k: int| 0 <= k < pre.len() ==> #[trigger] post[k].id == pre[k].id,
    ensures
        forall|x: u32| #[trigger] has_draggable_id(post, x) <==> has_draggable_id(pre, x),
{
    assert forall|x: u32| #[trigger] has_draggable_id(post, x) <==> has_draggable_id(pre, x) by {
        if has_draggable_id(post, x) {
            let k = choose|k: int| 0 <= k < post.len() && post[k].id == x;
            assert(pre[k].id == x);
        }
        if has_draggable_id(pre, x) {
            let k = choose|k: int| 0 <= k < pre.len() && pre[k].id == x;
            assert(post[k].id == x);
        }
    }
}

/// A tick leaves every widget's id in place, so the container invariant
/// survives it: the collections keep their lengths, each widget keeps
/// its id, and the tag map is untouched.
proof fn lemma_gui_step_wf<T: Copy>(pre: Gui<T>, post: Gui<T>)
    requires
        pre.wf(),
        post.el_to_tag_map@ == pre.el_to_tag_map@,
        post.labels@ == pre.labels@,
        post.buttons@.len() == pre.buttons@.len(),
        forall|k: int|
            0 <= k < pre.buttons@.len() ==> #[trigger] post.buttons@[k].id == pre.buttons@[k].id,
        post.sliders@.len() == pre.sliders@.len(),
        forall|k: int|
            0 <= k < pre.sliders@.len() ==> #[trigger] post.sliders@[k].id == pre.sliders@[k].id
                && post.sliders@[k].wf(),
        post.vertical_sliders@.len() == pre.vertical_sliders@.len(),
        forall|k: int|
            0 <= k < pre.vertical_sliders@.len() ==> #[trigger] post.vertical_sliders@[k].id
                == pre.vertical_sliders@[k].id && post.vertical_sliders@[k].wf(),
        post.draggables@.len() == pre.draggables@.len(),
        forall|k: int|
            0 <= k < pre.draggables@.len() ==> #[trigger] post.draggables@[k].id
                == pre.draggables@[k].id && post.draggables@[k].wf(),
    ensures
        post.wf(),
{
    lemma_same_ids_button(pre.buttons@, post.buttons@);
    lemma_same_ids_slider(pre.sliders@, post.sliders@);
    lemma_same_ids_vertical_slider(pre.vertical_sliders@, post.vertical_sliders@);
    lemma_same_ids_draggable(pre.draggables@, post.draggables@);
    assert(post.widgets_ok()) by {
        assert forall|k: int|
            0 <= k < post.sliders@.len() implies (#[trigger] post.sliders@[k]).wf() by {
            assert(post.sliders@[k].id == pre.sliders@[k].id && post.sliders@[k].wf());
        }
        assert forall|k: int|
            0 <= k < post.vertical_sliders@.len() implies (
            #[trigger] post.vertical_sliders@[k]).wf() by {
            assert(post.vertical_sliders@[k].id == pre.vertical_sliders@[k].id
                && post.vertical_sliders@[k].wf());
        }
        assert forall|k: int|
            0 <= k < post.draggables@.len() implies (#[trigger] post.draggables@[k]).wf() by {
            assert(post.draggables@[k].id == pre.draggables@[k].id && post.draggables@[k].wf());
        }
    }
    assert(post.ids_unique_within_kinds()) by {
        assert forall|i: int, j: int|
            0 <= i < j < post.buttons@.len() implies post.buttons@[i].id
            != post.buttons@[j].id by {
            assert(post.buttons@[i].id == pre.buttons@[i].id);
            assert(post.buttons@[j].id == pre.buttons@[j].id);
        }
        assert forall|i: int, j: int|
            0 <= i < j < post.sliders@.len() implies post.sliders@[i].id
            != post.sliders@[j].id by {
            assert(post.sliders@[i].id == pre.sliders@[i].id);
            assert(post.sliders@[j].id == pre.sliders@[j].id);
        }
        assert forall|i: int, j: int|
            0 <= i < j < post.vertical_sliders@.len() implies post.vertical_sliders@[i].id
            != post.vertical_sliders@[j].id by {
            assert(post.vertical_sliders@[i].id == pre.vertical_sliders@[i].id);
            assert(post.vertical_sliders@[j].id == pre.vertical_sliders@[j].id);
        }
        assert forall|i: int, j: int|
            0 <= i < j < post.draggables@.len() implies post.draggables@[i].id
            != post.draggables@[j].id by {
            assert(post.draggables@[i].id == pre.draggables@[i].id);
            assert(post.draggables@[j].id == pre.draggables@[j].id);
        }
    }
    assert(post.tags_in_sync()) by {
        assert forall|x: u32|
            post.el_to_tag_map@.contains_key(x) <==> #[trigger] post.has_interactive_id(x) by {
            assert(pre.el_to_tag_map@.contains_key(x) <==> pre.has_interactive_id(x));
        }
    }
}

impl<T: Copy> Default for Gui<T> {
    /// An empty container, as `Gui::new` builds it.
    fn default() -> (g: Self)
        ensures
            g.el_to_tag_map@ == Map::<u32, T>::empty(),
            g.buttons@ == Seq::<Button>::empty(),
            g.sliders@ == Seq::<Slider>::empty(),
            g.vertical_sliders@ == Seq::<VerticalSlider>::empty(),
            g.draggables@ == Seq::<Draggable>::empty(),
            g.labels@ == Seq::<Label>::empty(),
            g.wf(),
    {
        Gui::new()
    }
}

} // verus!
