//! A minimal retained-mode GUI widget toolkit for real-time loops.
//!
//! The toolkit tracks a small set of interactive widgets (buttons,
//! horizontal and vertical sliders, draggable handles, static labels),
//! advances their interaction state once per simulation tick from the
//! current pointer position and button state, and emits semantic events
//! (pressed, released, moved, value-changed) tagged with caller-supplied
//! identifiers.
//!
//! All geometry is carried in fixed-point coordinates: an `i64` counts
//! units of 1/10000, so `fixed::COORD_ONE` stands for 1.0 in the host's
//! (typically normalized) coordinate space. The host converts between its
//! own floating-point space and this one at the boundary.

pub mod button;
pub mod common;
pub mod draggable;
pub mod fixed;
pub mod geometry;
pub mod gui;
pub mod label;
pub mod laws;
pub mod slider;
pub mod track;
pub mod vertical_slider;

pub use button::Button;
pub use common::Element;
pub use common::Event;
pub use common::IdAllocator;
pub use common::TaggedEvent;
pub use draggable::Draggable;
pub use geometry::Color;
pub use geometry::Vec2;
pub use gui::Gui;
pub use label::Label;
pub use slider::Slider;
pub use vertical_slider::VerticalSlider;
