//! Dim Wayland monitors with layer-shell overlays.
//!
//! Every monitor but the one being worked on is covered by a translucent
//! surface. When the focus moves to another monitor, that one clears and the
//! old one is dimmed; monitor brightness can be dimmed along with it.
//!
//! This crate decides; it does not talk to a compositor. The event loop around
//! it hands over what it heard as plain values, and performs the
//! [`render::Action`]s that come back. Outputs, surfaces and toplevels are
//! known by keys that the loop gives them.
//!
//! # Numbers
//!
//! Opacities, brightnesses and the progress of an animation are counted in
//! parts of which [`fraction::WHOLE`] make up one; times are counted in
//! nanoseconds ([`span::Span`]).
//!
//! # Modules
//!
//! - [`window`]: configuration, and the handle to running overlays
//! - [`run`]: the steps of the event loop
//! - [`app`], [`wayland`]: the application and its event handlers
//! - [`dim`]: what each output should look like, and how it gets there
//! - [`render`], [`gamma`]: pixels, buffers and gamma ramps
//! - [`state`], [`surface`], [`toplevel`], [`transition`], [`handlers`]: the
//!   direct engine, which draws overlays straight from events and keeps no
//!   dimming state per output
//! - [`laws`]: what holds across all of them

pub mod app;
pub mod dim;
pub mod error;
pub mod fraction;
pub mod gamma;
pub mod handlers;
pub mod laws;
pub mod names;
pub mod render;
pub mod run;
pub mod seqs;
pub mod span;
pub mod state;
pub mod surface;
pub mod toplevel;
pub mod transition;
pub mod wayland;
pub mod window;

pub use error::SpawnError;
pub use render::Brightness;
pub use render::Color;
pub use render::Opacity;
pub use window::ZenWindow;
pub use window::ZenWindowBuilder;
