//! The state of a layer-shell space that wraps a single client application.
//!
//! A space owns one surface on the desktop's layer shell and shows in it the
//! windows and popups of one embedded client. This crate holds every decision
//! such a space takes: how large its surface may be, when it asks for a new
//! size, which parts of a frame are redrawn, what becomes of its popups and
//! which desktop file its client is started from. Talking to the compositor,
//! to EGL and to the client's process is left to the program around it, which
//! reports what it saw and carries out what it is told.

pub mod changes;
pub mod client;
pub mod config;
pub mod damage;
pub mod events;
pub mod geometry;
pub mod layer;
pub mod popup;
pub mod render;
pub mod space;

pub use config::SimpleWrapperConfig;
pub use space::SimpleWrapperSpace;
