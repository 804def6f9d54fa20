//! The decisions of a scrolling, tiling window manager for the desktop.
//!
//! A handler takes the state, an event and what the shell has seen of
//! the desktop, changes the state and returns the effects that the shell
//! is to carry out, in order. Every handler states its new state and its
//! effects exactly, over [`state::StateView`]; [`laws`] holds what
//! follows for the program as a whole.
//!
//! Lengths that need more than whole pixels are counted in
//! [`geometry::SUBPIXEL`]s, positions of a slide's camera in
//! [`slide::CAMERA_UNIT`]s.

pub mod command;
pub mod dispatch;
pub mod display;
pub mod drag;
pub mod effect;
pub mod error;
pub mod events;
pub mod floating;
pub mod focus;
pub mod geometry;
pub mod laws;
pub mod layout;
pub mod lifecycle;
pub mod placement;
pub mod reflow;
pub mod reload;
pub mod search;
pub mod slide;
pub mod state;
pub mod transition;
pub mod tray;
