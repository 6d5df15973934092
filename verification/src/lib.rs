//! EWM - Emacs Wayland Manager
//!
//! The decisions of a Wayland compositor that runs inside Emacs, free of any protocol or
//! hardware access and verified against their contracts.
//!
//! # Design Invariants
//!
//! 1. **Focus ownership**: Only one surface has keyboard focus at a time. The
//!    `focused_surface_id` field is the single source of truth for focus state.
//!
//! 2. **Surface lifecycle**: Surfaces are assigned monotonically increasing IDs
//!    starting from 1. ID 0 is reserved for "no surface". IDs are never reused.
//!
//! 3. **Redraw state machine**: Each output has independent redraw state, and a
//!    requested redraw is never lost.
//!
//! 4. **Emacs ownership**: Layout changes come from Emacs via the command queue,
//!    events flow back to Emacs via the event queue.
use vstd::prelude::*;

pub mod backend;
pub mod dbus;
pub mod effect;
pub mod event;
pub mod ewm;
pub mod frame_clock;
pub mod gamma;
pub mod geometry;
pub mod im_relay;
pub mod input;
pub mod keys;
pub mod keysyms;
pub mod laws;
pub mod layout;
pub mod lisp;
pub mod module;
pub mod outputs;
pub mod pipewire;
pub mod redraw;
pub mod session;
pub mod tables;
pub mod text;
pub mod time;
