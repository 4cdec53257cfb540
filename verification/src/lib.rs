//! Process-wide input monitoring, modeled and verified.
//!
//! The library contains the portable core of a global mouse / drag / file-drop
//! monitor: the event normalizer, the pointer position tracker, the drag
//! gesture state machine, the subscription registry with its dispatcher, the
//! monitor lifecycle state, and the line protocol spoken with the helper
//! process that observes file drag-and-drop. Platform hooks, threads and I/O
//! live outside the library and drive it through plain values.

pub mod color;
pub mod drag;
pub mod errors;
pub mod filedrop;
pub mod helper;
pub mod hook;
pub mod events;
pub mod json;
pub mod lifecycle;
pub mod monitor;
pub mod mouse;
pub mod platform;
pub mod pointer;
pub mod registry;
mod text;
