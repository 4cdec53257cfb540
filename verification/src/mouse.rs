//! The mouse event record handed to subscribers, and its derivation from
//! normalized events.

use vstd::prelude::*;
use crate::events::{Button, Event, EventKind, spec_button_number, button_number};
use crate::platform::{Platform, spec_platform_name, platform_name};

verus! {

/// The kind of a mouse event record.
#[derive(Clone, Copy, PartialEq, Eq, Structural, Debug)]
pub enum MouseEventType {
    MouseDown,
    MouseUp,
    MouseMove,
    Wheel,
}

/// The name a mouse event kind is reported under.
pub open spec fn spec_mouse_event_type_name(t: MouseEventType) -> Seq<char> {
    match t {
        MouseEventType::MouseDown => "mousedown"@,
        MouseEventType::MouseUp => "mouseup"@,
        MouseEventType::MouseMove => "mousemove"@,
        MouseEventType::Wheel => "wheel"@,
    }
}

pub fn mouse_event_type_name(t: MouseEventType) -> (s: &'static str)
    ensures
        s@ == spec_mouse_event_type_name(t),
{
    match t {
        MouseEventType::MouseDown => "mousedown",
        MouseEventType::MouseUp => "mouseup",
        MouseEventType::MouseMove => "mousemove",
        MouseEventType::Wheel => "wheel",
    }
}

/// The record dispatched to mouse subscribers. Coordinates are logical
/// screen units; button transitions and wheel turns arrive from the platform
/// without coordinates, so theirs start at zero until the position tracker
/// backfills them.
#[derive(Clone, Copy, PartialEq, Eq, Structural, Debug)]
pub struct MouseEvent {
    pub event_type: MouseEventType,
    pub x: i64,
    pub y: i64,
    pub button: i32,
    pub timestamp: u64,
    pub platform: Platform,
}

/// What a normalized event looks like as a mouse record: button transitions
/// and wheel turns come out with zero coordinates, moves carry theirs, and
/// key events are not mouse events.
pub open spec fn spec_mouse_event_of(ev: Event, platform: Platform) -> Option<MouseEvent> {
    match ev.kind {
        EventKind::ButtonPress(b) => Some(
            MouseEvent {
                event_type: MouseEventType::MouseDown,
                x: 0,
                y: 0,
                button: spec_button_number(b),
                timestamp: ev.timestamp,
                platform,
            },
        ),
        EventKind::ButtonRelease(b) => Some(
            MouseEvent {
                event_type: MouseEventType::MouseUp,
                x: 0,
                y: 0,
                button: spec_button_number(b),
                timestamp: ev.timestamp,
                platform,
            },
        ),
        EventKind::MouseMove { x, y } => Some(
            MouseEvent {
                event_type: MouseEventType::MouseMove,
                x,
                y,
                button: 0,
                timestamp: ev.timestamp,
                platform,
            },
        ),
        EventKind::Wheel { .. } => Some(
            MouseEvent {
                event_type: MouseEventType::Wheel,
                x: 0,
                y: 0,
                button: 0,
                timestamp: ev.timestamp,
                platform,
            },
        ),
        EventKind::KeyPress(_) => None,
        EventKind::KeyRelease(_) => None,
    }
}

/// Turns a normalized event into the mouse record dispatched to subscribers,
/// or nothing for key events.
pub fn mouse_event_of(ev: &Event, platform: Platform) -> (r: Option<MouseEvent>)
    ensures
        r == spec_mouse_event_of(*ev, platform),
{
    match ev.kind {
        EventKind::ButtonPress(b) => Some(
            MouseEvent {
                event_type: MouseEventType::MouseDown,
                x: 0,
                y: 0,
                button: button_number(b),
                timestamp: ev.timestamp,
                platform,
            },
        ),
        EventKind::ButtonRelease(b) => Some(
            MouseEvent {
                event_type: MouseEventType::MouseUp,
                x: 0,
                y: 0,
                button: button_number(b),
                timestamp: ev.timestamp,
                platform,
            },
        ),
        EventKind::MouseMove { x, y } => Some(
            MouseEvent {
                event_type: MouseEventType::MouseMove,
                x,
                y,
                button: 0,
                timestamp: ev.timestamp,
                platform,
            },
        ),
        EventKind::Wheel { .. } => Some(
            MouseEvent {
                event_type: MouseEventType::Wheel,
                x: 0,
                y: 0,
                button: 0,
                timestamp: ev.timestamp,
                platform,
            },
        ),
        EventKind::KeyPress(_) => None,
        EventKind::KeyRelease(_) => None,
    }
}

/// Every mouse record derived from a non-move event starts with zero
/// coordinates: the position tracker is what fills them in.
pub proof fn lemma_non_move_starts_at_zero(ev: Event, platform: Platform)
    ensures
        match spec_mouse_event_of(ev, platform) {
            Some(m) => m.event_type != MouseEventType::MouseMove ==> m.x == 0 && m.y == 0,
            None => true,
        },
{
}

} // verus!
