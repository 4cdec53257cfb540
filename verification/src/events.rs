//! The unified event model and the normalizer that maps raw platform
//! records into it.

use vstd::prelude::*;

verus! {

/// A pointer position in logical screen units.
#[derive(Clone, Copy, PartialEq, Eq, Structural, Debug)]
pub struct Pos {
    pub x: i64,
    pub y: i64,
}

/// A mouse button as reported by a platform hook.
#[derive(Clone, Copy, PartialEq, Eq, Structural, Debug)]
pub enum Button {
    Left,
    Middle,
    Right,
    Unknown(u32),
}

/// A named key, plus `Unknown` for unmapped platform codes.
#[derive(Clone, Copy, PartialEq, Eq, Structural, Debug)]
pub enum Key {
    Backspace,
    Tab,
    Enter,
    Escape,
    Space,
    CapsLock,
    ShiftLeft,
    ShiftRight,
    ControlLeft,
    ControlRight,
    Alt,
    MetaLeft,
    MetaRight,
    LeftArrow,
    UpArrow,
    RightArrow,
    DownArrow,
    Home,
    End,
    PageUp,
    PageDown,
    Insert,
    Delete,
    Unknown(u32),
}

/// The closed set of normalized event kinds. Coordinates are logical screen
/// units; wheel deltas are in lines or pixels as the platform reports them.
#[derive(Clone, Copy, PartialEq, Eq, Structural, Debug)]
pub enum EventKind {
    ButtonPress(Button),
    ButtonRelease(Button),
    MouseMove { x: i64, y: i64 },
    Wheel { dx: i64, dy: i64 },
    KeyPress(Key),
    KeyRelease(Key),
}

/// A normalized input event. The timestamp is in milliseconds, as handed in
/// by the caller that read the clock.
#[derive(Clone, Copy, PartialEq, Eq, Structural, Debug)]
pub struct Event {
    pub kind: EventKind,
    pub timestamp: u64,
}

/// A raw platform record, reduced to the plain values a hook callback reads
/// out of the OS event before anything else looks at it. Button and key
/// codes are platform numbers; `Special` stands for composite platform
/// events that carry only a subtype number.
#[derive(Clone, Copy, PartialEq, Eq, Structural, Debug)]
pub enum RawEvent {
    RawButtonPress { code: u32 },
    RawButtonRelease { code: u32 },
    RawMove { x: i64, y: i64 },
    RawDrag { x: i64, y: i64 },
    RawWheel { dx: i64, dy: i64 },
    RawKeyDown { code: u32 },
    RawKeyUp { code: u32 },
    RawSpecial { subtype: i64 },
}

/// The button a platform button number stands for: 1, 2 and 3 are the three
/// named buttons, every other number is kept as `Unknown`.
pub open spec fn spec_button_of_code(code: u32) -> Button {
    if code == 1 {
        Button::Left
    } else if code == 2 {
        Button::Middle
    } else if code == 3 {
        Button::Right
    } else {
        Button::Unknown(code)
    }
}

pub fn button_of_code(code: u32) -> (b: Button)
    ensures
        b == spec_button_of_code(code),
{
    if code == 1 {
        Button::Left
    } else if code == 2 {
        Button::Middle
    } else if code == 3 {
        Button::Right
    } else {
        Button::Unknown(code)
    }
}

/// The number a button is reported under: the inverse of
/// `spec_button_of_code` on the named buttons; an unknown platform number is
/// passed through. A number above `i32::MAX` — which no platform produces —
/// is clamped to `i32::MAX`, a deliberate choice where the projection is
/// otherwise unspecified.
pub open spec fn spec_button_number(b: Button) -> i32 {
    match b {
        Button::Left => 1,
        Button::Middle => 2,
        Button::Right => 3,
        Button::Unknown(code) => if code <= 0x7fff_ffff {
            code as i32
        } else {
            0x7fff_ffff
        },
    }
}

pub fn button_number(b: Button) -> (n: i32)
    ensures
        n == spec_button_number(b),
{
    match b {
        Button::Left => 1,
        Button::Middle => 2,
        Button::Right => 3,
        Button::Unknown(code) => if code <= 0x7fff_ffff {
            code as i32
        } else {
            0x7fff_ffff
        },
    }
}

/// The key a platform key number stands for. The named codes follow the
/// common virtual-key numbering; everything else is kept as `Unknown`.
pub open spec fn spec_key_of_code(code: u32) -> Key {
    if code == 8 {
        Key::Backspace
    } else if code == 9 {
        Key::Tab
    } else if code == 13 {
        Key::Enter
    } else if code == 27 {
        Key::Escape
    } else if code == 32 {
        Key::Space
    } else if code == 20 {
        Key::CapsLock
    } else if code == 160 {
        Key::ShiftLeft
    } else if code == 161 {
        Key::ShiftRight
    } else if code == 162 {
        Key::ControlLeft
    } else if code == 163 {
        Key::ControlRight
    } else if code == 164 {
        Key::Alt
    } else if code == 91 {
        Key::MetaLeft
    } else if code == 92 {
        Key::MetaRight
    } else if code == 37 {
        Key::LeftArrow
    } else if code == 38 {
        Key::UpArrow
    } else if code == 39 {
        Key::RightArrow
    } else if code == 40 {
        Key::DownArrow
    } else if code == 36 {
        Key::Home
    } else if code == 35 {
        Key::End
    } else if code == 33 {
        Key::PageUp
    } else if code == 34 {
        Key::PageDown
    } else if code == 45 {
        Key::Insert
    } else if code == 46 {
        Key::Delete
    } else {
        Key::Unknown(code)
    }
}

pub fn key_of_code(code: u32) -> (k: Key)
    ensures
        k == spec_key_of_code(code),
{
    if code == 8 {
        Key::Backspace
    } else if code == 9 {
        Key::Tab
    } else if code == 13 {
        Key::Enter
    } else if code == 27 {
        Key::Escape
    } else if code == 32 {
        Key::Space
    } else if code == 20 {
        Key::CapsLock
    } else if code == 160 {
        Key::ShiftLeft
    } else if code == 161 {
        Key::ShiftRight
    } else if code == 162 {
        Key::ControlLeft
    } else if code == 163 {
        Key::ControlRight
    } else if code == 164 {
        Key::Alt
    } else if code == 91 {
        Key::MetaLeft
    } else if code == 92 {
        Key::MetaRight
    } else if code == 37 {
        Key::LeftArrow
    } else if code == 38 {
        Key::UpArrow
    } else if code == 39 {
        Key::RightArrow
    } else if code == 40 {
        Key::DownArrow
    } else if code == 36 {
        Key::Home
    } else if code == 35 {
        Key::End
    } else if code == 33 {
        Key::PageUp
    } else if code == 34 {
        Key::PageDown
    } else if code == 45 {
        Key::Insert
    } else if code == 46 {
        Key::Delete
    } else {
        Key::Unknown(code)
    }
}

/// The deterministic code projection of a key: named keys map back to their
/// platform numbers, an unknown platform number is passed through. A number
/// above `i32::MAX` — which no platform produces — is clamped to `i32::MAX`,
/// a deliberate choice where the projection is otherwise unspecified.
pub open spec fn spec_key_code(k: Key) -> i32 {
    match k {
        Key::Backspace => 8,
        Key::Tab => 9,
        Key::Enter => 13,
        Key::Escape => 27,
        Key::Space => 32,
        Key::CapsLock => 20,
        Key::ShiftLeft => 160,
        Key::ShiftRight => 161,
        Key::ControlLeft => 162,
        Key::ControlRight => 163,
        Key::Alt => 164,
        Key::MetaLeft => 91,
        Key::MetaRight => 92,
        Key::LeftArrow => 37,
        Key::UpArrow => 38,
        Key::RightArrow => 39,
        Key::DownArrow => 40,
        Key::Home => 36,
        Key::End => 35,
        Key::PageUp => 33,
        Key::PageDown => 34,
        Key::Insert => 45,
        Key::Delete => 46,
        Key::Unknown(code) => if code <= 0x7fff_ffff {
            code as i32
        } else {
            0x7fff_ffff
        },
    }
}

pub fn key_code(k: Key) -> (n: i32)
    ensures
        n == spec_key_code(k),
{
    match k {
        Key::Backspace => 8,
        Key::Tab => 9,
        Key::Enter => 13,
        Key::Escape => 27,
        Key::Space => 32,
        Key::CapsLock => 20,
        Key::ShiftLeft => 160,
        Key::ShiftRight => 161,
        Key::ControlLeft => 162,
        Key::ControlRight => 163,
        Key::Alt => 164,
        Key::MetaLeft => 91,
        Key::MetaRight => 92,
        Key::LeftArrow => 37,
        Key::UpArrow => 38,
        Key::RightArrow => 39,
        Key::DownArrow => 40,
        Key::Home => 36,
        Key::End => 35,
        Key::PageUp => 33,
        Key::PageDown => 34,
        Key::Insert => 45,
        Key::Delete => 46,
        Key::Unknown(code) => if code <= 0x7fff_ffff {
            code as i32
        } else {
            0x7fff_ffff
        },
    }
}

/// The deterministic name projection of a key.
pub open spec fn spec_key_name(k: Key) -> Seq<char> {
    match k {
        Key::Backspace => "backspace"@,
        Key::Tab => "tab"@,
        Key::Enter => "enter"@,
        Key::Escape => "escape"@,
        Key::Space => "space"@,
        Key::CapsLock => "capslock"@,
        Key::ShiftLeft => "shiftleft"@,
        Key::ShiftRight => "shiftright"@,
        Key::ControlLeft => "controlleft"@,
        Key::ControlRight => "controlright"@,
        Key::Alt => "alt"@,
        Key::MetaLeft => "metaleft"@,
        Key::MetaRight => "metaright"@,
        Key::LeftArrow => "leftarrow"@,
        Key::UpArrow => "uparrow"@,
        Key::RightArrow => "rightarrow"@,
        Key::DownArrow => "downarrow"@,
        Key::Home => "home"@,
        Key::End => "end"@,
        Key::PageUp => "pageup"@,
        Key::PageDown => "pagedown"@,
        Key::Insert => "insert"@,
        Key::Delete => "delete"@,
        Key::Unknown(_) => "unknown"@,
    }
}

pub fn key_name(k: Key) -> (s: &'static str)
    ensures
        s@ == spec_key_name(k),
{
    match k {
        Key::Backspace => "backspace",
        Key::Tab => "tab",
        Key::Enter => "enter",
        Key::Escape => "escape",
        Key::Space => "space",
        Key::CapsLock => "capslock",
        Key::ShiftLeft => "shiftleft",
        Key::ShiftRight => "shiftright",
        Key::ControlLeft => "controlleft",
        Key::ControlRight => "controlright",
        Key::Alt => "alt",
        Key::MetaLeft => "metaleft",
        Key::MetaRight => "metaright",
        Key::LeftArrow => "leftarrow",
        Key::UpArrow => "uparrow",
        Key::RightArrow => "rightarrow",
        Key::DownArrow => "downarrow",
        Key::Home => "home",
        Key::End => "end",
        Key::PageUp => "pageup",
        Key::PageDown => "pagedown",
        Key::Insert => "insert",
        Key::Delete => "delete",
        Key::Unknown(_) => "unknown",
    }
}

/// The code and name projections are consistent: reading a named key's code
/// back through the code mapping yields the same key.
pub proof fn lemma_key_code_round_trip(k: Key)
    requires
        !(k is Unknown),
    ensures
        spec_key_of_code(spec_key_code(k) as u32) == k,
{
}

/// What the normalizer yields for a raw record: button and key transitions,
/// moves (plain and with a button held), and wheel turns map into the
/// unified kinds; composite platform records are discarded.
pub open spec fn spec_normalize_kind(raw: RawEvent) -> Option<EventKind> {
    match raw {
        RawEvent::RawButtonPress { code } => Some(
            EventKind::ButtonPress(spec_button_of_code(code)),
        ),
        RawEvent::RawButtonRelease { code } => Some(
            EventKind::ButtonRelease(spec_button_of_code(code)),
        ),
        RawEvent::RawMove { x, y } => Some(EventKind::MouseMove { x, y }),
        RawEvent::RawDrag { x, y } => Some(EventKind::MouseMove { x, y }),
        RawEvent::RawWheel { dx, dy } => Some(EventKind::Wheel { dx, dy }),
        RawEvent::RawKeyDown { code } => Some(EventKind::KeyPress(spec_key_of_code(code))),
        RawEvent::RawKeyUp { code } => Some(EventKind::KeyRelease(spec_key_of_code(code))),
        RawEvent::RawSpecial { .. } => None,
    }
}

pub open spec fn spec_normalize(raw: RawEvent, timestamp: u64) -> Option<Event> {
    match spec_normalize_kind(raw) {
        Some(kind) => Some(Event { kind, timestamp }),
        None => None,
    }
}

/// Maps one raw platform record into the unified event model, stamping it
/// with the caller's clock reading; composite platform records outside the
/// monitored domain are discarded.
pub fn normalize(raw: &RawEvent, timestamp: u64) -> (r: Option<Event>)
    ensures
        r == spec_normalize(*raw, timestamp),
{
    let kind = match *raw {
        RawEvent::RawButtonPress { code } => Some(EventKind::ButtonPress(button_of_code(code))),
        RawEvent::RawButtonRelease { code } => Some(
            EventKind::ButtonRelease(button_of_code(code)),
        ),
        RawEvent::RawMove { x, y } => Some(EventKind::MouseMove { x, y }),
        RawEvent::RawDrag { x, y } => Some(EventKind::MouseMove { x, y }),
        RawEvent::RawWheel { dx, dy } => Some(EventKind::Wheel { dx, dy }),
        RawEvent::RawKeyDown { code } => Some(EventKind::KeyPress(key_of_code(code))),
        RawEvent::RawKeyUp { code } => Some(EventKind::KeyRelease(key_of_code(code))),
        RawEvent::RawSpecial { .. } => None,
    };
    match kind {
        Some(kind) => Some(Event { kind, timestamp }),
        None => None,
    }
}

/// Whatever raw record comes in, the normalizer yields nothing or an event
/// whose kind is one of the six defined variants.
pub proof fn lemma_normalize_kinds_closed(raw: RawEvent, timestamp: u64)
    ensures
        match spec_normalize(raw, timestamp) {
            Some(ev) => ev.kind is ButtonPress || ev.kind is ButtonRelease || ev.kind is MouseMove
                || ev.kind is Wheel || ev.kind is KeyPress || ev.kind is KeyRelease,
            None => true,
        },
{
}

} // verus!
