use drag_monitor::events::{
    button_number, button_of_code, key_code, key_name, key_of_code, normalize, Button, EventKind,
    Key, RawEvent,
};
use drag_monitor::hook::{GrabError, HookError, ListenError};

#[test]
fn button_presses_normalize_to_button_kinds() {
    let ev = normalize(&RawEvent::RawButtonPress { code: 1 }, 7).unwrap();
    assert_eq!(ev.kind, EventKind::ButtonPress(Button::Left));
    assert_eq!(ev.timestamp, 7);
    let ev = normalize(&RawEvent::RawButtonPress { code: 2 }, 0).unwrap();
    assert_eq!(ev.kind, EventKind::ButtonPress(Button::Middle));
    let ev = normalize(&RawEvent::RawButtonRelease { code: 3 }, 0).unwrap();
    assert_eq!(ev.kind, EventKind::ButtonRelease(Button::Right));
    let ev = normalize(&RawEvent::RawButtonPress { code: 9 }, 0).unwrap();
    assert_eq!(ev.kind, EventKind::ButtonPress(Button::Unknown(9)));
}

#[test]
fn moves_and_drags_normalize_to_mouse_move() {
    let ev = normalize(&RawEvent::RawMove { x: 10, y: -3 }, 1).unwrap();
    assert_eq!(ev.kind, EventKind::MouseMove { x: 10, y: -3 });
    let ev = normalize(&RawEvent::RawDrag { x: 4, y: 5 }, 1).unwrap();
    assert_eq!(ev.kind, EventKind::MouseMove { x: 4, y: 5 });
}

#[test]
fn wheel_normalizes_with_deltas() {
    let ev = normalize(&RawEvent::RawWheel { dx: -1, dy: 2 }, 3).unwrap();
    assert_eq!(ev.kind, EventKind::Wheel { dx: -1, dy: 2 });
}

#[test]
fn key_events_normalize_to_key_kinds() {
    let ev = normalize(&RawEvent::RawKeyDown { code: 13 }, 0).unwrap();
    assert_eq!(ev.kind, EventKind::KeyPress(Key::Enter));
    let ev = normalize(&RawEvent::RawKeyUp { code: 27 }, 0).unwrap();
    assert_eq!(ev.kind, EventKind::KeyRelease(Key::Escape));
}

#[test]
fn special_platform_records_are_discarded() {
    assert!(normalize(&RawEvent::RawSpecial { subtype: 8 }, 0).is_none());
    assert!(normalize(&RawEvent::RawSpecial { subtype: 0 }, 0).is_none());
}

#[test]
fn every_normalized_event_is_one_of_the_six_kinds() {
    let raws = [
        RawEvent::RawButtonPress { code: 1 },
        RawEvent::RawButtonRelease { code: 2 },
        RawEvent::RawMove { x: 1, y: 2 },
        RawEvent::RawDrag { x: 3, y: 4 },
        RawEvent::RawWheel { dx: 0, dy: 1 },
        RawEvent::RawKeyDown { code: 32 },
        RawEvent::RawKeyUp { code: 32 },
        RawEvent::RawSpecial { subtype: 14 },
    ];
    for raw in raws.iter() {
        if let Some(ev) = normalize(raw, 0) {
            assert!(matches!(
                ev.kind,
                EventKind::ButtonPress(_)
                    | EventKind::ButtonRelease(_)
                    | EventKind::MouseMove { .. }
                    | EventKind::Wheel { .. }
                    | EventKind::KeyPress(_)
                    | EventKind::KeyRelease(_)
            ));
        }
    }
}

#[test]
fn button_numbers_round_trip() {
    assert_eq!(button_number(Button::Left), 1);
    assert_eq!(button_number(Button::Middle), 2);
    assert_eq!(button_number(Button::Right), 3);
    assert_eq!(button_number(Button::Unknown(9)), 9);
    assert_eq!(button_of_code(1), Button::Left);
    assert_eq!(button_of_code(7), Button::Unknown(7));
    assert_eq!(button_number(Button::Unknown(0xffff_ffff)), 0x7fff_ffff);
}

#[test]
fn key_projection_is_deterministic() {
    assert_eq!(key_of_code(13), Key::Enter);
    assert_eq!(key_code(Key::Enter), 13);
    assert_eq!(key_name(Key::Enter), "enter");
    assert_eq!(key_of_code(999), Key::Unknown(999));
    assert_eq!(key_code(Key::Unknown(999)), 999);
    assert_eq!(key_name(Key::Unknown(999)), "unknown");
    assert_eq!(key_code(Key::ShiftLeft), 160);
    assert_eq!(key_name(Key::PageDown), "pagedown");
}

#[test]
fn hook_errors_map_into_listen_and_grab_errors() {
    assert_eq!(
        ListenError::from(HookError::Mouse(7)),
        ListenError::MouseHookError(7)
    );
    assert_eq!(
        ListenError::from(HookError::Key(3)),
        ListenError::KeyHookError(3)
    );
    assert_eq!(
        GrabError::from(HookError::Mouse(1)),
        GrabError::MouseHookError(1)
    );
    assert_eq!(GrabError::from(HookError::Key(2)), GrabError::KeyHookError(2));
}
