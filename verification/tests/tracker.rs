use drag_monitor::events::{normalize, RawEvent};
use drag_monitor::mouse::{mouse_event_of, MouseEventType};
use drag_monitor::platform::Platform;
use drag_monitor::pointer::PointerState;

fn mouse_record(raw: RawEvent, ts: u64) -> drag_monitor::mouse::MouseEvent {
    mouse_event_of(&normalize(&raw, ts).unwrap(), Platform::Linux).unwrap()
}

#[test]
fn non_move_after_move_backfills_to_the_last_position() {
    let mut ps = PointerState::new();
    let mut mv = mouse_record(RawEvent::RawMove { x: 120, y: 45 }, 1);
    ps.on_event(&mut mv);
    assert_eq!((mv.x, mv.y), (120, 45));
    let mut down = mouse_record(RawEvent::RawButtonPress { code: 1 }, 2);
    assert_eq!((down.x, down.y), (0, 0));
    ps.on_event(&mut down);
    assert_eq!((down.x, down.y), (120, 45));
    let mut wheel = mouse_record(RawEvent::RawWheel { dx: 0, dy: -1 }, 3);
    ps.on_event(&mut wheel);
    assert_eq!((wheel.x, wheel.y), (120, 45));
}

#[test]
fn backfill_tracks_the_latest_move_only() {
    let mut ps = PointerState::new();
    let mut m1 = mouse_record(RawEvent::RawMove { x: 1, y: 1 }, 1);
    ps.on_event(&mut m1);
    let mut m2 = mouse_record(RawEvent::RawMove { x: 9, y: 8 }, 2);
    ps.on_event(&mut m2);
    let mut up = mouse_record(RawEvent::RawButtonRelease { code: 1 }, 3);
    ps.on_event(&mut up);
    assert_eq!((up.x, up.y), (9, 8));
}

#[test]
fn without_a_prior_move_coordinates_stay_at_their_raw_default() {
    let mut ps = PointerState::new();
    let mut down = mouse_record(RawEvent::RawButtonPress { code: 1 }, 1);
    ps.on_event(&mut down);
    assert_eq!((down.x, down.y), (0, 0));
}

#[test]
fn moves_keep_their_own_coordinates_and_kind() {
    let mut ps = PointerState::new();
    let mut m1 = mouse_record(RawEvent::RawMove { x: 3, y: 4 }, 1);
    ps.on_event(&mut m1);
    assert_eq!(m1.event_type, MouseEventType::MouseMove);
    assert_eq!((m1.x, m1.y), (3, 4));
}
