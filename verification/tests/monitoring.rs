use drag_monitor::drag::DragEventType;
use drag_monitor::events::RawEvent;
use drag_monitor::lifecycle::{StartAction, StopAction};
use drag_monitor::monitor::MouseMonitor;
use drag_monitor::platform::Platform;

fn fresh() -> MouseMonitor<u32, u32> {
    MouseMonitor::new(Platform::Linux)
}

#[test]
fn start_is_idempotent_and_installs_one_hook() {
    let mut m = fresh();
    assert_eq!(m.start_mouse_monitor().unwrap(), StartAction::InstallHook);
    assert!(m.is_monitoring());
    assert_eq!(m.start_mouse_monitor().unwrap(), StartAction::AlreadyRunning);
    assert!(m.is_monitoring());
}

#[test]
fn stop_is_idempotent() {
    let mut m = fresh();
    m.start_mouse_monitor().unwrap();
    assert_eq!(m.stop_mouse_monitor().unwrap(), StopAction::ShutdownWorker);
    assert!(!m.is_monitoring());
    assert_eq!(m.stop_mouse_monitor().unwrap(), StopAction::AlreadyStopped);
    assert!(!m.is_monitoring());
}

#[test]
fn subscription_ids_grow_and_are_never_reused() {
    let mut m = fresh();
    let id1 = m.on_mouse_event(10).unwrap();
    assert_eq!(id1, 1);
    assert_eq!(m.remove_mouse_event_listener(id1).unwrap(), true);
    let id2 = m.on_mouse_event(11).unwrap();
    assert!(id2 > id1);
    assert_eq!(id2, 2);
    let id3 = m.on_drag_event(12).unwrap();
    assert_eq!(id3, 1);
    assert_eq!(m.remove_drag_event_listener(9).unwrap(), false);
}

#[test]
fn removing_an_unknown_or_removed_id_reports_false() {
    let mut m = fresh();
    let id = m.on_mouse_event(1).unwrap();
    assert_eq!(m.remove_mouse_event_listener(id).unwrap(), true);
    assert_eq!(m.remove_mouse_event_listener(id).unwrap(), false);
    assert_eq!(m.remove_mouse_event_listener(77).unwrap(), false);
}

#[test]
fn a_stopped_monitor_dispatches_nothing() {
    let mut m = fresh();
    let plan = m.handle_event(&RawEvent::RawMove { x: 5, y: 5 }, 1);
    assert!(plan.mouse.is_none() && plan.drag.is_none());
}

#[test]
fn events_fan_out_to_every_registered_subscriber() {
    let mut m = fresh();
    m.start_mouse_monitor().unwrap();
    let a = m.on_mouse_event(100).unwrap();
    let b = m.on_mouse_event(200).unwrap();
    let plan = m.handle_event(&RawEvent::RawMove { x: 5, y: 6 }, 42);
    let mouse = plan.mouse.unwrap();
    assert_eq!(mouse.targets, vec![a, b]);
    assert_eq!((mouse.event.x, mouse.event.y), (5, 6));
    assert_eq!(mouse.event.timestamp, 42);
    assert!(plan.drag.is_none());
}

#[test]
fn no_callback_fires_after_stop_returns() {
    let mut m = fresh();
    m.start_mouse_monitor().unwrap();
    m.on_mouse_event(1).unwrap();
    let mut counter = 0usize;
    let script = [
        RawEvent::RawMove { x: 1, y: 1 },
        RawEvent::RawButtonPress { code: 1 },
        RawEvent::RawButtonRelease { code: 1 },
    ];
    for raw in script.iter() {
        if let Some(d) = m.handle_event(raw, 0).mouse {
            counter += d.targets.len();
        }
    }
    assert_eq!(counter, 3);
    m.stop_mouse_monitor().unwrap();
    for raw in script.iter() {
        if let Some(d) = m.handle_event(raw, 1).mouse {
            counter += d.targets.len();
        }
    }
    assert_eq!(counter, 3);
}

#[test]
fn the_pipeline_backfills_and_derives_drags_end_to_end() {
    let mut m = fresh();
    m.start_mouse_monitor().unwrap();
    let did = m.on_drag_event(7).unwrap();
    assert!(m.handle_event(&RawEvent::RawMove { x: 100, y: 100 }, 1).drag.is_none());
    assert!(m.handle_event(&RawEvent::RawButtonPress { code: 1 }, 2).drag.is_none());
    let plan = m.handle_event(&RawEvent::RawMove { x: 110, y: 100 }, 3);
    let drag = plan.drag.unwrap();
    assert_eq!(drag.event.event_type, DragEventType::DragStart);
    assert_eq!((drag.event.start_x, drag.event.start_y), (100, 100));
    assert_eq!((drag.event.x, drag.event.y), (110, 100));
    assert_eq!(drag.event.button, 1);
    assert_eq!(drag.targets, vec![did]);
    let plan = m.handle_event(&RawEvent::RawButtonRelease { code: 1 }, 4);
    let drag = plan.drag.unwrap();
    assert_eq!(drag.event.event_type, DragEventType::DragEnd);
    assert_eq!((drag.event.start_x, drag.event.start_y), (100, 100));
}

#[test]
fn key_records_are_not_dispatched_by_the_mouse_monitor() {
    let mut m = fresh();
    m.start_mouse_monitor().unwrap();
    m.on_mouse_event(1).unwrap();
    let plan = m.handle_event(&RawEvent::RawKeyDown { code: 13 }, 1);
    assert!(plan.mouse.is_none() && plan.drag.is_none());
}

#[test]
fn stop_resets_tracker_and_gesture_state() {
    let mut m = fresh();
    m.start_mouse_monitor().unwrap();
    m.handle_event(&RawEvent::RawMove { x: 9, y: 9 }, 1);
    m.handle_event(&RawEvent::RawButtonPress { code: 1 }, 2);
    m.stop_mouse_monitor().unwrap();
    assert!(m.pointer.last.is_none());
    assert!(!m.drag.mouse_pressed && !m.drag.is_dragging);
    m.start_mouse_monitor().unwrap();
    m.on_mouse_event(5).unwrap();
    let plan = m.handle_event(&RawEvent::RawButtonPress { code: 1 }, 3);
    let mouse = plan.mouse.unwrap();
    assert_eq!((mouse.event.x, mouse.event.y), (0, 0));
}
