use drag_monitor::drag::{DragEventType, DragState};
use drag_monitor::mouse::{MouseEvent, MouseEventType};
use drag_monitor::platform::Platform;

fn record(event_type: MouseEventType, x: i64, y: i64, button: i32, ts: u64) -> MouseEvent {
    MouseEvent { event_type, x, y, button, timestamp: ts, platform: Platform::Linux }
}

#[test]
fn a_three_pixel_move_is_a_click_not_a_drag() {
    let mut s = DragState::new();
    let mut events = Vec::new();
    for ev in [
        record(MouseEventType::MouseDown, 100, 100, 1, 1),
        record(MouseEventType::MouseMove, 103, 100, 0, 2),
        record(MouseEventType::MouseUp, 103, 100, 1, 3),
    ] {
        if let Some(d) = s.step(&ev) {
            events.push(d);
        }
    }
    assert!(events.is_empty());
    assert!(!s.mouse_pressed && !s.is_dragging);
}

#[test]
fn a_ten_pixel_move_emits_dragstart_then_dragend_from_the_press_position() {
    let mut s = DragState::new();
    let mut events = Vec::new();
    for ev in [
        record(MouseEventType::MouseDown, 100, 100, 1, 1),
        record(MouseEventType::MouseMove, 110, 100, 0, 2),
        record(MouseEventType::MouseUp, 110, 100, 1, 3),
    ] {
        if let Some(d) = s.step(&ev) {
            events.push(d);
        }
    }
    assert_eq!(events.len(), 2);
    assert_eq!(events[0].event_type, DragEventType::DragStart);
    assert_eq!((events[0].start_x, events[0].start_y), (100, 100));
    assert_eq!((events[0].x, events[0].y), (110, 100));
    assert_eq!(events[0].button, 1);
    assert_eq!(events[1].event_type, DragEventType::DragEnd);
    assert_eq!((events[1].start_x, events[1].start_y), (100, 100));
    assert_eq!((events[1].x, events[1].y), (110, 100));
}

#[test]
fn every_dragmove_carries_the_press_position() {
    let mut s = DragState::new();
    let mut events = Vec::new();
    for ev in [
        record(MouseEventType::MouseDown, 50, 60, 1, 1),
        record(MouseEventType::MouseMove, 60, 60, 0, 2),
        record(MouseEventType::MouseMove, 70, 61, 0, 3),
        record(MouseEventType::MouseMove, 80, 62, 0, 4),
        record(MouseEventType::MouseUp, 80, 62, 1, 5),
    ] {
        if let Some(d) = s.step(&ev) {
            events.push(d);
        }
    }
    assert_eq!(events.len(), 4);
    assert_eq!(events[0].event_type, DragEventType::DragStart);
    assert_eq!(events[1].event_type, DragEventType::DragMove);
    assert_eq!(events[2].event_type, DragEventType::DragMove);
    assert_eq!(events[3].event_type, DragEventType::DragEnd);
    for d in &events {
        assert_eq!((d.start_x, d.start_y), (50, 60));
    }
}

#[test]
fn exactly_the_threshold_distance_starts_a_drag() {
    let mut s = DragState::with_threshold(5);
    assert!(s.step(&record(MouseEventType::MouseDown, 0, 0, 1, 1)).is_none());
    let d = s.step(&record(MouseEventType::MouseMove, 3, 4, 0, 2)).unwrap();
    assert_eq!(d.event_type, DragEventType::DragStart);
}

#[test]
fn moves_below_the_threshold_inside_a_drag_emit_nothing_but_keep_dragging() {
    let mut s = DragState::new();
    s.step(&record(MouseEventType::MouseDown, 0, 0, 1, 1));
    assert!(s.step(&record(MouseEventType::MouseMove, 10, 0, 0, 2)).is_some());
    assert!(s.step(&record(MouseEventType::MouseMove, 1, 0, 0, 3)).is_none());
    assert!(s.is_dragging);
    let d = s.step(&record(MouseEventType::MouseUp, 1, 0, 1, 4)).unwrap();
    assert_eq!(d.event_type, DragEventType::DragEnd);
}

#[test]
fn a_second_press_restarts_the_gesture() {
    let mut s = DragState::new();
    s.step(&record(MouseEventType::MouseDown, 0, 0, 1, 1));
    s.step(&record(MouseEventType::MouseMove, 20, 0, 0, 2));
    assert!(s.is_dragging);
    assert!(s.step(&record(MouseEventType::MouseDown, 20, 0, 3, 3)).is_none());
    assert!(!s.is_dragging && s.mouse_pressed);
    let d = s.step(&record(MouseEventType::MouseMove, 40, 0, 0, 4)).unwrap();
    assert_eq!(d.event_type, DragEventType::DragStart);
    assert_eq!((d.start_x, d.start_y), (20, 0));
    assert_eq!(d.button, 3);
}

#[test]
fn wheel_and_stray_releases_leave_the_machine_idle() {
    let mut s = DragState::new();
    assert!(s.step(&record(MouseEventType::Wheel, 0, 0, 0, 1)).is_none());
    assert!(s.step(&record(MouseEventType::MouseUp, 5, 5, 1, 2)).is_none());
    assert!(!s.mouse_pressed);
}
