use drag_monitor::errors::MonitorError;
use drag_monitor::filedrop::DragMonitor;
use drag_monitor::helper::HelperEventType;
use drag_monitor::lifecycle::{StartAction, StopAction};
use drag_monitor::platform::Platform;

fn fresh() -> DragMonitor<u32> {
    DragMonitor::new(Platform::MacOs)
}

#[test]
fn drag_monitor_start_and_stop_are_idempotent() {
    let mut m = fresh();
    assert!(!m.is_monitoring());
    assert_eq!(m.start_drag_monitor().unwrap(), StartAction::InstallHook);
    assert_eq!(m.start_drag_monitor().unwrap(), StartAction::AlreadyRunning);
    assert!(m.is_monitoring());
    assert_eq!(m.stop_drag_monitor().unwrap(), StopAction::ShutdownWorker);
    assert_eq!(m.stop_drag_monitor().unwrap(), StopAction::AlreadyStopped);
    assert!(!m.is_monitoring());
}

#[test]
fn drag_subscription_ids_start_at_one_and_grow() {
    let mut m = fresh();
    let id1 = m.on_drag_event(5).unwrap();
    assert_eq!(id1, 1);
    assert_eq!(m.remove_drag_event_listener(id1).unwrap(), true);
    let id2 = m.on_drag_event(6).unwrap();
    assert!(id2 > id1);
}

#[test]
fn removing_listener_zero_is_an_error() {
    let mut m = fresh();
    let err = m.remove_drag_event_listener(0).unwrap_err();
    assert_eq!(err, MonitorError::CallbackIdZero);
    assert_eq!(err.message(), "Callback ID cannot be 0");
}

#[test]
fn simulating_with_no_files_is_an_error() {
    let m = fresh();
    let err = m.simulate_drag_event(Vec::new(), 0).unwrap_err();
    assert_eq!(err, MonitorError::EmptyFileList);
    assert_eq!(err.message(), "Files array cannot be empty");
}

#[test]
fn simulated_events_reach_every_subscriber() {
    let mut m = fresh();
    m.start_drag_monitor().unwrap();
    let a = m.on_drag_event(1).unwrap();
    let b = m.on_drag_event(2).unwrap();
    let files = vec![String::from("/tmp/x"), String::from("/tmp/y")];
    let (ev, targets) = m.simulate_drag_event(files.clone(), 99).unwrap();
    assert_eq!(ev.files, files);
    assert_eq!(ev.timestamp, 99);
    assert_eq!((ev.x, ev.y), (0, 0));
    assert_eq!(ev.platform, Platform::MacOs);
    assert_eq!(targets, vec![a, b]);
}

#[test]
fn stop_clears_subscribers_so_injection_reaches_nobody() {
    let mut m = fresh();
    m.start_drag_monitor().unwrap();
    m.on_drag_event(1).unwrap();
    let mut counter = 0usize;
    let (_, targets) = m.simulate_drag_event(vec![String::from("/tmp/a")], 1).unwrap();
    counter += targets.len();
    assert_eq!(counter, 1);
    m.stop_drag_monitor().unwrap();
    let (_, targets) = m.simulate_drag_event(vec![String::from("/tmp/a")], 2).unwrap();
    counter += targets.len();
    assert_eq!(counter, 1);
}

#[test]
fn a_dropped_helper_line_dispatches_one_translated_event() {
    let mut m = fresh();
    m.start_drag_monitor().unwrap();
    let id = m.on_drag_event(4).unwrap();
    let (ev, targets) = m
        .handle_helper_line("{\"event_type\":\"dropped\",\"path\":\"/tmp/a.txt\",\"x\":1.0,\"y\":2.0}")
        .unwrap();
    assert_eq!(ev.kind, HelperEventType::Dropped);
    assert_eq!(ev.event_type(), "dropped_file");
    assert_eq!(ev.file_path.as_deref(), Some("/tmp/a.txt"));
    assert_eq!((ev.x, ev.y), (1, 2));
    assert_eq!(targets, vec![id]);
}

#[test]
fn a_malformed_helper_line_is_skipped_without_crashing_the_reader() {
    let m = fresh();
    assert!(m.handle_helper_line("not json").is_none());
    assert!(m.handle_helper_line("{\"event_type\":\"dropped\"}").is_none());
    assert!(m.handle_helper_line("").is_none());
}

#[test]
fn hover_and_cancel_lines_translate_to_their_names() {
    let m = fresh();
    let (ev, _) = m
        .handle_helper_line("{\"event_type\":\"hovered\",\"path\":\"/f\",\"x\":0,\"y\":0}")
        .unwrap();
    assert_eq!(ev.event_type(), "hovered_file");
    let (ev, _) = m
        .handle_helper_line("{\"event_type\":\"cancelled\",\"path\":null,\"x\":0,\"y\":0}")
        .unwrap();
    assert_eq!(ev.event_type(), "hovered_file_cancelled");
    assert!(ev.file_path.is_none());
}
