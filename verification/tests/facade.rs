use reai_board_sdk::facade::device::{
    update_mode_for_connection, work_mode_from_event_name, BoardConfig, ModeTracker,
};
use reai_board_sdk::facade::events::{recv, Received};
use reai_board_sdk::kernel::event::{ConnectionEvent, DisconnectReason, ModeChangeEvent, ModeSource};
use reai_board_sdk::kernel::protocol_hid::WorkMode;
use reai_board_sdk::{BoardEvent, EventStreamError};

#[test]
fn work_mode_snapshot_accepts_semantic_event_names() {
    assert_eq!(work_mode_from_event_name("CHAT"), Some(WorkMode::Chat));
    assert_eq!(work_mode_from_event_name("YOLO"), Some(WorkMode::Yolo));
    assert_eq!(work_mode_from_event_name("PLAN"), Some(WorkMode::Plan));
    assert_eq!(work_mode_from_event_name("2"), None);
}

#[test]
fn connection_event_does_not_invent_or_reset_mode() {
    let mut unknown = None;
    update_mode_for_connection(&mut unknown, true);
    assert_eq!(unknown, None);

    let mut mode = Some(WorkMode::Plan);
    update_mode_for_connection(&mut mode, true);
    assert_eq!(mode, Some(WorkMode::Plan));

    update_mode_for_connection(&mut mode, false);
    assert_eq!(mode, None);
}

fn mode(name: &str) -> BoardEvent {
    BoardEvent::ModeChange(ModeChangeEvent {
        mode: name.to_string(),
        mode_value: 9,
        source: ModeSource::Dial,
    })
}

#[test]
fn the_mode_does_not_outlive_the_connection() {
    let mut tracker = ModeTracker::new();
    assert_eq!(tracker.current_work_mode(true), None);
    tracker.on_event(&mode("YOLO"));
    tracker.on_event(&mode("?"));
    assert_eq!(tracker.current_work_mode(true), Some(WorkMode::Yolo));
    assert_eq!(tracker.current_work_mode(false), None);
    tracker.on_event(&BoardEvent::Connection(ConnectionEvent {
        connected: false,
        connection_type: None,
        reason: Some(DisconnectReason::DeviceGone),
    }));
    assert_eq!(tracker.current_work_mode(true), None);
    tracker.on_event(&mode("PLAN"));
    tracker.clear();
    assert_eq!(tracker.current_work_mode(true), None);
}

#[test]
fn a_slow_consumer_is_told_what_it_missed() {
    assert!(matches!(recv(Received::Closed), Ok(None)));
    assert!(matches!(recv(Received::Event(mode("CHAT"))), Ok(Some(BoardEvent::ModeChange(_)))));
    match recv(Received::Lagged(3)) {
        Err(EventStreamError::Lagged(n)) => {
            assert_eq!(n, 3);
            assert_eq!(EventStreamError::Lagged(n).message(), "事件溢出,跳过 3 条");
        }
        Ok(_) => panic!("events were missed"),
    }
}

#[test]
fn boards_are_looked_for_every_two_seconds_by_default() {
    let config = BoardConfig::default();
    assert_eq!(config.hotplug.retry_interval_ms, 2000);
    assert_eq!(config.hotplug.check_interval_ms, 5000);
}
