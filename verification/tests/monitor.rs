use reai_board_sdk::kernel::event::{BoardEvent, KeySource};
use reai_board_sdk::kernel::protocol_hid::{
    find_key_index_by_value, key_index_to_mode, AI_VOICE_MEDIA_CODE, CMD_AI_FACTORY_KEY_EVENT,
    CMD_STATUS, CMD_WORK_MODE_DATA, FACTORY_KEY_TEST_PROTOCOL_VERSION, REPORT_ID_INPUT,
    REPORT_ID_KEY_EVENT,
};
use reai_board_sdk::kernel::types::ConnectionType;
use reai_board_sdk::runtime::usb::monitor::{
    HidMonitor, MonitorConfig, MonitorRead, MonitorTurn,
};

const MS: u64 = 1_000_000;

fn keys_of(events: &[BoardEvent]) -> Vec<(usize, bool)> {
    events
        .iter()
        .filter_map(|event| match event {
            BoardEvent::KeyPress(key) => Some((key.key_index, key.pressed)),
            _ => None,
        })
        .collect()
}

fn voice_of(events: &[BoardEvent]) -> Vec<bool> {
    events
        .iter()
        .filter_map(|event| match event {
            BoardEvent::AiVoiceKey(voice) => Some(voice.pressed),
            _ => None,
        })
        .collect()
}

fn consumer_frame(monitor: &mut HidMonitor, value: u16, now_ns: u64) -> Vec<BoardEvent> {
    let buf = [0x03, (value & 0xFF) as u8, (value >> 8) as u8];
    let step = monitor.monitor_consumer_loop(MonitorRead::Report { buf: &buf, len: 3 }, now_ns);
    assert!(!step.ended);
    step.events
}

#[test]
fn test_parse_key_mask_empty() {
    assert!(HidMonitor::parse_key_mask(0x00).is_empty());
}

#[test]
fn test_parse_key_mask_single() {
    let keys = HidMonitor::parse_key_mask(0x01);
    assert_eq!(keys.len(), 1);
    assert_eq!(keys[0].0, 6);
}

#[test]
fn test_parse_key_mask_combo() {
    let keys = HidMonitor::parse_key_mask(0x03);
    assert_eq!(keys.len(), 2);
    assert_eq!(keys[0].0, 6);
    assert_eq!(keys[1].0, 7);
}

#[test]
fn config_monitor_emits_factory_physical_event() {
    let mut monitor = HidMonitor::new();
    let data = [
        REPORT_ID_INPUT,
        CMD_AI_FACTORY_KEY_EVENT,
        0x06,
        FACTORY_KEY_TEST_PROTOCOL_VERSION,
        0x34,
        0x12,
        0x04,
        0x01,
        0x2A,
    ];

    let events = monitor.handle_config_data(&data, data.len());
    match events.first().expect("factory event") {
        BoardEvent::FactoryKey(event) => {
            assert_eq!(event.session, 0x1234);
            assert_eq!(event.input_index, 4);
            assert!(event.pressed);
        }
        other => panic!("unexpected event: {other:?}"),
    }
}

#[test]
fn test_find_key_index_by_value() {
    assert_eq!(find_key_index_by_value(0x0F04), Some(6));
    assert_eq!(find_key_index_by_value(0x0F0C), Some(11));
    assert_eq!(find_key_index_by_value(0xFFFF), None);
}

#[test]
fn test_key_index_to_mode() {
    assert_eq!(key_index_to_mode(9), Some((1, "YOLO")));
    assert_eq!(key_index_to_mode(10), Some((2, "PLAN")));
    assert_eq!(key_index_to_mode(11), Some((0, "CHAT")));
    assert_eq!(key_index_to_mode(6), None);
}

#[test]
fn every_mask_bit_names_its_key() {
    let keys: Vec<usize> = HidMonitor::parse_key_mask(0xFF).iter().map(|k| k.0).collect();
    assert_eq!(keys, vec![0, 1, 2, 6, 7, 8]);
    assert_eq!(HidMonitor::parse_key_mask(0x08), vec![(0, "音量A相(KEY0)")]);
    assert!(HidMonitor::parse_key_mask(0xC0).is_empty());
}

#[test]
fn a_mask_report_presses_and_an_empty_one_releases() {
    let mut monitor = HidMonitor::new();
    let pressed = monitor.handle_config_data(&[REPORT_ID_KEY_EVENT, 0, 1, 0x03], 4);
    assert_eq!(keys_of(&pressed), vec![(6, true), (7, true)]);
    match &pressed[0] {
        BoardEvent::KeyPress(key) => {
            assert_eq!(key.key_name, "AI语音(KEY6)");
            assert_eq!(key.key_value, 0x03);
            assert_eq!(key.source, KeySource::Config);
        }
        other => panic!("unexpected event: {other:?}"),
    }
    match &pressed[2] {
        BoardEvent::ComboKey(combo) => {
            assert_eq!(combo.keys, vec![6, 7]);
            assert_eq!(combo.config_mask, Some(0x03));
        }
        other => panic!("unexpected event: {other:?}"),
    }
    let released = monitor.handle_config_data(&[REPORT_ID_KEY_EVENT, 0, 1, 0x00], 4);
    assert_eq!(keys_of(&released), vec![(6, false), (7, false)]);
    assert_eq!(monitor.stats().key_event_count, 1);
    assert!(monitor.handle_config_data(&[REPORT_ID_KEY_EVENT, 0, 1, 0x01], 3).is_empty());
}

#[test]
fn a_status_report_moves_the_mode() {
    let mut monitor = HidMonitor::new();
    let report = [REPORT_ID_INPUT, CMD_STATUS, 2, CMD_WORK_MODE_DATA, 2, 0];
    match monitor.handle_config_data(&report, 5).first() {
        Some(BoardEvent::ModeChange(mode)) => {
            assert_eq!(mode.mode, "PLAN");
            assert_eq!(mode.mode_value, 2);
        }
        other => panic!("unexpected event: {other:?}"),
    }
    assert_eq!(monitor.stats().status_event_count, 1);
    let unknown = [REPORT_ID_INPUT, CMD_STATUS, 2, CMD_WORK_MODE_DATA, 7, 0];
    assert!(monitor.handle_config_data(&unknown, 5).is_empty());
    assert_eq!(monitor.stats().status_event_count, 1);
}

#[test]
fn turning_the_knob_keeps_held_keys_and_the_voice_key_down() {
    let mut monitor = HidMonitor::new();
    monitor.start_config_monitor();
    monitor.start_consumer_monitor();
    let voice = consumer_frame(&mut monitor, AI_VOICE_MEDIA_CODE, 0);
    assert_eq!(voice_of(&voice), vec![true]);
    let turned = consumer_frame(&mut monitor, 0x0F08, 500 * MS);
    assert_eq!(keys_of(&turned), vec![(1, true), (1, false)]);
    assert!(consumer_frame(&mut monitor, 0, 502 * MS).is_empty());
    assert!(monitor.is_ai_voice_pressed());
    let released = consumer_frame(&mut monitor, 0, 900 * MS);
    assert_eq!(keys_of(&released), vec![(6, false)]);
    assert_eq!(voice_of(&released), vec![false]);
    assert!(!monitor.is_ai_voice_pressed());
}

#[test]
fn the_lever_reports_its_mode_over_the_consumer_channel() {
    let mut monitor = HidMonitor::new();
    let events = consumer_frame(&mut monitor, 0x0F0A, 0);
    match events.last() {
        Some(BoardEvent::ModeChange(mode)) => assert_eq!(mode.mode, "YOLO"),
        other => panic!("unexpected event: {other:?}"),
    }
}

#[test]
fn five_errors_or_a_lost_device_end_a_loop_and_release_its_keys() {
    let mut monitor = HidMonitor::new();
    assert!(monitor.start_config_monitor());
    assert!(!monitor.start_config_monitor());
    monitor.handle_config_data(&[REPORT_ID_KEY_EVENT, 0, 1, 0x01], 4);
    for _ in 0..4 {
        let step = monitor.monitor_config_loop(MonitorRead::Failed("timed out"));
        assert!(!step.ended && step.events.is_empty());
    }
    let last = monitor.monitor_config_loop(MonitorRead::Failed("timed out"));
    assert!(last.ended);
    assert_eq!(keys_of(&last.events), vec![(6, false)]);
    assert!(!monitor.is_running());

    let mut other = HidMonitor::new();
    other.start_config_monitor();
    other.start_consumer_monitor();
    consumer_frame(&mut other, AI_VOICE_MEDIA_CODE, 0);
    let gone = other.monitor_consumer_loop(MonitorRead::Failed("the device was removed"), 1);
    assert!(gone.ended);
    assert_eq!(keys_of(&gone.events), vec![(6, false)]);
    assert_eq!(voice_of(&gone.events), vec![false]);
}

#[test]
fn a_good_read_starts_the_error_count_anew() {
    let mut monitor = HidMonitor::new();
    monitor.start_config_monitor();
    for _ in 0..4 {
        monitor.monitor_config_loop(MonitorRead::Failed("timed out"));
    }
    let report = [REPORT_ID_INPUT, 0, 0];
    monitor.monitor_config_loop(MonitorRead::Report { buf: &report, len: 3 });
    for _ in 0..4 {
        assert!(!monitor.monitor_config_loop(MonitorRead::Failed("timed out")).ended);
    }
}

#[test]
fn a_paused_monitor_leaves_the_interface_alone() {
    let mut monitor = HidMonitor::new();
    assert_eq!(monitor.config_turn(), MonitorTurn::Exit);
    monitor.start_config_monitor();
    assert_eq!(monitor.config_turn(), MonitorTurn::Read(10));
    monitor.pause();
    assert_eq!(monitor.config_turn(), MonitorTurn::Idle(5));
    assert_eq!(monitor.consumer_turn(), MonitorTurn::Read(10));
    monitor.resume();
    assert_eq!(monitor.config_turn(), MonitorTurn::Read(10));
    monitor.stop();
    assert_eq!(monitor.consumer_turn(), MonitorTurn::Exit);
    let closed = monitor.monitor_config_loop(MonitorRead::Closed);
    assert!(closed.ended && closed.events.is_empty());
}

#[test]
fn the_default_monitor_reads_usb() {
    let config = MonitorConfig::default();
    assert_eq!(config.connection_type, ConnectionType::Usb);
    assert_eq!(config.audio_timeout_ms, 1000);
    assert!(!config.enable_consumer_interface);
}
