use reai_board_sdk::kernel::audio::AudioCapabilityState;
use reai_board_sdk::kernel::event::DisconnectReason;
use reai_board_sdk::kernel::protocol_hid::{HidPacket, KeyConfig};
use reai_board_sdk::kernel::types::SleepTimeout;
use reai_board_sdk::runtime::commands::CommandReply;
use reai_board_sdk::runtime::device::{
    build_audio_sink, initial_mode_event, AudioStartAction, AudioStartEvent, BoardAudioStart,
    BoardDeviceCore, InitialQuery, ReaderPlan, SinkChoice,
};
use reai_board_sdk::runtime::hotplug::HotplugConfig;
use reai_board_sdk::{
    AudioCapabilities, AudioStreamAction, AudioStreamScope, AudioStreamState, AudioTransport,
    BoardError, BoardEvent, ConnectionType, ModeSource, WorkMode,
};

fn opened() -> BoardDeviceCore {
    BoardDeviceCore::new(HotplugConfig::default()).unwrap()
}

const USB: Option<ConnectionType> = Some(ConnectionType::Usb);
const BLE: Option<ConnectionType> = Some(ConnectionType::Ble);

fn text<T>(r: Result<T, BoardError>) -> String {
    match r {
        Ok(_) => panic!("an error was expected"),
        Err(e) => e.message(),
    }
}

fn gatt(bytes: &[u8]) -> CommandReply {
    CommandReply::Gatt(bytes.to_vec())
}

/// Capabilities: protocol version, all four bits, envelope 1, payload limits, TTLs.
fn capabilities() -> CommandReply {
    gatt(&[0x6E, 13, 0, 1, 0x0F, 0, 0, 0, 1, 57, 171, 0x88, 0x13, 0x98, 0x3A])
}

fn stream_reply(result: u8, transport: u8, scope: u8, lease: u32) -> CommandReply {
    let l = lease.to_le_bytes();
    gatt(&[
        0x6F, 10, result, 1, transport, scope, l[0], l[1], l[2], l[3], 0x88, 0x13,
    ])
}

fn ble_device_with_lease() -> BoardDeviceCore {
    let mut device = opened();
    device.start();
    device.on_connection_change(BLE);
    device.audio_capabilities_replied(&capabilities()).expect("capabilities");
    let outcome = device.audio_stream_replied(
        AudioStreamAction::Start,
        AudioTransport::BleGatt,
        AudioStreamScope::Session,
        7,
        &stream_reply(0, 2, 1, 7),
    );
    outcome.result.expect("lease");
    device
}

#[test]
fn an_opened_device_is_idle() {
    let device = opened();
    assert_eq!(device.connection(), None);
    assert!(!device.is_connected());
    assert!(!device.auto_reconnect());
    assert_eq!(device.ble_target(), None);
    assert_eq!(device.audio_capability_state(), AudioCapabilityState::Unqueried);
    assert_eq!(device.audio_capabilities(), AudioCapabilities::default());
    assert_eq!(device.active_audio_transport(), None);
}

#[test]
fn a_device_keeps_its_hotplug_intervals() {
    let config = HotplugConfig { retry_interval_ms: 750, check_interval_ms: 1_250 };
    let mut device = BoardDeviceCore::new(config).unwrap();
    assert_eq!(device.hotplug_config(), config);
    device.start();
    device.set_auto_reconnect(true);
    assert_eq!(device.hotplug_config(), config);
    assert_eq!(
        opened().hotplug_config(),
        HotplugConfig { retry_interval_ms: 2_000, check_interval_ms: 5_000 }
    );
}

#[test]
fn starting_twice_starts_once() {
    let mut device = opened();
    assert!(device.start());
    assert!(!device.start());
    device.shutdown();
    assert!(device.start());
}

#[test]
fn connecting_opens_no_audio_but_asks_the_board() {
    let mut device = opened();
    device.start();
    let plan = device.on_connection_change(USB);
    assert!(!plan.stop_usb_audio && !plan.stop_ble_audio);
    assert_eq!(plan.queries, vec![InitialQuery::WorkMode, InitialQuery::AppOnline]);
    assert_eq!(device.active_audio_transport(), None);
    let plan = device.on_connection_change(BLE);
    assert_eq!(
        plan.queries,
        vec![
            InitialQuery::Pause(500),
            InitialQuery::DeviceInfo,
            InitialQuery::WorkMode,
            InitialQuery::AppOnline,
        ]
    );
    assert!(!device.is_ble_audio_enabled());
}

#[test]
fn a_lost_connection_forgets_its_audio() {
    let mut device = ble_device_with_lease();
    assert!(matches!(
        device.start_board_audio_reader(AudioTransport::BleGatt, false, true),
        ReaderPlan::StartBle
    ));
    assert!(device.is_ble_audio_enabled());
    let plan = device.on_connection_change(None);
    assert!(plan.stop_ble_audio);
    assert!(plan.queries.is_empty());
    assert!(!device.is_ble_audio_enabled());
    assert_eq!(device.active_audio_transport(), None);
    assert_eq!(device.audio_capability_state(), AudioCapabilityState::Unqueried);
    assert!(!device.is_connected());
}

#[test]
fn a_reader_needs_capability_and_lease() {
    let mut device = opened();
    device.on_connection_change(BLE);
    match device.start_board_audio_reader(AudioTransport::BleGatt, false, true) {
        ReaderPlan::Refused(e) => assert_eq!(e.message(), "当前 capability 不支持 BleGatt"),
        _ => panic!("no capability"),
    }
    device.audio_capabilities_replied(&capabilities()).unwrap();
    assert!(matches!(device.audio_capability_state(), AudioCapabilityState::Ready(_)));
    match device.start_board_audio_reader(AudioTransport::BleGatt, false, true) {
        ReaderPlan::Refused(e) => assert_eq!(
            e.message(),
            "必须先为 BleGatt 成功建立固件 audio stream lease"
        ),
        _ => panic!("no lease"),
    }
}

#[test]
fn a_refused_switch_leaves_the_running_route_alone() {
    let mut device = ble_device_with_lease();
    device.start_board_audio_reader(AudioTransport::BleGatt, false, true);
    assert!(matches!(
        device.start_board_audio_reader(AudioTransport::UsbVendorHid, false, true),
        ReaderPlan::Refused(_)
    ));
    assert_eq!(device.active_audio_transport(), Some(AudioTransport::BleGatt));
    assert!(device.is_ble_audio_enabled());
    assert!(matches!(
        device.start_board_audio_reader(AudioTransport::BleGatt, false, true),
        ReaderPlan::Running
    ));
}

#[test]
fn a_reader_without_a_client_fails_after_the_old_route_is_closed() {
    let mut device = ble_device_with_lease();
    match device.start_board_audio_reader(AudioTransport::BleGatt, false, false) {
        ReaderPlan::Failed(e) => assert_eq!(e.message(), "VendorGattClient 未就绪"),
        _ => panic!("no client"),
    }
    assert_eq!(device.active_audio_transport(), None);
}

#[test]
fn a_usb_reader_runs_in_the_epoch_of_its_connection() {
    let mut device = opened();
    device.on_connection_change(USB);
    device.on_connection_change(None);
    device.on_connection_change(USB);
    device.audio_capabilities_replied(&capabilities()).unwrap();
    device
        .audio_stream_replied(
            AudioStreamAction::Start,
            AudioTransport::UsbVendorHid,
            AudioStreamScope::Timeline,
            9,
            &stream_reply(0, 1, 2, 9),
        )
        .result
        .expect("lease");
    assert!(matches!(
        device.start_board_audio_reader(AudioTransport::UsbVendorHid, false, false),
        ReaderPlan::StartUsb { epoch: 2 }
    ));
    assert_eq!(device.active_audio_transport(), None);
    device.usb_reader_started();
    assert_eq!(device.active_audio_transport(), Some(AudioTransport::UsbVendorHid));
    assert!(matches!(
        device.start_board_audio_reader(AudioTransport::UsbVendorHid, true, false),
        ReaderPlan::Running
    ));
}

#[test]
fn stream_answers_keep_or_drop_the_lease() {
    let mut device = ble_device_with_lease();
    device.start_board_audio_reader(AudioTransport::BleGatt, false, true);
    let busy = device.audio_stream_replied(
        AudioStreamAction::Heartbeat,
        AudioTransport::BleGatt,
        AudioStreamScope::Session,
        7,
        &stream_reply(2, 2, 1, 7),
    );
    assert_eq!(text(busy.result), "audio stream-control 被固件拒绝: Busy");
    assert!(!busy.stop_readers);
    assert!(device.is_ble_audio_enabled());
    let stranger = device.audio_stream_replied(
        AudioStreamAction::Heartbeat,
        AudioTransport::BleGatt,
        AudioStreamScope::Session,
        7,
        &stream_reply(0, 2, 1, 8),
    );
    assert_eq!(
        text(stranger.result),
        "audio stream-control 回包与请求 owner/scope/lease 不一致"
    );
    let invalid = device.audio_stream_replied(
        AudioStreamAction::Heartbeat,
        AudioTransport::BleGatt,
        AudioStreamScope::Session,
        7,
        &gatt(&[]),
    );
    assert_eq!(text(invalid.result), "audio stream-control 响应无效");
    let lost = device.audio_stream_replied(
        AudioStreamAction::Heartbeat,
        AudioTransport::BleGatt,
        AudioStreamScope::Session,
        7,
        &stream_reply(3, 2, 1, 7),
    );
    assert_eq!(text(lost.result), "audio stream-control 被固件拒绝: LeaseMismatch");
    assert!(lost.stop_readers);
    assert_eq!(device.active_audio_transport(), None);
}

#[test]
fn stream_requests_are_checked_before_they_are_sent() {
    let mut device = opened();
    let start = AudioStreamAction::Start;
    let scope = AudioStreamScope::Session;
    let zero = device.control_audio_stream(start, AudioTransport::BleGatt, scope, 0, 5000);
    assert_eq!(text(zero), "audio lease_id 不能为 0");
    let system = device.control_audio_stream(start, AudioTransport::System, scope, 1, 5000);
    assert_eq!(text(system), "系统/UAC 输入不使用固件 stream lease");
    let idle = device.control_audio_stream(start, AudioTransport::BleGatt, scope, 1, 5000);
    assert_eq!(text(idle), "设备未连接");
    device.on_connection_change(BLE);
    let sent = device
        .control_audio_stream(start, AudioTransport::BleGatt, scope, 1, 5000)
        .unwrap();
    assert_eq!(
        Some(sent.packet),
        HidPacket::audio_stream_control(start, AudioTransport::BleGatt, scope, 1, 5000)
    );
    assert_eq!(sent.expected_cmd, 0x6F);
}

#[test]
fn capture_through_the_system_waits_for_the_lease() {
    let mut device = opened();
    assert_eq!(text(device.start_usb_uac_compat(true)), "当前不是 USB 连接");
    device.on_connection_change(USB);
    assert_eq!(text(device.start_usb_uac_compat(false)), "尚未设置 PcmSink");
    assert!(device.start_usb_uac_compat(true).is_ok());
    assert_eq!(device.active_audio_transport(), Some(AudioTransport::UsbUac));
    device.stop_local_audio_reader();
    assert_eq!(device.active_audio_transport(), None);
    device.audio_capabilities_replied(&capabilities()).unwrap();
    device.audio_stream_replied(
        AudioStreamAction::Start,
        AudioTransport::UsbVendorHid,
        AudioStreamScope::Session,
        3,
        &stream_reply(0, 1, 1, 3),
    );
    assert_eq!(
        text(device.start_usb_uac_compat(true)),
        "Board audio lease 仍活跃，必须先显式 STOP 后才能打开 UAC"
    );
}

#[test]
fn the_old_ble_delivery_needs_ble() {
    let mut device = opened();
    assert_eq!(
        text(device.start_legacy_ble_session_reader(true)),
        "旧 envelope 仅支持 BLE session"
    );
    device.on_connection_change(BLE);
    assert_eq!(
        text(device.start_legacy_ble_session_reader(false)),
        "VendorGattClient 未就绪"
    );
    assert!(device.start_legacy_ble_session_reader(true).is_ok());
    assert!(device.is_ble_audio_enabled());
    assert_eq!(device.active_audio_transport(), Some(AudioTransport::BleGatt));
}

#[test]
fn old_firmware_has_no_board_audio() {
    let mut device = opened();
    device.on_connection_change(BLE);
    assert_eq!(
        text(device.audio_capabilities_replied(&gatt(&[0x6E]))),
        "固件不支持版本化板载音频 capability"
    );
    assert_eq!(device.audio_capability_state(), AudioCapabilityState::Unavailable);
}

#[test]
fn disconnecting_depends_on_the_connection() {
    let mut device = opened();
    assert!(matches!(device.disconnect(), Ok(None)));
    device.on_connection_change(USB);
    assert_eq!(text(device.disconnect()), "USB 为物理连接，无法主动断开（请拔出线缆）");
    device.connect_ble("REAI_VB_A".to_string());
    assert!(device.auto_reconnect());
    assert_eq!(device.ble_target(), Some("REAI_VB_A".to_string()));
    device.on_connection_change(BLE);
    match device.disconnect() {
        Ok(Some(BoardEvent::Connection(e))) => {
            assert!(!e.connected);
            assert_eq!(e.reason, Some(DisconnectReason::UserAction));
        }
        _ => panic!("a disconnect event was expected"),
    }
    assert!(!device.is_connected() && !device.auto_reconnect());
    assert_eq!(device.ble_target(), None);
}

#[test]
fn every_command_has_its_packet() {
    let mut device = opened();
    assert_eq!(text(device.read_device_info()), "设备未连接");
    device.on_connection_change(USB);
    assert_eq!(device.read_device_info().unwrap().expected_cmd, 0x13);
    assert_eq!(device.read_key_config().unwrap().expected_cmd, 0x15);
    let config = KeyConfig::new();
    assert_eq!(device.write_key_config(&config).unwrap().expected_cmd, 0x16);
    assert_eq!(device.get_work_mode().unwrap().expected_cmd, 0x12);
    assert_eq!(device.get_silent_record().unwrap().expected_cmd, 0x61);
    assert_eq!(
        device.set_silent_record(true).unwrap().packet,
        HidPacket::set_silent_record(true)
    );
    assert_eq!(device.get_sleep_timeout().unwrap().expected_cmd, 0x63);
    let timeout = SleepTimeout::new(60, 600);
    assert_eq!(
        device.set_sleep_timeout(timeout).unwrap().packet,
        HidPacket::set_sleep_timeout(timeout)
    );
    assert_eq!(
        device.notify_app_online(false).unwrap().packet,
        HidPacket::app_online_notify(false)
    );
    assert_eq!(device.get_app_online().unwrap().expected_cmd, 0x66);
    assert_eq!(device.get_open_url().unwrap().expected_cmd, 0x67);
    let url = device.set_open_url("https://b.reai.com").unwrap();
    assert_eq!(&url.packet[3..21], b"https://b.reai.com");
    assert_eq!(url.packet[21], 0);
    let long = "x".repeat(63);
    assert_eq!(device.set_open_url(&long).unwrap().packet, HidPacket::set_open_url(&long));
    assert_eq!(device.shutdown_device(true).unwrap().packet, HidPacket::shutdown(true));
    assert_eq!(device.query_audio_capabilities().unwrap().expected_cmd, 0x6E);
    assert!(device.set_factory_key_test(true, 0).is_err());
    assert_eq!(device.set_factory_key_test(true, 1).unwrap().expected_cmd, 0x6C);
}

#[test]
fn upgrades_need_usb_and_a_file() {
    let mut device = opened();
    assert_eq!(text(device.dfu_upgrade(10)), "设备未连接");
    device.on_connection_change(BLE);
    assert_eq!(text(device.dfu_upgrade(10)), "固件升级仅支持 USB 连接（当前 Ble）");
    device.on_connection_change(USB);
    assert_eq!(text(device.dfu_upgrade(0)), "固件文件为空");
    assert!(device.dfu_upgrade(10).is_ok());
}

#[test]
fn the_first_mode_is_announced_as_read() {
    match initial_mode_event(WorkMode::Plan) {
        BoardEvent::ModeChange(e) => {
            assert_eq!(e.mode, "PLAN");
            assert_eq!(e.mode_value, 2);
            assert_eq!(e.source, ModeSource::Connection);
        }
        _ => panic!("a mode event was expected"),
    }
}

#[test]
fn frame_sinks_come_before_sample_sinks() {
    assert_eq!(build_audio_sink(true, true), SinkChoice::Frames);
    assert_eq!(build_audio_sink(false, true), SinkChoice::Pcm);
    assert_eq!(build_audio_sink(false, false), SinkChoice::Counting);
}

fn ready() -> AudioCapabilities {
    AudioCapabilities::from_bits(1, 0x0F, 1, 57, 171, 5000, 15000)
}

fn leased(device: &mut BoardDeviceCore) -> AudioStreamState {
    device
        .audio_stream_replied(
            AudioStreamAction::Start,
            AudioTransport::BleGatt,
            AudioStreamScope::Session,
            7,
            &stream_reply(0, 2, 1, 7),
        )
        .result
        .expect("lease")
}

#[test]
fn a_start_goes_through_capability_lease_and_reader() {
    let mut device = opened();
    let state = leased(&mut device);
    let mut start = BoardAudioStart::start_board_audio(AudioTransport::BleGatt);
    assert!(matches!(
        start.step(AudioStartEvent::Capabilities(Ok(ready()))),
        AudioStartAction::TakeLease
    ));
    assert!(matches!(
        start.step(AudioStartEvent::Leased(Ok(state))),
        AudioStartAction::OpenReader
    ));
    match start.step(AudioStartEvent::Opened(Ok(()))) {
        AudioStartAction::Done(Ok(s)) => assert_eq!(s, state),
        _ => panic!("the start succeeds"),
    }
}

#[test]
fn a_failed_reader_gives_the_lease_back() {
    let mut device = opened();
    let state = leased(&mut device);
    let mut start = BoardAudioStart::start_board_audio(AudioTransport::BleGatt);
    start.step(AudioStartEvent::Capabilities(Ok(ready())));
    start.step(AudioStartEvent::Leased(Ok(state)));
    assert!(matches!(
        start.step(AudioStartEvent::Opened(Err(BoardError::NotConnected))),
        AudioStartAction::GiveBack
    ));
    match start.step(AudioStartEvent::RolledBack) {
        AudioStartAction::Done(Err(e)) => assert_eq!(e.message(), "设备未连接"),
        _ => panic!("the start fails"),
    }
}

#[test]
fn an_unsupported_transport_takes_no_lease() {
    let mut start = BoardAudioStart::start_board_audio(AudioTransport::BleGatt);
    match start.step(AudioStartEvent::Capabilities(Ok(AudioCapabilities::default()))) {
        AudioStartAction::Done(Err(e)) => {
            assert_eq!(e.message(), "当前 capability 不支持 BleGatt")
        }
        _ => panic!("the start fails"),
    }
}
