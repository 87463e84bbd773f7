use reai_board_sdk::kernel::event::{DeviceInfo, DisconnectReason, ReconnectState};
use reai_board_sdk::runtime::hotplug::{
    check_usb_preemption, detect_hid_connection, probe_device_mode, probe_usb_device_info,
    BlePreemptionCheck, HotplugAction, HotplugConfig, HotplugEffect, HotplugEvent, HotplugManager,
    HotplugStage, InfoProbe, ModeProbe, ProbeRead,
};
use reai_board_sdk::runtime::usb::device_manager::{HidBus, HidInterface};
use reai_board_sdk::{BoardEvent, ConnectionType};

fn interface(bus: HidBus) -> HidInterface {
    HidInterface {
        vendor_id: 0x363C,
        product_id: 0xED20,
        usage_page: 0xFFA0,
        usage: 2,
        interface_number: 0,
        bus,
    }
}

fn started() -> HotplugManager {
    let mut m = HotplugManager::new(HotplugConfig::default());
    let step = m.run(HotplugEvent::Started);
    assert!(matches!(step.action, HotplugAction::DetectUsb));
    assert_eq!(states(&step.effects), vec![ReconnectState::WaitingForDevice]);
    m
}

fn states(effects: &[HotplugEffect]) -> Vec<ReconnectState> {
    effects
        .iter()
        .filter_map(|e| match e {
            HotplugEffect::Emit(BoardEvent::Reconnect(r)) => Some(r.state),
            _ => None,
        })
        .collect()
}

fn changes(effects: &[HotplugEffect]) -> Vec<Option<ConnectionType>> {
    effects
        .iter()
        .filter_map(|e| match e {
            HotplugEffect::ConnectionChanged(c) => Some(*c),
            _ => None,
        })
        .collect()
}

fn reasons(effects: &[HotplugEffect]) -> Vec<Option<DisconnectReason>> {
    effects
        .iter()
        .filter_map(|e| match e {
            HotplugEffect::Emit(BoardEvent::Connection(c)) => Some(c.reason),
            _ => None,
        })
        .collect()
}

fn errors(effects: &[HotplugEffect]) -> Vec<String> {
    effects
        .iter()
        .filter_map(|e| match e {
            HotplugEffect::Emit(BoardEvent::Error(x)) => Some(x.message.clone()),
            _ => None,
        })
        .collect()
}

fn info() -> DeviceInfo {
    DeviceInfo {
        mode: 3,
        mac_address: "AA:BB:CC:DD:EE:FF".to_string(),
        receiver_version: "1.0".to_string(),
        firmware_version: "1.58".to_string(),
        battery_level: 90,
        battery_charging: false,
        battery_full: false,
        chip_id: "1CE60729".to_string(),
        connection_type: ConnectionType::Usb,
    }
}

fn detected(found: Option<ConnectionType>, link_alive: bool) -> HotplugEvent {
    HotplugEvent::UsbDetected { found, link_alive }
}

fn usb_session() -> HotplugManager {
    let mut m = started();
    let step = m.run(detected(Some(ConnectionType::Usb), false));
    assert!(matches!(step.action, HotplugAction::ConnectUsb));
    let step = m.run(HotplugEvent::UsbConnected);
    assert_eq!(changes(&step.effects), vec![Some(ConnectionType::Usb)]);
    assert_eq!(states(&step.effects), vec![ReconnectState::Connected]);
    assert!(matches!(step.action, HotplugAction::ReadDeviceInfo));
    m
}

fn ble_session(check_interval_ms: u64) -> HotplugManager {
    let mut m = HotplugManager::new(HotplugConfig {
        retry_interval_ms: 2000,
        check_interval_ms,
    });
    m.set_ble_target(Some("REAI_VB_A".to_string()));
    m.run(HotplugEvent::Started);
    assert!(matches!(m.run(detected(None, false)).action, HotplugAction::EnsureClient));
    match m.run(HotplugEvent::ClientReady).action {
        HotplugAction::Scan(Some(name)) => assert_eq!(name, "REAI_VB_A"),
        _ => panic!("a scan was expected"),
    }
    let step = m.run(HotplugEvent::Scanned("REAI_VB_A".to_string()));
    assert!(matches!(step.action, HotplugAction::ConnectBle));
    assert!(matches!(&step.effects[0], HotplugEffect::DeviceNamed(n) if n == "REAI_VB_A"));
    let step = m.run(HotplugEvent::BleConnected);
    assert_eq!(changes(&step.effects), vec![Some(ConnectionType::Ble)]);
    assert!(matches!(step.action, HotplugAction::StartNotifications));
    let step = m.run(HotplugEvent::NotificationsStarted { link_alive: true });
    assert!(matches!(step.action, HotplugAction::Sleep(ms) if ms == check_interval_ms));
    m
}

#[test]
fn without_a_remembered_board_ble_is_not_tried() {
    let mut m = started();
    assert!(matches!(m.run(detected(None, false)).action, HotplugAction::Sleep(2000)));
    assert_eq!(m.stage(), HotplugStage::Waiting);
    let step = m.run(HotplugEvent::Slept);
    assert!(matches!(step.action, HotplugAction::DetectUsb));
    assert!(step.effects.is_empty());
    m.set_ble_target(Some("REAI_VB_A".to_string()));
    m.set_ble_auto_connect(false);
    assert!(matches!(m.run(detected(None, false)).action, HotplugAction::Sleep(2000)));
}

#[test]
fn the_chip_names_the_ble_board() {
    let mut m = usb_session();
    let step = m.run(HotplugEvent::UsbInfo { info: Some(info()), link_alive: true });
    assert!(matches!(&step.effects[..], [HotplugEffect::Emit(BoardEvent::DeviceInfo(_))]));
    assert!(matches!(step.action, HotplugAction::Sleep(5000)));
    assert_eq!(m.ble_target(), Some("REAI_VB_1CE60729".to_string()));
}

#[test]
fn pulling_the_cable_ends_the_session() {
    let mut m = usb_session();
    m.run(HotplugEvent::UsbInfo { info: None, link_alive: true });
    assert!(matches!(m.run(HotplugEvent::Slept).action, HotplugAction::DetectUsb));
    assert!(matches!(m.run(detected(None, true)).action, HotplugAction::StopMonitor));
    let step = m.run(HotplugEvent::MonitorStopped);
    assert_eq!(changes(&step.effects), vec![None]);
    assert_eq!(reasons(&step.effects), vec![Some(DisconnectReason::DeviceGone)]);
    assert!(matches!(step.action, HotplugAction::Sleep(500)));
    let step = m.run(HotplugEvent::Slept);
    assert_eq!(states(&step.effects), vec![ReconnectState::WaitingForDevice]);
}

#[test]
fn a_dead_monitor_ends_the_session_and_a_stop_is_the_users() {
    let mut m = usb_session();
    let step = m.run(HotplugEvent::UsbInfo { info: None, link_alive: false });
    assert!(matches!(step.action, HotplugAction::StopMonitor));
    let step = m.run(HotplugEvent::MonitorStopped);
    assert_eq!(reasons(&step.effects), vec![Some(DisconnectReason::DeviceGone)]);

    let mut m = usb_session();
    m.request_stop(true);
    m.run(HotplugEvent::UsbInfo { info: None, link_alive: false });
    let step = m.run(HotplugEvent::MonitorStopped);
    assert_eq!(reasons(&step.effects), vec![Some(DisconnectReason::UserAction)]);
    let step = m.run(HotplugEvent::Slept);
    assert!(matches!(step.action, HotplugAction::Finish));
    assert!(step.effects.is_empty());
    assert_eq!(m.stage(), HotplugStage::Stopped);
    assert!(!m.is_running());
}

#[test]
fn failures_are_reported_and_retried() {
    let mut m = started();
    m.run(detected(Some(ConnectionType::Usb), false));
    let step = m.run(HotplugEvent::UsbConnectFailed("busy".to_string()));
    assert_eq!(errors(&step.effects), vec!["USB 连接失败: busy".to_string()]);
    assert_eq!(changes(&step.effects), vec![None]);
    assert!(matches!(step.action, HotplugAction::Sleep(500)));

    let mut m = HotplugManager::new(HotplugConfig::default());
    m.set_ble_target(Some("REAI_VB_A".to_string()));
    m.run(HotplugEvent::Started);
    m.run(detected(None, false));
    m.run(HotplugEvent::ClientReady);
    let step = m.run(HotplugEvent::ScanFailed("none".to_string()));
    assert_eq!(errors(&step.effects), vec!["BLE 扫描未发现设备: none".to_string()]);
    assert!(matches!(step.action, HotplugAction::Sleep(5000)));
    assert!(matches!(m.run(HotplugEvent::Slept).action, HotplugAction::Sleep(500)));
    m.run(HotplugEvent::Slept);
    m.run(detected(None, false));
    assert!(matches!(m.run(HotplugEvent::ClientFailed).action, HotplugAction::Sleep(5000)));
    m.run(HotplugEvent::Slept);
    m.run(HotplugEvent::Slept);
    m.run(detected(None, false));
    assert!(matches!(m.run(HotplugEvent::ClientMissing).action, HotplugAction::Sleep(500)));
    m.run(HotplugEvent::Slept);
    m.run(detected(None, false));
    m.run(HotplugEvent::ClientReady);
    m.run(HotplugEvent::Scanned("REAI_VB_A".to_string()));
    let step = m.run(HotplugEvent::BleConnectFailed("10s".to_string()));
    assert_eq!(errors(&step.effects), vec!["BLE 连接失败: 10s".to_string()]);
}

#[test]
fn a_stale_scan_result_is_dropped() {
    let mut m = HotplugManager::new(HotplugConfig::default());
    m.set_ble_target(Some("REAI_VB_A".to_string()));
    m.run(HotplugEvent::Started);
    m.run(detected(None, false));
    m.run(HotplugEvent::ClientReady);
    m.set_ble_target(Some("REAI_VB_B".to_string()));
    let step = m.run(HotplugEvent::Scanned("REAI_VB_A".to_string()));
    assert!(step.effects.is_empty());
    assert!(matches!(step.action, HotplugAction::Sleep(500)));
}

#[test]
fn the_cable_ends_a_ble_session() {
    let mut m = ble_session(500);
    assert!(matches!(m.run(HotplugEvent::Slept).action, HotplugAction::QuickCheck));
    let step = m.run(HotplugEvent::QuickChecked {
        check: BlePreemptionCheck::Preempt,
        link_alive: true,
    });
    assert!(matches!(step.action, HotplugAction::DisconnectBle));
    let step = m.run(HotplugEvent::BleDisconnected);
    assert_eq!(reasons(&step.effects), vec![Some(DisconnectReason::DeviceGone)]);
    assert_eq!(m.ble_target(), Some("REAI_VB_A".to_string()));
}

#[test]
fn every_tenth_check_is_a_full_one() {
    let mut m = ble_session(500);
    for _ in 0..9 {
        assert!(matches!(m.run(HotplugEvent::Slept).action, HotplugAction::QuickCheck));
        m.run(HotplugEvent::QuickChecked { check: BlePreemptionCheck::Keep, link_alive: true });
    }
    assert!(matches!(m.run(HotplugEvent::Slept).action, HotplugAction::DetectUsb));
    assert_eq!(m.stage(), HotplugStage::BleFull);
    assert!(matches!(m.run(detected(None, true)).action, HotplugAction::Sleep(500)));
    assert!(matches!(m.run(HotplugEvent::Slept).action, HotplugAction::QuickCheck));
    let step = m.run(HotplugEvent::QuickChecked {
        check: BlePreemptionCheck::NeedsFullCheck,
        link_alive: true,
    });
    assert!(matches!(step.action, HotplugAction::DetectUsb));
    let step = m.run(detected(Some(ConnectionType::Usb), true));
    assert!(matches!(step.action, HotplugAction::DisconnectBle));
}

#[test]
fn buses_decide_what_is_connected() {
    let cable = [interface(HidBus::Usb)];
    let unknown = [interface(HidBus::Unknown)];
    let radio = [interface(HidBus::Bluetooth)];
    assert_eq!(detect_hid_connection(Some(&cable), None), Some(ConnectionType::Usb));
    assert_eq!(detect_hid_connection(Some(&unknown), Some(3)), Some(ConnectionType::Usb));
    assert_eq!(detect_hid_connection(Some(&unknown), Some(2)), None);
    assert_eq!(detect_hid_connection(Some(&unknown), None), None);
    assert_eq!(detect_hid_connection(Some(&radio), Some(3)), None);
    assert_eq!(detect_hid_connection(None, Some(3)), None);
    assert_eq!(check_usb_preemption(Some(&unknown)), BlePreemptionCheck::Preempt);
    assert_eq!(check_usb_preemption(Some(&radio)), BlePreemptionCheck::Keep);
    assert_eq!(check_usb_preemption(None), BlePreemptionCheck::NeedsFullCheck);
}

#[test]
fn a_probe_reads_ten_times_at_most() {
    let mut other = [0u8; 64];
    other[1] = 0x01;
    for attempt in 0..9 {
        assert_eq!(
            probe_device_mode(attempt, ProbeRead::Report(other, 64)),
            ModeProbe::Again(attempt + 1)
        );
    }
    assert_eq!(probe_device_mode(9, ProbeRead::Report(other, 64)), ModeProbe::Done(None));
    let mut answer = [0u8; 64];
    answer[1] = 0x13;
    answer[4] = 3;
    assert_eq!(probe_device_mode(2, ProbeRead::Report(answer, 5)), ModeProbe::Done(Some(3)));
    assert_eq!(probe_device_mode(2, ProbeRead::Report(answer, 4)), ModeProbe::Again(3));
    assert_eq!(probe_device_mode(0, ProbeRead::Failed), ModeProbe::Done(None));
    answer[20..24].copy_from_slice(&[0x1C, 0xE6, 0x07, 0x29]);
    match probe_usb_device_info(0, ProbeRead::Report(answer, 64)) {
        InfoProbe::Done(Some(i)) => {
            assert_eq!(i.mode, 3);
            assert_eq!(i.chip_id, "1CE60729");
        }
        _ => panic!("the answer is complete"),
    }
    assert!(matches!(
        probe_usb_device_info(9, ProbeRead::Report(other, 64)),
        InfoProbe::Done(None)
    ));
    assert!(matches!(
        probe_usb_device_info(0, ProbeRead::Report(other, 64)),
        InfoProbe::Again(1)
    ));
}

#[test]
fn pulling_the_cable_leads_to_the_same_board_on_the_air() {
    let mut m = usb_session();
    m.set_ble_auto_connect(true);
    m.run(HotplugEvent::UsbInfo { info: Some(info()), link_alive: true });
    m.run(HotplugEvent::Slept);
    assert!(matches!(m.run(detected(None, true)).action, HotplugAction::StopMonitor));
    m.run(HotplugEvent::MonitorStopped);
    assert!(matches!(m.run(HotplugEvent::Slept).action, HotplugAction::DetectUsb));
    assert!(matches!(m.run(detected(None, true)).action, HotplugAction::EnsureClient));
    match m.run(HotplugEvent::ClientReady).action {
        HotplugAction::Scan(name) => assert_eq!(name, Some("REAI_VB_1CE60729".to_string())),
        _ => panic!("a scan was expected"),
    }
    assert_eq!(m.ble_target(), Some("REAI_VB_1CE60729".to_string()));
}
