use std::time::Duration;

use reai_board_sdk::runtime::hotplug::{
    ble_preemption_from_hid, decide_ble_preemption, decide_hid_detection,
    full_check_interval_ticks, BlePreemptionCheck, HidDetectionDecision,
};

fn millis(duration: Duration) -> u64 {
    duration.as_millis() as u64
}

#[test]
fn explicit_usb_hid_connects_without_waiting_for_audio() {
    assert_eq!(
        decide_hid_detection(true, false),
        HidDetectionDecision::Connected
    );
}

#[test]
fn usb_detection_requires_hid_and_never_uses_audio_endpoint_signal() {
    assert_eq!(
        decide_hid_detection(false, false),
        HidDetectionDecision::NotConnected
    );
}

#[test]
fn unknown_hid_bus_keeps_command_probe_fallback() {
    assert_eq!(
        decide_hid_detection(false, true),
        HidDetectionDecision::ProbeMode
    );
}

#[test]
fn bluetooth_only_target_is_not_misclassified_as_usb() {
    assert_eq!(
        decide_hid_detection(false, false),
        HidDetectionDecision::NotConnected
    );
}

#[test]
fn usb_hid_is_sufficient_without_any_audio_enumeration() {
    assert_eq!(
        decide_hid_detection(true, false),
        HidDetectionDecision::Connected
    );
}

#[test]
fn unknown_bus_target_still_triggers_preemption() {
    assert!(decide_ble_preemption(false, true));
    assert_eq!(
        decide_hid_detection(false, true),
        HidDetectionDecision::ProbeMode
    );
}

#[test]
fn usb_bus_target_triggers_preemption() {
    assert!(decide_ble_preemption(true, false));
}

#[test]
fn no_usb_side_target_keeps_the_ble_session() {
    assert!(!decide_ble_preemption(false, false));
}

#[test]
fn hid_unavailable_falls_back_to_full_check() {
    assert_eq!(
        ble_preemption_from_hid(None),
        BlePreemptionCheck::NeedsFullCheck
    );
}

#[test]
fn hid_available_maps_directly() {
    assert_eq!(
        ble_preemption_from_hid(Some(true)),
        BlePreemptionCheck::Preempt
    );
    assert_eq!(
        ble_preemption_from_hid(Some(false)),
        BlePreemptionCheck::Keep
    );
}

#[test]
fn driver_interval_keeps_most_checks_lightweight() {
    assert_eq!(full_check_interval_ticks(millis(Duration::from_millis(500))), 10);
}

#[test]
fn sdk_default_interval_always_runs_full_check() {
    assert_eq!(full_check_interval_ticks(millis(Duration::from_secs(5))), 1);
}

#[test]
fn long_interval_never_disables_full_check() {
    assert_eq!(full_check_interval_ticks(millis(Duration::from_secs(60))), 1);
}

#[test]
fn tiny_interval_does_not_starve_the_full_check() {
    assert_eq!(full_check_interval_ticks(millis(Duration::from_millis(1))), 20);
    assert_eq!(full_check_interval_ticks(millis(Duration::from_millis(0))), 20);
    assert_eq!(full_check_interval_ticks(millis(Duration::from_millis(100))), 20);
}
