use std::sync::atomic::{AtomicBool, Ordering};

use reai_board_sdk::dfu::client::{
    build_enter_dfu_hid_command, DfuAction, DfuClient, DfuEvent, CMD_ENTER_HID_DFU_MODE,
};
use reai_board_sdk::dfu::protocol::{
    compute_checksum, DfuPacketEncoder, DfuResponse, DFU_DATA_PAYLOAD_MAX, DFU_OUTPUT_MAX_SIZE,
    DFU_REPORT_ID_OUTPUT, FLAG_DATA, FLAG_END, FLAG_PREPARE, FLAG_START, RESULT_FAIL,
    RESULT_SUCCESS,
};
use reai_board_sdk::dfu::recover::RECOVERY_DECLARED_LEN;
use reai_board_sdk::dfu::types::{DfuPhase, DfuProgress};
use reai_board_sdk::kernel::protocol_hid::REPORT_ID_OUTPUT;

#[test]
fn test_checksum_empty() {
    assert_eq!(compute_checksum(&[]), 0);
}

#[test]
fn test_checksum_simple() {
    assert_eq!(compute_checksum(&[0x01, 0x02, 0x03]), 6);
}

#[test]
fn test_checksum_overflow() {
    let data = vec![0xFF; 257];
    let cs = compute_checksum(&data);
    assert_eq!(cs, 255u16.wrapping_mul(257));
}

#[test]
fn test_prepare_packet() {
    let packet = DfuPacketEncoder::prepare(0x10000);
    assert_eq!(packet.len(), DFU_OUTPUT_MAX_SIZE);
    assert_eq!(packet[0], DFU_REPORT_ID_OUTPUT);
    assert_eq!(packet[1], FLAG_PREPARE);
    assert_eq!(&packet[2..6], &0x10000u32.to_le_bytes());
}

#[test]
fn test_start_packet() {
    let packet = DfuPacketEncoder::start();
    assert_eq!(packet[0], DFU_REPORT_ID_OUTPUT);
    assert_eq!(packet[1], FLAG_START);
}

#[test]
fn test_end_packet() {
    let packet = DfuPacketEncoder::end();
    assert_eq!(packet[0], DFU_REPORT_ID_OUTPUT);
    assert_eq!(packet[1], FLAG_END);
}

#[test]
fn test_data_packet() {
    let payload = vec![0xAB; 100];
    let packet = DfuPacketEncoder::data(&payload).unwrap();
    assert_eq!(packet[0], DFU_REPORT_ID_OUTPUT);
    assert_eq!(packet[1], FLAG_DATA);
    assert_eq!(u16::from_le_bytes([packet[2], packet[3]]), 100);
    assert_eq!(&packet[6..106], &payload[..]);
}

#[test]
fn test_data_packet_at_max_payload() {
    let payload = vec![0u8; DFU_DATA_PAYLOAD_MAX];
    assert!(DfuPacketEncoder::data(&payload).is_ok());
}

#[test]
fn test_data_packet_too_large() {
    let payload = vec![0u8; DFU_DATA_PAYLOAD_MAX + 1];
    assert!(DfuPacketEncoder::data(&payload).is_err());
}

#[test]
fn test_response_parse() {
    let mut data = vec![0u8; 64];
    data[0] = FLAG_DATA;
    data[1..3].copy_from_slice(&100u16.to_le_bytes());
    data[3..5].copy_from_slice(&0x1234u16.to_le_bytes());
    data[5] = RESULT_SUCCESS;
    data[6..10].copy_from_slice(&5000u32.to_le_bytes());

    let resp = DfuResponse::parse(&data).unwrap();
    assert_eq!(resp.flag, FLAG_DATA);
    assert_eq!(resp.packet_size, 100);
    assert_eq!(resp.checksum, 0x1234);
    assert_eq!(resp.result, RESULT_SUCCESS);
    assert_eq!(resp.total_written, 5000);
    assert!(resp.is_success());
}

#[test]
fn test_response_parse_fail() {
    let mut data = vec![0u8; 64];
    data[5] = RESULT_FAIL;
    let resp = DfuResponse::parse(&data).unwrap();
    assert!(!resp.is_success());
}

#[test]
fn test_response_parse_too_short() {
    let data = vec![0u8; 9];
    assert!(DfuResponse::parse(&data).is_err());
}

#[test]
fn declared_len_must_be_nonzero() {
    assert_ne!(RECOVERY_DECLARED_LEN, 0);
}

#[test]
fn declared_len_matches_cross_impl_contract() {
    assert_eq!(RECOVERY_DECLARED_LEN, 0x40000);
}

#[test]
fn recovery_prepare_packet_declares_nonzero_length() {
    let packet = DfuPacketEncoder::prepare(RECOVERY_DECLARED_LEN);
    assert_eq!(packet[0], DFU_REPORT_ID_OUTPUT);
    assert_eq!(packet[1], FLAG_PREPARE);
    let declared = u32::from_le_bytes([packet[2], packet[3], packet[4], packet[5]]);
    assert_eq!(declared, RECOVERY_DECLARED_LEN);
    assert_ne!(declared, 0);
}

#[test]
fn recovery_prepare_packet_checksum_covers_declared_length() {
    let packet = DfuPacketEncoder::prepare(RECOVERY_DECLARED_LEN);
    let checksum = u16::from_le_bytes([packet[6], packet[7]]);
    assert_eq!(
        checksum,
        compute_checksum(&RECOVERY_DECLARED_LEN.to_le_bytes())
    );
}

#[test]
fn recovery_end_packet_is_flag_end() {
    let packet = DfuPacketEncoder::end();
    assert_eq!(packet[0], DFU_REPORT_ID_OUTPUT);
    assert_eq!(packet[1], FLAG_END);
}

#[test]
fn percent_is_zero_division_safe() {
    let p = DfuProgress::new(DfuPhase::Preparing, 0, 0, None);
    assert_eq!(p.percent, 0);
}

#[test]
fn percent_caps_at_100() {
    let p = DfuProgress::new(DfuPhase::Transferring, 200, 100, None);
    assert_eq!(p.percent, 100);
}

#[test]
fn percent_rounds_down() {
    let p = DfuProgress::new(DfuPhase::Transferring, 1, 3, None);
    assert_eq!(p.percent, 33);
}

#[test]
fn phase_active_flag_distinguishes_terminal() {
    assert!(DfuPhase::Transferring.is_active());
    assert!(DfuPhase::EnteringDfu.is_active());
    assert!(!DfuPhase::Completed.is_active());
    assert!(!DfuPhase::Failed.is_active());
}

#[test]
fn enter_dfu_command_layout() {
    let cmd = build_enter_dfu_hid_command();
    assert_eq!(cmd[0], REPORT_ID_OUTPUT);
    assert_eq!(cmd[1], CMD_ENTER_HID_DFU_MODE);
    assert!(cmd[2..].iter().all(|&b| b == 0));
    assert_eq!(cmd.len(), 64);
}

#[test]
fn cancel_flag_is_checked() {
    let cancel = AtomicBool::new(false);
    let mut client = DfuClient::new(vec![0u8; 3]);
    let step = client.upgrade(DfuEvent::Done, cancel.load(Ordering::SeqCst));
    assert!(matches!(step.action, DfuAction::EnterDfu));
    assert!(!cancel.load(Ordering::SeqCst));
}
