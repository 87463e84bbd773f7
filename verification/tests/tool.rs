use reai_board_sdk::kernel::protocol_hid::CMD_GET_DEVICE_INFO;
use reai_board_sdk::kernel::types::ConnectionType;
use reai_board_sdk::tool::parse::parse_device_info_from_gatt;

#[test]
fn ble_device_info_carries_battery_and_firmware() {
    let mut payload = [0u8; 20];
    payload[0] = 2;
    payload[7] = 55;
    payload[8] = 1;
    payload[9] = 55;
    payload[10] = 1;
    payload[13] = 0;
    payload[14] = 73;
    payload[15] = 0;
    payload[16..20].copy_from_slice(&[0x1C, 0xE6, 0x07, 0x29]);

    let mut response = vec![CMD_GET_DEVICE_INFO, payload.len() as u8, 0x00];
    response.extend_from_slice(&payload);

    let info = parse_device_info_from_gatt(&response, ConnectionType::Ble).unwrap();
    assert_eq!(info.connection_type, ConnectionType::Ble);
    assert_eq!(info.firmware_version, "1.55");
    assert_eq!(info.battery_level, 73);
    assert_eq!(info.chip_id, "1CE60729");
}
