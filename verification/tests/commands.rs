use reai_board_sdk::kernel::bindings_blob::BLOB_OFFSET_COMMIT;
use reai_board_sdk::kernel::protocol_hid::{
    FactoryKeyControlResult, HidPacket, KeyConfig, KeyInfo, WorkMode, CMD_AI_GET_APP_ONLINE,
    CMD_AI_GET_OPEN_URL, CMD_GET_DEVICE_INFO, CMD_GET_SILENT_RECORD, CMD_GET_SLEEP_TIMEOUT,
};
use reai_board_sdk::kernel::types::SleepTimeout;
use reai_board_sdk::runtime::commands::{
    app_online_reply, commit_reply, device_info_reply, exchange_gatt, exchange_usb,
    factory_key_test_reply, fmt_hex_prefix, fmt_hex_prefix_len, key_config_reply,
    key_config_written_reply, open_url_reply, read_chunk_reply, request, silent_record_reply,
    sleep_timeout_reply, work_mode_reply, write_chunk_reply, CommandReply,
};
use reai_board_sdk::{BoardError, ConnectionType};

fn usb(bytes: &[u8]) -> CommandReply {
    let mut buf = [0u8; 64];
    buf[..bytes.len()].copy_from_slice(bytes);
    CommandReply::Usb(buf, bytes.len())
}

fn gatt(bytes: &[u8]) -> CommandReply {
    CommandReply::Gatt(bytes.to_vec())
}

/// The same body over both transports: the HID reply carries a report id in front.
fn both(body: &[u8]) -> [CommandReply; 2] {
    let mut hid = vec![0x0A];
    hid.extend_from_slice(body);
    [usb(&hid), gatt(body)]
}

fn text<T>(r: Result<T, BoardError>) -> String {
    match r {
        Ok(_) => panic!("an error was expected"),
        Err(e) => e.message(),
    }
}

#[test]
fn a_command_needs_a_connection() {
    let packet = HidPacket::get_device_info();
    let e = request(None, packet, CMD_GET_DEVICE_INFO);
    assert_eq!(text(e), "设备未连接");
    let r = request(Some(ConnectionType::Ble), packet, CMD_GET_DEVICE_INFO).unwrap();
    assert_eq!(r.packet, packet);
    assert_eq!(r.expected_cmd, CMD_GET_DEVICE_INFO);
    assert_eq!(r.gatt_bytes(), vec![0x13, 0x02, 0, 0]);
}

fn info_body() -> Vec<u8> {
    let mut body = vec![CMD_GET_DEVICE_INFO, 20, 0];
    body.extend_from_slice(&[3, 0xAA, 0xBB, 0xCC, 0xDD, 0xEE, 0xFF, 7, 1, 58, 1, 0, 0, 1, 80, 0]);
    body.extend_from_slice(&[0x1C, 0xE6, 0x07, 0x29]);
    body
}

#[test]
fn device_info_reads_the_same_over_both_transports() {
    for reply in both(&info_body()) {
        let info = device_info_reply(&reply).unwrap();
        assert_eq!(info.mode, 3);
        assert_eq!(info.mac_address, "AA:BB:CC:DD:EE:FF");
        assert_eq!(info.receiver_version, "1.7");
        assert_eq!(info.firmware_version, "1.58");
        assert!(info.battery_charging && !info.battery_full);
        assert_eq!(info.battery_level, 80);
        assert_eq!(info.chip_id, "1CE60729");
    }
    let [hid, _] = both(&info_body());
    assert_eq!(device_info_reply(&hid).unwrap().connection_type, ConnectionType::Usb);
}

#[test]
fn device_info_errors_are_told_apart() {
    assert_eq!(text(device_info_reply(&usb(&[0x0A, 0x13, 20]))), "设备信息响应长度不足: 3");
    assert_eq!(text(device_info_reply(&gatt(&[0x13, 20]))), "设备信息响应长度不足: 2");
    let mut wrong = info_body();
    wrong[0] = 0x15;
    for reply in both(&wrong) {
        assert_eq!(text(device_info_reply(&reply)), "响应 CMD 不匹配: 0x15");
    }
    let mut refused = info_body();
    refused[2] = 0xFF;
    for reply in both(&refused) {
        assert_eq!(text(device_info_reply(&reply)), "查询失败: result=0xFF");
    }
}

#[test]
fn key_configurations_come_back_as_written() {
    let mut config = KeyConfig::new();
    config.keys[3] = KeyInfo::new(2, 0x34, 0x12);
    let mut body = vec![0x15, 60, 0];
    body.extend_from_slice(&config.to_bytes());
    for reply in both(&body) {
        let back = key_config_reply(&reply).unwrap();
        assert_eq!(back.keys, config.keys);
    }
    assert_eq!(text(key_config_reply(&usb(&[0x0A, 0x15]))), "按键配置响应长度不足: 2");
    assert_eq!(text(key_config_reply(&gatt(&[0x15]))), "按键配置数据长度不足: 1");
    body[2] = 1;
    for reply in both(&body) {
        assert_eq!(text(key_config_reply(&reply)), "读取失败: result=0x01");
    }
}

#[test]
fn a_refused_write_is_reported() {
    for reply in both(&[0x16, 1, 0]) {
        assert!(key_config_written_reply(&reply).is_ok());
    }
    for reply in both(&[0x16, 1, 0xFF]) {
        assert_eq!(text(key_config_written_reply(&reply)), "写入失败: result=0xFF");
    }
    assert_eq!(text(key_config_written_reply(&usb(&[0x0A, 0x16]))), "写入响应长度不足: 2");
    assert_eq!(text(key_config_written_reply(&gatt(&[0x16]))), "写入响应长度不足");
}

#[test]
fn flags_and_timeouts_read_the_same_over_both_transports() {
    for reply in both(&[CMD_GET_SILENT_RECORD, 2, 0, 1]) {
        assert_eq!(silent_record_reply(&reply, CMD_GET_SILENT_RECORD).unwrap(), true);
    }
    let bad = both(&[CMD_GET_SILENT_RECORD, 2, 0xFF, 1]);
    assert_eq!(
        text(silent_record_reply(&bad[0], CMD_GET_SILENT_RECORD)),
        "静默录音响应无效或命令失败"
    );
    assert_eq!(
        text(silent_record_reply(&bad[1], CMD_GET_SILENT_RECORD)),
        "静默录音 GATT 响应无效或命令失败"
    );
    for reply in both(&[CMD_GET_SLEEP_TIMEOUT, 5, 0, 60, 0, 0x58, 0x02]) {
        assert_eq!(
            sleep_timeout_reply(&reply, CMD_GET_SLEEP_TIMEOUT).unwrap(),
            SleepTimeout::new(60, 600)
        );
    }
    assert_eq!(
        text(sleep_timeout_reply(&gatt(&[]), CMD_GET_SLEEP_TIMEOUT)),
        "软休眠超时 GATT 响应无效或命令失败"
    );
    for reply in both(&[CMD_AI_GET_APP_ONLINE, 2, 0, 1]) {
        assert_eq!(app_online_reply(&reply, CMD_AI_GET_APP_ONLINE).unwrap(), true);
    }
    assert_eq!(
        text(app_online_reply(&usb(&[]), CMD_AI_GET_APP_ONLINE)),
        "App 在线状态响应无效或命令失败"
    );
    for reply in both(&[0x12, 2, 0xC9, 2]) {
        assert_eq!(work_mode_reply(&reply).unwrap(), WorkMode::Plan);
    }
    assert_eq!(text(work_mode_reply(&gatt(&[0x12, 2, 0xC9, 9]))), "工作模式 GATT 响应无效或命令失败");
}

#[test]
fn the_offline_page_is_read_as_text() {
    let mut body = vec![CMD_AI_GET_OPEN_URL, 10, 0];
    body.extend_from_slice("https://例.cn\0".as_bytes());
    for reply in both(&body) {
        assert_eq!(open_url_reply(&reply, CMD_AI_GET_OPEN_URL).unwrap(), "https://例.cn");
    }
    assert_eq!(
        text(open_url_reply(&gatt(&[1]), CMD_AI_GET_OPEN_URL)),
        "开网页 URL GATT 响应无效或命令失败"
    );
}

#[test]
fn bytes_that_are_no_text_are_replaced() {
    let body = [CMD_AI_GET_OPEN_URL, 4, 0, b'a', 0xFF, b'b', 0];
    for reply in both(&body) {
        assert_eq!(open_url_reply(&reply, CMD_AI_GET_OPEN_URL).unwrap(), "a\u{FFFD}b");
    }
}

#[test]
fn factory_acks_are_checked_against_the_session() {
    let body = [0x6C, 5, 0, 1, 1, 0x34, 0x12];
    for reply in both(&body) {
        let ack = factory_key_test_reply(&reply, 0x1234).unwrap();
        assert_eq!(ack.session, 0x1234);
        assert!(ack.enabled);
        assert_eq!(ack.result, FactoryKeyControlResult::Success);
        assert!(factory_key_test_reply(&reply, 0x1235).is_err());
    }
}

#[test]
fn hex_prefixes_are_cut_after_sixteen_bytes() {
    assert_eq!(fmt_hex_prefix(&[]), "");
    assert_eq!(fmt_hex_prefix(&[0x0A, 0xFF]), "0A FF");
    assert_eq!(
        fmt_hex_prefix(&[1; 17]),
        "01 01 01 01 01 01 01 01 01 01 01 01 01 01 01 01 … (共 17 字节)"
    );
    assert_eq!(fmt_hex_prefix_len(&[1, 2, 3], 2), "01 02");
    assert_eq!(fmt_hex_prefix_len(&[1, 2, 3], 9), "01 02 03");
}

#[test]
fn silence_is_no_answer_over_both_transports() {
    assert!(matches!(exchange_usb(Ok(([0; 64], 0))), Ok(None)));
    assert!(matches!(exchange_usb(Err("gone".to_string())), Err(e) if e == "gone"));
    assert!(matches!(
        exchange_gatt(Err("[GATT] CMD=0x69 响应超时 (3000ms)".to_string())),
        Ok(None)
    ));
    assert!(matches!(exchange_gatt(Err("断开".to_string())), Err(e) if e == "断开"));
    assert!(matches!(exchange_gatt(Ok(vec![])), Ok(Some(CommandReply::Gatt(v))) if v.is_empty()));
}

#[test]
fn blob_replies_are_parsed_by_transport() {
    let body = [0x69, 9, 0, 0x38, 0, 0xC8, 0, 1, 2, 3, 4];
    for reply in both(&body) {
        assert_eq!(
            read_chunk_reply(Ok(Some(reply))),
            Ok(Some((0x38, 0xC8, vec![1, 2, 3, 4])))
        );
    }
    assert_eq!(read_chunk_reply(Ok(None)), Ok(None));
    assert_eq!(
        read_chunk_reply(Ok(Some(gatt(&[0x69])))),
        Err("blob 读应答无效或命令失败".to_string())
    );
    for reply in both(&[0x6A, 4, 0, 0xFF, 0xFF, 0]) {
        let ack = commit_reply(Ok(Some(reply))).unwrap().unwrap();
        assert!(ack.is_ok());
        assert_eq!(ack.offset, BLOB_OFFSET_COMMIT);
    }
    assert_eq!(write_chunk_reply(Ok(Some(gatt(&[])))), Err("blob 写应答无效".to_string()));
    assert_eq!(commit_reply(Ok(Some(gatt(&[])))), Err("blob commit 应答无效".to_string()));
    assert_eq!(commit_reply(Err("x".to_string())), Err("x".to_string()));
}
