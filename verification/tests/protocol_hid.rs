use reai_board_sdk::kernel::protocol_hid::{
    classify_command_report, is_ai_voice_consumer_code, key_config_has_ai_voice,
    parse_silent_record_gatt_response, parse_silent_record_hid_response,
    parse_sleep_timeout_gatt_response, parse_sleep_timeout_hid_response,
    parse_work_mode_gatt_response, parse_work_mode_hid_response, CommandReportKind, HidPacket,
    KeyClass, KeyConfig, KeyInfo, WorkMode, AI_VOICE_MARK_CODE, AI_VOICE_MEDIA_CODE,
    AUDIO_ENVELOPE_VERSION, CMD_AI_AUDIO_STREAM_CONTROL, CMD_GET_SILENT_RECORD,
    CMD_GET_SLEEP_TIMEOUT, CMD_SET_SILENT_RECORD, CMD_SET_SLEEP_TIMEOUT, CMD_STATUS,
    CMD_WORK_MODE_DATA, PACKET_SIZE, REPORT_ID_AUDIO, REPORT_ID_INPUT, REPORT_ID_KEY_EVENT,
    REPORT_ID_OUTPUT,
};
use reai_board_sdk::kernel::types::SleepTimeout;

fn report(first: u8, second: u8) -> [u8; PACKET_SIZE] {
    let mut r = [0u8; PACKET_SIZE];
    r[0] = first;
    r[1] = second;
    r
}

#[test]
fn audio_packets_are_never_mistaken_for_a_command_response() {
    let audio = report(REPORT_ID_AUDIO, AUDIO_ENVELOPE_VERSION);
    assert_eq!(
        classify_command_report(&audio, CMD_AI_AUDIO_STREAM_CONTROL),
        CommandReportKind::NotCommand
    );
}

#[test]
fn key_events_are_not_command_responses_either() {
    let key = report(REPORT_ID_KEY_EVENT, 0x01);
    assert_eq!(
        classify_command_report(&key, CMD_STATUS),
        CommandReportKind::NotCommand
    );
}

#[test]
fn the_response_to_the_command_we_sent_is_a_match() {
    let ack = report(REPORT_ID_INPUT, CMD_AI_AUDIO_STREAM_CONTROL);
    assert_eq!(
        classify_command_report(&ack, CMD_AI_AUDIO_STREAM_CONTROL),
        CommandReportKind::Match
    );
}

#[test]
fn another_commands_response_is_kept_apart_from_ours() {
    let other = report(REPORT_ID_INPUT, CMD_STATUS);
    assert_eq!(
        classify_command_report(&other, CMD_AI_AUDIO_STREAM_CONTROL),
        CommandReportKind::OtherCommand
    );
}

#[test]
fn a_truncated_report_is_not_a_command_response() {
    assert_eq!(
        classify_command_report(&[REPORT_ID_INPUT], CMD_STATUS),
        CommandReportKind::NotCommand
    );
}

#[test]
fn test_key_info() {
    let key_info = KeyInfo::new(0x0A, 0x01, 0x0F);
    assert_eq!(key_info.key_value(), 0x0F01);
    assert_eq!(key_info.get_class(), Some(KeyClass::Media));
}

#[test]
fn test_key_config() {
    let mut config = KeyConfig::default();
    config.set_key(6, KeyInfo::new(KeyClass::Media.to_u8(), 0x04, 0x0F));
    assert_eq!(config.keys[6].key_class, KeyClass::Media.to_u8());
    assert_eq!(config.keys[6].key_value(), AI_VOICE_MEDIA_CODE);
    assert!(is_ai_voice_consumer_code(AI_VOICE_MEDIA_CODE));
    assert!(is_ai_voice_consumer_code(AI_VOICE_MARK_CODE));
    assert!(!is_ai_voice_consumer_code(0x0F05));
}

#[test]
fn test_key_config_has_ai_voice() {
    let mut config = KeyConfig::default();
    assert!(key_config_has_ai_voice(&config));

    config.set_key(6, KeyInfo::new(KeyClass::Media.to_u8(), 0x05, 0x0F));
    assert!(!key_config_has_ai_voice(&config));

    config.set_key(7, KeyInfo::new(KeyClass::AiVoice.to_u8(), 0x00, 0x00));
    assert!(key_config_has_ai_voice(&config));
}

#[test]
fn test_work_mode() {
    assert_eq!(WorkMode::from_u8(0), Some(WorkMode::Chat));
    assert_eq!(WorkMode::from_u8(1), Some(WorkMode::Yolo));
    assert_eq!(WorkMode::from_u8(2), Some(WorkMode::Plan));
}

#[test]
fn test_silent_record_packets() {
    let get = HidPacket::get_silent_record();
    assert_eq!(&get[..3], &[REPORT_ID_OUTPUT, CMD_GET_SILENT_RECORD, 0]);

    let enabled = HidPacket::set_silent_record(true);
    assert_eq!(
        &enabled[..4],
        &[REPORT_ID_OUTPUT, CMD_SET_SILENT_RECORD, 1, 1]
    );
    let disabled = HidPacket::set_silent_record(false);
    assert_eq!(disabled[3], 0);
}

#[test]
fn test_silent_record_response_parsing() {
    assert_eq!(
        parse_silent_record_hid_response(&[0x0A, 0x61, 2, 0, 1], 0x61),
        Some(true)
    );
    assert_eq!(
        parse_silent_record_gatt_response(&[0x62, 2, 0, 0], 0x62),
        Some(false)
    );
    assert_eq!(
        parse_silent_record_hid_response(&[0x0A, 0x61, 2, 0xFF, 1], 0x61),
        None
    );
    assert_eq!(
        parse_silent_record_gatt_response(&[0x61, 1, 0, 1], 0x61),
        None
    );
}

#[test]
fn test_work_mode_packets() {
    let get = HidPacket::get_work_mode();
    assert_eq!(
        &get[..4],
        &[REPORT_ID_OUTPUT, CMD_STATUS, 0x04, CMD_WORK_MODE_DATA]
    );
    assert_eq!(&get[4..], &[0u8; PACKET_SIZE - 4]);
}

#[test]
fn test_work_mode_response_parsing() {
    assert_eq!(
        parse_work_mode_hid_response(&[0x0A, 0x12, 0x02, 0xC9, 0x00]),
        Some(WorkMode::Chat)
    );
    assert_eq!(
        parse_work_mode_hid_response(&[0x0A, 0x12, 0x02, 0xC9, 0x01]),
        Some(WorkMode::Yolo)
    );
    assert_eq!(
        parse_work_mode_hid_response(&[0x0A, 0x12, 0x02, 0xC9, 0x02]),
        Some(WorkMode::Plan)
    );
    assert_eq!(
        parse_work_mode_gatt_response(&[0x12, 0x02, 0xC9, 0x00]),
        Some(WorkMode::Chat)
    );
    assert_eq!(
        parse_work_mode_gatt_response(&[0x12, 0x02, 0xC9, 0x01]),
        Some(WorkMode::Yolo)
    );
    assert_eq!(
        parse_work_mode_hid_response(&[0x0A, 0x61, 0x02, 0xC9, 0x00]),
        None
    );
    assert_eq!(
        parse_work_mode_hid_response(&[0x0A, 0x12, 0x02, 0xC8, 0x00]),
        None
    );
    assert_eq!(
        parse_work_mode_gatt_response(&[0x12, 0x02, 0xC8, 0x00]),
        None
    );
    assert_eq!(
        parse_work_mode_hid_response(&[0x0A, 0x12, 0x02, 0xC9]),
        None
    );
    assert_eq!(parse_work_mode_gatt_response(&[0x12, 0x02, 0xC9]), None);
    assert_eq!(
        parse_work_mode_hid_response(&[0x0A, 0x12, 0x02, 0xC9, 0x05]),
        None
    );
}

#[test]
fn test_sleep_timeout_packets() {
    let get = HidPacket::get_sleep_timeout();
    assert_eq!(&get[..3], &[REPORT_ID_OUTPUT, CMD_GET_SLEEP_TIMEOUT, 0]);

    let set = HidPacket::set_sleep_timeout(SleepTimeout::new(60, 600));
    assert_eq!(
        &set[..7],
        &[
            REPORT_ID_OUTPUT,
            CMD_SET_SLEEP_TIMEOUT,
            4,
            0x3C,
            0x00,
            0x58,
            0x02
        ]
    );
}

#[test]
fn test_sleep_timeout_response_parsing() {
    assert_eq!(
        parse_sleep_timeout_hid_response(&[0x0A, 0x63, 5, 0, 0x3C, 0x00, 0x58, 0x02], 0x63),
        Some(SleepTimeout::new(60, 600))
    );
    assert_eq!(
        parse_sleep_timeout_gatt_response(&[0x64, 5, 0, 0x3C, 0x00, 0x58, 0x02], 0x64),
        Some(SleepTimeout::new(60, 600))
    );
    assert_eq!(
        parse_sleep_timeout_hid_response(&[0x0A, 0x63, 5, 0xFF, 0x3C, 0x00, 0x58, 0x02], 0x63),
        None
    );
    assert_eq!(
        parse_sleep_timeout_gatt_response(&[0x61, 5, 0, 0x3C, 0x00, 0x58, 0x02], 0x63),
        None
    );
    assert_eq!(
        parse_sleep_timeout_hid_response(&[0x0A, 0x63, 5, 0], 0x63),
        None
    );
}

#[test]
fn keys_are_read_set_and_cleared_by_position() {
    let mut config = KeyConfig::default();
    let mut key = KeyInfo::new(0x02, 0, 0);
    key.set_key_value(0x1234);
    assert_eq!(key.to_bytes(), [0x02, 0x34, 0x12]);
    assert!(config.set_key(19, key));
    assert!(!config.set_key(20, key));
    assert_eq!(config.get_key(19), Some(&key));
    assert_eq!(config.get_key(20), None);
    assert!(config.disable_key(0));
    assert!(!config.disable_key(20));
    assert_eq!(config.get_key(0), Some(&KeyInfo::disabled()));
    let last_active = *config.get_key(11).unwrap();
    config.clear_unused_keys();
    assert_eq!(config.get_key(11), Some(&last_active));
    assert_eq!(config.get_key(12), Some(&KeyInfo::new(0, 0, 0)));
    assert_eq!(config.get_key(19), Some(&KeyInfo::new(0, 0, 0)));
}

#[test]
fn a_web_address_is_sent_as_far_as_the_report_holds_it() {
    let text: String = ('!'..='~').cycle().take(70).collect();
    for len in [0usize, 1, 60, 61, 62, 63, 64, 70] {
        let packet = HidPacket::set_open_url(&text[..len]);
        let kept = if len < 61 { len } else { 61 };
        assert_eq!(&packet[..3], &[0x0B, 0x68, 0x40]);
        assert_eq!(&packet[3..3 + kept], &text.as_bytes()[..kept]);
        assert!(packet[3 + kept..].iter().all(|b| *b == 0));
    }
    let wide = HidPacket::set_open_url("https://例.cn");
    assert_eq!(&wide[3..17], "https://例.cn".as_bytes());
    assert_eq!(wide[17], 0);
}
