use reai_board_sdk::kernel::event::BoardEvent;
use reai_board_sdk::kernel::protocol_gatt::{
    uuid_text, AUDIO_CHAR_UUID, CCC_DESCRIPTOR_UUID, CMD_CHAR_UUID, EVENT_CHAR_UUID, SERVICE_UUID,
};
use reai_board_sdk::kernel::protocol_hid::{
    AI_VOICE_MEDIA_CODE, CMD_AI_FACTORY_KEY_EVENT, CMD_DEVICE_DISCONNECT, CMD_GET_DEVICE_INFO,
    CMD_STATUS, CMD_WORK_MODE_DATA,
};
use reai_board_sdk::runtime::ble::gatt_client::{
    find_characteristics, matches_device, scan_for_device, subscribe_with_ccc_fallback,
    BleDeviceInfo, DeviceListing, GattChars, GattEventState, NotifyEvent, PendingCommands,
    ReplyEvent, ScanStep, SubscribeStep, VendorGattClient,
};
use reai_board_sdk::BoardError;

const MS: u64 = 1_000_000;

fn key_frame(key_value: u16) -> Vec<u8> {
    vec![
        0x0C,
        0x02,
        (key_value & 0xFF) as u8,
        ((key_value >> 8) & 0xFF) as u8,
    ]
}

fn feed(state: &mut GattEventState, key_value: u16, now_ns: u64) -> Vec<BoardEvent> {
    let mut pending = PendingCommands::new();
    let outcome = state.handle_event(&key_frame(key_value), &mut pending, now_ns);
    assert!(outcome.reply.is_none());
    outcome.events
}

fn key_events(events: &[BoardEvent]) -> Vec<(usize, bool)> {
    events
        .iter()
        .filter_map(|event| match event {
            BoardEvent::KeyPress(key) => Some((key.key_index, key.pressed)),
            _ => None,
        })
        .collect()
}

#[test]
fn gatt_monitor_emits_factory_physical_event() {
    let mut pending = PendingCommands::new();
    let mut state = GattEventState::default();
    let frame = [
        CMD_AI_FACTORY_KEY_EVENT,
        0x06,
        0x01,
        0x34,
        0x12,
        0x06,
        0x01,
        0x09,
    ];

    let outcome = state.handle_event(&frame, &mut pending, 0);
    match outcome.events.first().expect("factory event") {
        BoardEvent::FactoryKey(event) => {
            assert_eq!(event.session, 0x1234);
            assert_eq!(event.input_index, 6);
            assert!(event.pressed);
        }
        other => panic!("unexpected event: {other:?}"),
    }
}

#[test]
fn key0_pulse_emits_both_press_and_release() {
    let mut state = GattEventState::default();

    let pulse = feed(&mut state, 0x0F07, 0);
    assert_eq!(
        key_events(&pulse),
        vec![(0, true), (0, false)],
        "both the press and the release of the pulse are reported"
    );

    let tail = feed(&mut state, 0x0000, MS);
    assert!(key_events(&tail).is_empty(), "the end of the pulse reports nothing");
}

#[test]
fn holding_tab_through_knob_turns_still_reports_the_release() {
    let mut state = GattEventState::default();

    assert_eq!(key_events(&feed(&mut state, 0x0F01, 0)), vec![(3, true)]);

    for turn in 0..2 {
        let now = (200 + 10 * turn) * MS;
        assert_eq!(
            key_events(&feed(&mut state, 0x0F08, now)),
            vec![(1, true), (1, false)],
            "a turn is one tap of the knob"
        );
        assert!(
            key_events(&feed(&mut state, 0x0000, now + MS)).is_empty(),
            "the end of the turn does not release the held key"
        );
    }

    assert_eq!(
        key_events(&feed(&mut state, 0x0000, 230 * MS)),
        vec![(3, false)],
        "letting go is reported"
    );
}

#[test]
fn holding_voice_key_through_a_knob_turn_does_not_report_release() {
    let mut state = GattEventState::default();

    feed(&mut state, AI_VOICE_MEDIA_CODE, 0);

    let mut turned = feed(&mut state, 0x0F08, 100 * MS);
    turned.extend(feed(&mut state, 0x0000, 101 * MS));
    let voice_events: Vec<bool> = turned
        .into_iter()
        .filter_map(|event| match event {
            BoardEvent::AiVoiceKey(voice) => Some(voice.pressed),
            _ => None,
        })
        .collect();
    assert!(voice_events.is_empty(), "no release during the turn: {voice_events:?}");
    assert!(state.is_ai_voice_pressed(), "the voice key is still down");

    let released = feed(&mut state, 0x0000, 300 * MS)
        .into_iter()
        .any(|event| matches!(event, BoardEvent::AiVoiceKey(voice) if !voice.pressed));
    assert!(released, "letting go releases the voice key");
}

#[test]
fn disconnect_releases_everything_still_held() {
    let mut state = GattEventState::default();

    feed(&mut state, AI_VOICE_MEDIA_CODE, 0);
    feed(&mut state, 0x0F01, MS);

    let events = state.release_all();
    let released: Vec<usize> = events
        .iter()
        .filter_map(|event| match event {
            BoardEvent::KeyPress(key) if !key.pressed => Some(key.key_index),
            _ => None,
        })
        .collect();
    assert!(
        released.contains(&6) && released.contains(&3),
        "every held key is released: {released:?}"
    );
    assert!(
        events
            .iter()
            .any(|event| matches!(event, BoardEvent::AiVoiceKey(voice) if !voice.pressed)),
        "the voice key is released"
    );
    assert!(!state.is_ai_voice_pressed());
}

#[test]
fn ccc_descriptor_uuid_matches_bluetooth_spec() {
    assert_eq!(
        uuid_text(CCC_DESCRIPTOR_UUID),
        "00002902-0000-1000-8000-00805f9b34fb"
    );
}

#[test]
fn a_malformed_packet_is_reported_as_an_error() {
    let mut state = GattEventState::default();
    let mut pending = PendingCommands::new();
    let outcome = state.handle_event(&[0x0C, 5, 1], &mut pending, 0);
    match &outcome.events[..] {
        [BoardEvent::Error(e)] => {
            assert_eq!(e.message, "GATT Event 解析失败(len=3)");
            assert!(e.recoverable);
        }
        other => panic!("unexpected events: {other:?}"),
    }
}

#[test]
fn an_awaited_reply_goes_to_its_command_and_is_no_event() {
    let mut client = VendorGattClient::new();
    client.connect();
    client.start_notification_loop(0);
    assert!(!client.register_command(CMD_STATUS));
    let packet = [CMD_STATUS, 2, CMD_WORK_MODE_DATA, 1, 0xEE];
    let step = client.on_notify(
        NotifyEvent::Notification {
            uuid: EVENT_CHAR_UUID,
            value: &packet,
        },
        1,
    );
    assert_eq!(step.reply, Some((CMD_STATUS, vec![CMD_STATUS, 2, CMD_WORK_MODE_DATA, 1])));
    assert!(step.events.is_empty());
    let again = client.on_notify(
        NotifyEvent::Notification {
            uuid: EVENT_CHAR_UUID,
            value: &packet,
        },
        2,
    );
    assert!(again.reply.is_none());
    assert!(matches!(&again.events[..], [BoardEvent::ModeChange(m)] if m.mode == "YOLO"));
}

#[test]
fn an_announced_disconnect_causes_no_event() {
    let mut state = GattEventState::default();
    let mut pending = PendingCommands::new();
    let outcome = state.handle_event(&[CMD_DEVICE_DISCONNECT, 0], &mut pending, 0);
    assert!(outcome.events.is_empty() && outcome.reply.is_none());
}

#[test]
fn a_lever_that_lets_go_falls_back_to_chat() {
    let mut state = GattEventState::default();
    let pressed = feed(&mut state, 0x0F0B, 0);
    assert!(pressed
        .iter()
        .any(|e| matches!(e, BoardEvent::ModeChange(m) if m.mode == "PLAN")));
    let released = feed(&mut state, 0, MS);
    assert!(matches!(released.last(), Some(BoardEvent::ModeChange(m)) if m.mode == "CHAT"));
    assert!(!feed(&mut state, 0, 2 * MS)
        .iter()
        .any(|e| matches!(e, BoardEvent::ModeChange(_))));
}

#[test]
fn waits_end_with_their_texts() {
    let mut pending = PendingCommands::new();
    assert!(!pending.register(0x13));
    assert!(pending.register(0x13));
    let late = pending.send_command_and_read_response(0x13, 3000, ReplyEvent::TimedOut);
    assert_eq!(late.unwrap_err().message(), "[GATT] CMD=0x13 响应超时 (3000ms)");
    assert!(!pending.take(0x13));
    let closed = pending.send_command_and_read_response(0x6F, 3000, ReplyEvent::Closed);
    assert_eq!(
        closed.unwrap_err().message(),
        "[GATT] CMD=0x6F 响应通道已关闭(notification loop 已退出)"
    );
    let failed = pending.send_command_and_read_response(
        1,
        1,
        ReplyEvent::WriteFailed(BoardError::NotConnected),
    );
    assert!(matches!(failed, Err(BoardError::NotConnected)));
    pending.register(CMD_GET_DEVICE_INFO);
    let ok = pending.send_command_and_read_response(
        CMD_GET_DEVICE_INFO,
        1,
        ReplyEvent::Reply(vec![1, 2, 3]),
    );
    assert_eq!(ok.unwrap(), vec![1, 2, 3]);
    assert!(pending.take(CMD_GET_DEVICE_INFO));
}

#[test]
fn audio_is_dropped_until_it_is_switched_on() {
    let mut client = VendorGattClient::new();
    client.connect();
    client.start_notification_loop(0);
    let audio = [1u8, 1, 0xAD];
    let off = client.on_notify(
        NotifyEvent::Notification {
            uuid: AUDIO_CHAR_UUID,
            value: &audio,
        },
        1,
    );
    assert!(!off.audio);
    client.set_audio_enabled(true);
    let on = client.on_notify(
        NotifyEvent::Notification {
            uuid: AUDIO_CHAR_UUID,
            value: &audio,
        },
        2,
    );
    assert!(on.audio && on.events.is_empty());
    let unknown = client.on_notify(
        NotifyEvent::Notification {
            uuid: SERVICE_UUID,
            value: &audio,
        },
        3,
    );
    assert!(!unknown.audio && unknown.events.is_empty());
}

#[test]
fn the_heartbeat_ends_a_dead_session() {
    let mut client = VendorGattClient::new();
    client.connect();
    client.start_notification_loop(5);
    client.register_command(7);
    assert_eq!(client.heartbeat_at_ns(), 10_000_000_005);
    assert!(!client.on_notify(NotifyEvent::Heartbeat(Some(true)), 10_000_000_005).ended);
    assert_eq!(client.heartbeat_at_ns(), 20_000_000_005);
    client.on_notify(
        NotifyEvent::Notification {
            uuid: EVENT_CHAR_UUID,
            value: &key_frame(0x0F01),
        },
        10_000_000_006,
    );
    let dead = client.on_notify(NotifyEvent::Heartbeat(None), 30_000_000_000);
    assert!(dead.ended);
    assert_eq!(key_events(&dead.events), vec![(3, false)]);
    assert!(!client.is_connected());
    assert!(!client.register_command(7), "no wait outlives the session");
}

#[test]
fn boards_are_matched_by_prefix_or_exact_name() {
    assert!(matches_device("REAI_VB_1CE60729", None));
    assert!(!matches_device("Other", None));
    assert!(matches_device("Other", Some("Other")));
    assert!(!matches_device("REAI_VB_1CE60729", Some("REAI_VB_1CE6072A")));
}

#[test]
fn a_scan_takes_the_first_match_and_gives_up_after_five_rounds() {
    let names = vec![
        None,
        Some("REAI_VB_A".to_string()),
        Some("REAI_VB_B".to_string()),
    ];
    assert!(matches!(scan_for_device(0, &names, None), ScanStep::Found(1)));
    assert!(matches!(scan_for_device(0, &names, Some("REAI_VB_B")), ScanStep::Found(2)));
    assert!(matches!(scan_for_device(3, &names, Some("X")), ScanStep::Again(4)));
    match scan_for_device(4, &names, Some("X")) {
        ScanStep::NotFound(e) => assert_eq!(e.message(), "未发现 Vendor GATT 设备 X"),
        _ => panic!("five rounds are enough"),
    }
    match scan_for_device(4, &Vec::new(), None) {
        ScanStep::NotFound(e) => assert_eq!(e.message(), "未发现 Vendor GATT 设备"),
        _ => panic!("nothing to find"),
    }
}

fn sighting(name: &str, id: &str, rssi: i16) -> BleDeviceInfo {
    BleDeviceInfo {
        name: name.to_string(),
        id: id.to_string(),
        rssi: Some(rssi),
        address: "00:11:22:33:44:55".to_string(),
    }
}

#[test]
fn a_board_is_listed_once_as_first_seen() {
    let mut listing = DeviceListing::new();
    listing.sighted(sighting("REAI_VB_A", "a", -40));
    listing.sighted(sighting("Headphones", "h", -30));
    listing.sighted(sighting("REAI_VB_A", "a", -70));
    listing.sighted(sighting("REAI_VB_B", "b", -50));
    let found = listing.into_devices();
    let seen: Vec<(&str, Option<i16>)> = found.iter().map(|d| (d.id.as_str(), d.rssi)).collect();
    assert_eq!(seen, vec![("a", Some(-40)), ("b", Some(-50))]);
}

#[test]
fn missing_characteristics_are_named() {
    let all = [SERVICE_UUID, AUDIO_CHAR_UUID, CMD_CHAR_UUID, EVENT_CHAR_UUID];
    assert_eq!(
        find_characteristics(&all).unwrap(),
        GattChars {
            cmd: 2,
            event: 3,
            audio: 1
        }
    );
    let text = |uuids: &[u128]| find_characteristics(uuids).unwrap_err().message();
    assert_eq!(text(&[]), "未找到 Command 特征值 (FE61)");
    assert_eq!(text(&[CMD_CHAR_UUID]), "未找到 Event 特征值 (FE62)");
    assert_eq!(text(&[CMD_CHAR_UUID, EVENT_CHAR_UUID]), "未找到 Audio 特征值 (FE63)");
}

#[test]
fn a_failed_subscription_falls_back_to_the_descriptor() {
    assert!(matches!(
        subscribe_with_ccc_fallback(true, &[], "Event"),
        SubscribeStep::Done
    ));
    assert!(matches!(
        subscribe_with_ccc_fallback(false, &[1, CCC_DESCRIPTOR_UUID], "Event"),
        SubscribeStep::WriteDescriptor(1, [1, 0])
    ));
    match subscribe_with_ccc_fallback(false, &[0x2902], "Audio") {
        SubscribeStep::Failed(e) => {
            assert_eq!(e.message(), "Audio 特征值无 CCC 描述符 (0x2902),无法启用通知")
        }
        _ => panic!("a short number is not the descriptor"),
    }
}
