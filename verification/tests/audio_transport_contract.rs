use reai_board_sdk::kernel::audio::{
    resolve_audio_transport, AudioCapabilities, AudioFrame, AudioRouteRequest, AudioTransport,
    EncodedAudioPacket, SequenceDisposition, SequenceTracker,
};
use reai_board_sdk::kernel::msbc::{MSBC_FRAME_SIZE, MSBC_SYNC_WORD};
use reai_board_sdk::kernel::protocol_gatt::parse_audio_packet_v1;
use reai_board_sdk::kernel::protocol_hid::{
    parse_audio_capabilities_hid_response, parse_audio_stream_hid_response, parse_usb_audio_report,
    HidPacket, AUDIO_ENVELOPE_VERSION, AUDIO_FLAG_DATA, REPORT_ID_AUDIO,
};
use reai_board_sdk::kernel::sink::EncodedAudioDecoderSink;
use reai_board_sdk::{AudioStreamAction, AudioStreamScope};

#[test]
fn parses_usb_vendor_hid_v1_envelope_without_system_audio() {
    let mut report = [0u8; 64];
    report[0] = REPORT_ID_AUDIO;
    report[1] = AUDIO_ENVELOPE_VERSION;
    report[2] = AUDIO_FLAG_DATA;
    report[3..5].copy_from_slice(&0xFFFEu16.to_le_bytes());
    report[5] = 57;
    report[6] = 0xAD;
    let packet = parse_usb_audio_report(&report).expect("valid v1 report");
    assert_eq!(packet.transport, AudioTransport::UsbVendorHid);
    assert_eq!(packet.sequence, Some(0xFFFE));
    assert_eq!(packet.payload.len(), 57);
}

#[test]
fn parses_batched_ble_v1_packet_and_rejects_partial_msbc() {
    let mut packet = vec![AUDIO_ENVELOPE_VERSION, AUDIO_FLAG_DATA, 7, 0, 114];
    packet.extend_from_slice(&[0xAD; 114]);
    let parsed = parse_audio_packet_v1(&packet).expect("two complete frames");
    assert_eq!(parsed.transport, AudioTransport::BleGatt);
    assert_eq!(parsed.sequence, Some(7));
    assert_eq!(parsed.payload.len(), 114);

    packet[4] = 113;
    packet.pop();
    assert!(parse_audio_packet_v1(&packet).is_none());

    let mut trailing = vec![AUDIO_ENVELOPE_VERSION, AUDIO_FLAG_DATA, 8, 0, 57];
    trailing.extend_from_slice(&[0xAD; 58]);
    assert!(parse_audio_packet_v1(&trailing).is_none());
}

#[test]
fn sequence_tracker_distinguishes_wrap_gap_and_duplicate() {
    let mut tracker = SequenceTracker::default();
    assert_eq!(tracker.observe(0xFFFE), SequenceDisposition::First);
    assert_eq!(tracker.observe(0xFFFF), SequenceDisposition::Contiguous);
    assert_eq!(tracker.observe(0), SequenceDisposition::Contiguous);
    assert_eq!(tracker.observe(2), SequenceDisposition::Gap { missing: 1 });
    assert_eq!(tracker.observe(2), SequenceDisposition::Duplicate);
}

#[test]
fn board_first_never_silently_falls_back_to_uac() {
    let caps = AudioCapabilities {
        usb_vendor_hid_msbc_v1: false,
        ble_gatt_msbc_v1: true,
        stream_control_v1: true,
        packet_sequence_v1: true,
        ..AudioCapabilities::default()
    };
    assert_eq!(
        resolve_audio_transport(
            AudioRouteRequest::BoardFirst,
            Some(reai_board_sdk::ConnectionType::Usb),
            &caps,
        ),
        None
    );
    assert_eq!(
        resolve_audio_transport(
            AudioRouteRequest::ExplicitUsbUac,
            Some(reai_board_sdk::ConnectionType::Usb),
            &caps,
        ),
        Some(AudioTransport::UsbUac)
    );
}

#[test]
fn parses_capability_response_as_feature_bits_not_latest_version() {
    let response = [
        0x0A,
        0x6E,
        13,
        0,
        1,
        0b0000_1111,
        0,
        0,
        0,
        1,
        57,
        171,
        0x88,
        0x13,
        0x88,
        0x13,
    ];
    let caps = parse_audio_capabilities_hid_response(&response).expect("valid capabilities");
    assert!(caps.usb_vendor_hid_msbc_v1);
    assert!(caps.ble_gatt_msbc_v1);
    assert!(caps.stream_control_v1);
    assert_eq!(caps.usb_max_payload, 57);
    assert_eq!(caps.ble_max_payload, 171);
}

#[test]
fn stream_control_request_and_ack_freeze_exact_scope_and_lease() {
    let request = HidPacket::audio_stream_control(
        AudioStreamAction::Start,
        AudioTransport::UsbVendorHid,
        AudioStreamScope::Timeline,
        0x1234_5678,
        5_000,
    )
    .unwrap();
    assert_eq!(
        &request[..13],
        &[0x0B, 0x6F, 10, 1, 1, 2, 1, 0x78, 0x56, 0x34, 0x12, 0x88, 0x13]
    );

    let ack = [
        0x0A, 0x6F, 10, 0, 1, 1, 2, 0x78, 0x56, 0x34, 0x12, 0x88, 0x13,
    ];
    let state = parse_audio_stream_hid_response(&ack).unwrap();
    assert_eq!(state.active_transport, Some(AudioTransport::UsbVendorHid));
    assert_eq!(state.scope, Some(AudioStreamScope::Timeline));
    assert_eq!(state.lease_id, 0x1234_5678);
    assert_eq!(state.ttl_ms, 5_000);
    assert!(state.matches_request(
        reai_board_sdk::AudioStreamAction::Start,
        AudioTransport::UsbVendorHid,
        AudioStreamScope::Timeline,
        0x1234_5678,
    ));

    let stale_ack = [
        0x0A, 0x6F, 10, 0, 1, 1, 2, 0x79, 0x56, 0x34, 0x12, 0x88, 0x13,
    ];
    assert!(!parse_audio_stream_hid_response(&stale_ack)
        .unwrap()
        .matches_request(
            reai_board_sdk::AudioStreamAction::Start,
            AudioTransport::UsbVendorHid,
            AudioStreamScope::Timeline,
            0x1234_5678,
        ));
}

fn frame() -> Vec<u8> {
    let mut f = vec![0u8; MSBC_FRAME_SIZE];
    f[0] = MSBC_SYNC_WORD;
    f
}

fn packet<'a>(payload: &'a [u8], sequence: u16, discontinuity: bool) -> EncodedAudioPacket<'a> {
    EncodedAudioPacket {
        payload,
        transport: AudioTransport::BleGatt,
        sequence: Some(sequence),
        device_discontinuity: discontinuity,
    }
}

#[test]
fn device_discontinuity_resets_the_sequence_tracker() {
    let mut seen: Vec<AudioFrame> = Vec::new();
    let mut sink = EncodedAudioDecoderSink::new(1);
    let good = frame();

    seen.extend(sink.on_packet(packet(&good, 100, false), 0, 0));
    seen.extend(sink.on_packet(packet(&good, 5, true), 0, 0));
    seen.extend(sink.on_packet(packet(&good, 6, false), 0, 0));

    assert_eq!(
        seen.iter().map(|s| s.sequence).collect::<Vec<_>>(),
        vec![Some(100), Some(5), Some(6)]
    );
}

#[test]
fn a_bad_frame_does_not_discard_the_good_frames_beside_it() {
    let mut seen: Vec<AudioFrame> = Vec::new();
    let mut sink = EncodedAudioDecoderSink::new(1);

    let mut payload = frame();
    payload.extend_from_slice(&[0u8; MSBC_FRAME_SIZE]);
    seen.extend(sink.on_packet(packet(&payload, 1, false), 0, 0));

    assert_eq!(seen.len(), 1, "同一包里的好帧必须照送");
    assert!(seen[0].pcm.len() > 0);
    assert_eq!(seen[0].local_drop_frames, 1, "坏帧要算进丢失信号");
}

#[test]
fn a_truncated_tail_does_not_discard_the_complete_frame_before_it() {
    let mut seen: Vec<AudioFrame> = Vec::new();
    let mut sink = EncodedAudioDecoderSink::new(1);

    let mut payload = frame();
    payload.extend_from_slice(&[0u8; 30]);
    seen.extend(sink.on_packet(packet(&payload, 1, false), 0, 0));

    assert_eq!(seen.len(), 1);
    assert!(seen[0].pcm.len() > 0);
    assert_eq!(seen[0].local_drop_frames, 1);
}

#[test]
fn a_packet_with_nothing_decodable_delivers_no_frame() {
    let mut seen: Vec<AudioFrame> = Vec::new();
    let mut sink = EncodedAudioDecoderSink::new(1);

    seen.extend(sink.on_packet(packet(&[0u8; MSBC_FRAME_SIZE], 1, false), 0, 0));
    assert!(seen.is_empty());
}

#[test]
fn a_sequence_gap_is_reported_as_wire_loss_not_local_loss() {
    let mut seen: Vec<AudioFrame> = Vec::new();
    let mut sink = EncodedAudioDecoderSink::new(1);
    let good = frame();

    seen.extend(sink.on_packet(packet(&good, 1, false), 0, 0));
    seen.extend(sink.on_packet(packet(&good, 4, false), 0, 0));

    assert_eq!(seen[1].sequence_gap_frames, 2);
    assert_eq!(seen[1].local_drop_frames, 0);
}

#[test]
fn missing_audio_is_reported_and_complete_audio_is_not() {
    let mut sink = EncodedAudioDecoderSink::new(1);
    let good = frame();
    let mut cut = frame();
    cut.push(0);

    assert!(!sink.on_packet(packet(&good, 1, false), 0, 0).unwrap().discontinuity());
    assert!(!sink.on_packet(packet(&good, 2, false), 0, 0).unwrap().discontinuity());
    assert!(sink.on_packet(packet(&good, 4, false), 0, 0).unwrap().discontinuity());
    assert!(sink.on_packet(packet(&good, 5, true), 0, 0).unwrap().discontinuity());
    assert!(sink.on_packet(packet(&cut, 6, false), 0, 0).unwrap().discontinuity());
    let local = EncodedAudioPacket {
        payload: &good,
        transport: AudioTransport::BleGatt,
        sequence: None,
        device_discontinuity: false,
    };
    let lossy = sink.on_packet(local, 3, 0).unwrap();
    assert!(lossy.discontinuity());
    assert_eq!(lossy.local_drop_frames, 3);
}

#[test]
fn a_reset_sequence_takes_any_number_as_the_first() {
    let mut sink = EncodedAudioDecoderSink::new(1);
    let good = frame();
    assert!(sink.on_packet(packet(&good, 9, false), 0, 0).is_some());
    assert!(sink.on_packet(packet(&good, 3, false), 0, 0).is_none());
    sink.reset_sequence();
    let first = sink.on_packet(packet(&good, 3, false), 0, 0).unwrap();
    assert!(!first.discontinuity());
    assert_eq!(first.sequence, Some(3));
}
