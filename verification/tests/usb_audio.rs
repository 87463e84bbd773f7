use reai_board_sdk::kernel::audio::{EncodedAudioPacket, SequenceDisposition, SequenceTracker};
use reai_board_sdk::kernel::protocol_hid::{AUDIO_FLAG_DATA, REPORT_ID_AUDIO};
use reai_board_sdk::kernel::sink::{CountingSink, EncodedAudioDecoderSink};
use reai_board_sdk::runtime::usb::device_manager::{
    audio_interface, command_interface, connect_usage_page, connect_usage_page_and_usage,
    detect_connection_type, enumerate_devices, find_config_interface, is_device_present,
    AudioInput, DeviceManager, HidBus, HidInterface,
};
use reai_board_sdk::runtime::usb_hid_audio::{
    is_fault_reported, AudioRead, DecodeStep, UsbVendorAudioReader, QUEUE_CAPACITY,
};
use reai_board_sdk::tool::msbc_file::decode_msbc_to_pcm;
use reai_board_sdk::{AudioTransport, ConnectionType};

/// A frame whose scale factors and samples are all 0.
fn zero_frame() -> [u8; 57] {
    let mut frame = [0u8; 57];
    frame[0] = 0xAD;
    frame
}

fn report(sequence: u16) -> [u8; 64] {
    let mut r = [0u8; 64];
    r[0] = REPORT_ID_AUDIO;
    r[1] = 1;
    r[2] = AUDIO_FLAG_DATA;
    r[3..5].copy_from_slice(&sequence.to_le_bytes());
    r[5] = 57;
    r[6..63].copy_from_slice(&zero_frame());
    r
}

#[test]
fn a_recording_is_searched_for_frames() {
    let frame = zero_frame();
    assert_eq!(&decode_msbc_to_pcm(&frame)[40..48], &[0, 0, 0, 0, -13, 1, 1, 1]);
    let mut recording = vec![1, 2, 3];
    recording.extend_from_slice(&frame);
    recording.extend_from_slice(&frame);
    recording.extend_from_slice(&frame[..10]);
    assert_eq!(decode_msbc_to_pcm(&recording).len(), 240);
}

#[test]
fn dropped_reports_are_counted_at_the_next_one() {
    let (mut reader, mut decoder) = UsbVendorAudioReader::start(3);
    assert!(reader.is_running());
    for sequence in 0..(QUEUE_CAPACITY as u16 + 2) {
        reader.on_read(AudioRead::Report(report(sequence), 64));
    }
    assert_eq!(reader.queued(), QUEUE_CAPACITY);
    match decoder.decode(&reader.next_report().unwrap(), 5) {
        DecodeStep::Decoded(Some(frame)) => {
            assert_eq!(frame.sequence, Some(2));
            assert_eq!(frame.connection_epoch, 3);
            assert_eq!(frame.captured_at_ns, 5);
            assert_eq!(frame.transport, AudioTransport::UsbVendorHid);
        }
        _ => panic!("a frame was expected"),
    }
    match decoder.decode(&reader.next_report().unwrap(), 6) {
        DecodeStep::Decoded(Some(frame)) => {
            assert_eq!(frame.sequence, Some(3));
            assert!(!frame.discontinuity());
        }
        _ => panic!("a frame was expected"),
    }
}

#[test]
fn only_whole_reports_are_queued() {
    let (mut reader, mut decoder) = UsbVendorAudioReader::start(1);
    reader.on_read(AudioRead::Report(report(0), 0));
    reader.on_read(AudioRead::Report(report(0), 63));
    assert_eq!(reader.queued(), 0);
    assert_eq!(reader.short_reads(), 1);
    assert!(reader.next_report().is_none());
    let mut broken = report(0);
    broken[1] = 9;
    reader.on_read(AudioRead::Report(broken, 64));
    assert!(matches!(
        decoder.decode(&reader.next_report().unwrap(), 0),
        DecodeStep::Malformed
    ));
    assert_eq!(decoder.parse_failures(), 1);
    assert_eq!(reader.queued(), 0);
    reader.on_read(AudioRead::Failed);
    assert!(!reader.is_running());
}

#[test]
fn faults_are_reported_sparingly() {
    let reported: Vec<u64> = (1..=200).filter(|n| is_fault_reported(*n)).collect();
    assert_eq!(reported, vec![1, 2, 3, 100, 200]);
}

#[test]
fn each_fault_is_warned_of_by_its_number() {
    let (mut reader, mut decoder) = UsbVendorAudioReader::start(1);
    let mut broken = report(0);
    broken[1] = 9;
    let mut warned: Vec<(u64, u64)> = Vec::new();
    for n in 0..200u16 {
        reader.on_read(AudioRead::Report(report(n), 30));
        reader.on_read(AudioRead::Report(report(n), 64));
        reader.on_read(AudioRead::Report(report(n), 0));
        reader.on_read(AudioRead::Report(broken, 64));
        while let Some(queued) = reader.next_report() {
            decoder.decode(&queued, 0);
        }
        if is_fault_reported(reader.short_reads()) {
            warned.push((reader.short_reads(), decoder.parse_failures()));
        }
    }
    assert_eq!(warned, vec![(1, 1), (2, 2), (3, 3), (100, 100), (200, 200)]);
}

fn packet(payload: &[u8], sequence: Option<u16>, break_in_time: bool) -> EncodedAudioPacket<'_> {
    EncodedAudioPacket {
        payload,
        transport: AudioTransport::BleGatt,
        sequence,
        device_discontinuity: break_in_time,
    }
}

#[test]
fn losses_are_split_between_the_wire_and_the_host() {
    let frame = zero_frame();
    let mut sink = EncodedAudioDecoderSink::new(1);
    sink.on_packet(packet(&frame, Some(10), false), 0, 0).expect("first");
    let gap = sink.on_packet(packet(&frame, Some(15), false), 1, 0).expect("gap");
    assert_eq!(gap.sequence_gap_frames, 3);
    assert_eq!(gap.local_drop_frames, 1);
    assert!(sink.on_packet(packet(&frame, Some(15), false), 0, 0).is_none());
    assert!(sink.on_packet(packet(&frame, Some(3), false), 0, 0).is_none());
    let restarted = sink.on_packet(packet(&frame, Some(3), true), 0, 0).expect("restart");
    assert!(restarted.device_discontinuity);
    assert_eq!(restarted.sequence_gap_frames, 0);
}

#[test]
fn a_broken_frame_costs_only_itself() {
    let frame = zero_frame();
    let mut payload = frame.to_vec();
    payload.extend_from_slice(&frame[..20]);
    let mut sink = EncodedAudioDecoderSink::new(1);
    let decoded = sink.on_packet(packet(&payload, None, false), 0, 0).expect("one frame");
    assert_eq!(decoded.pcm.len(), 120);
    assert_eq!(decoded.local_drop_frames, 1);
    assert!(sink.on_packet(packet(&[0; 57], None, false), 0, 0).is_none());
    let mut counting = CountingSink::default();
    counting.on_audio_frame(&decoded);
    assert_eq!((counting.frame_count(), counting.byte_count()), (1, 480));
}

#[test]
fn sequence_numbers_wrap() {
    let mut tracker = SequenceTracker::default();
    assert_eq!(tracker.observe(65_535), SequenceDisposition::First);
    assert_eq!(tracker.observe(0), SequenceDisposition::Contiguous);
    assert_eq!(tracker.observe(3), SequenceDisposition::Gap { missing: 2 });
    assert_eq!(tracker.observe(65_535), SequenceDisposition::OutOfOrder);
}

fn interface(product_id: u16, usage_page: u16, usage: u16) -> HidInterface {
    HidInterface {
        vendor_id: 0x363C,
        product_id,
        usage_page,
        usage,
        interface_number: 1,
        bus: HidBus::Usb,
    }
}

#[test]
fn interfaces_are_found_by_page_and_usage() {
    let list = vec![
        HidInterface {
            vendor_id: 1,
            ..interface(0xED20, 0xFFA0, 2)
        },
        interface(0xED20, 0xFFA0, 1),
        interface(0xED20, 0x000C, 1),
        interface(0xED20, 0xFFA0, 2),
        interface(0xED20, 0xFFAA, 1),
    ];
    assert_eq!(enumerate_devices(&list), vec![1, 2, 3, 4]);
    assert!(is_device_present(&list));
    assert_eq!(connect_usage_page_and_usage(&list, 0xFFA0, 2).unwrap(), 3);
    assert_eq!(connect_usage_page(&list, 0xFFA0).unwrap(), 1);
    assert_eq!(find_config_interface(&list), Some(3));
    assert_eq!(find_config_interface(&list[..3]), Some(1));
    assert_eq!(command_interface(&list).unwrap(), 3);
    assert_eq!(audio_interface(&list).unwrap(), 4);
    let none: [HidInterface; 0] = [];
    assert_eq!(
        connect_usage_page_and_usage(&none, 0xFFA0, 2).unwrap_err().message(),
        "未找到 Usage Page=0xFFA0, Usage=0x0002 的接口"
    );
    assert_eq!(
        connect_usage_page(&none, 0x0C).unwrap_err().message(),
        "未找到 Usage Page=0x000C 的接口"
    );
    assert_eq!(command_interface(&none).unwrap_err().message(), "未找到 Config 接口");
    assert_eq!(
        audio_interface(&none).unwrap_err().message(),
        "未找到 USB Vendor Audio HID 接口 (VID=0x363c, PID=0xed20)"
    );
}

#[test]
fn open_pages_lead_to_their_interfaces() {
    let list = vec![
        interface(0xED20, 0xFFA0, 1),
        interface(0xED20, 0x000C, 1),
        interface(0xED20, 0xFFA0, 2),
    ];
    let mut manager = DeviceManager::new();
    assert!(!manager.is_connected());
    assert_eq!(
        manager.connect_all(&list, &[true, false, true]).unwrap(),
        vec![(0xFFA0, 1), (0xFFA0, 2)]
    );
    assert_eq!(manager.get_device(0xFFA0), Some(2));
    assert_eq!(manager.get_device(0x000C), None);
    manager.disconnect_all();
    assert!(!manager.is_connected());
    assert_eq!(
        manager.connect_all(&list, &[false, false, false]).unwrap_err().message(),
        "未找到 VID=0x363C, PID=0xED20 的 HID 设备"
    );
}

fn input(name: &str, sample_rate: u32, channels: u16) -> AudioInput {
    AudioInput {
        name: name.to_string(),
        sample_rate,
        channels,
    }
}

#[test]
fn a_microphone_of_the_board_means_usb() {
    let cable = vec![input("ReAI Vibe Board", 16_000, 1)];
    assert_eq!(detect_connection_type(&cable, &[]), Some(ConnectionType::Usb));
    let others = vec![
        input("ReAI Vibe Board", 48_000, 1),
        input("ReAI Vibe Board", 16_000, 2),
        input("MacBook Microphone", 16_000, 1),
    ];
    assert_eq!(detect_connection_type(&others, &[]), None);
    assert_eq!(
        detect_connection_type(&others, &[interface(0xED20, 1, 1)]),
        Some(ConnectionType::Ble)
    );
    assert_eq!(detect_connection_type(&others, &[interface(0xED21, 1, 1)]), None);
}
