use reai_board_sdk::runtime::usb_capture::{
    find_usb_audio_device, preferred_config, CaptureSearch, InputConfig, PcmNormalizer,
};

/// Delivers each frame as often as the normalizer says.
fn deliver(normalizer: &mut PcmNormalizer, interleaved: &[f32]) -> Vec<f32> {
    let channels = normalizer.channels();
    let repeats = normalizer.process(interleaved.len());
    let mut out = Vec::new();
    for (frame, times) in interleaved.chunks_exact(channels).zip(repeats) {
        let mono = frame.iter().copied().sum::<f32>() / channels as f32;
        for _ in 0..times {
            out.push(mono.clamp(-1.0, 1.0));
        }
    }
    out
}

#[test]
fn normalizer_downmixes_stereo_and_resamples_48k_to_16k() {
    let mut normalizer = PcmNormalizer::new(48_000, 2);
    let mut input = Vec::new();
    for frame in 0..480 {
        let sample = frame as f32 / 480.0;
        input.extend_from_slice(&[sample, sample]);
    }

    let output = deliver(&mut normalizer, &input);
    assert_eq!(output.len(), 160);
    assert!(output.iter().all(|sample| (0.0..=1.0).contains(sample)));
}

#[test]
fn normalizer_preserves_ratio_across_callbacks() {
    let mut normalizer = PcmNormalizer::new(44_100, 1);
    let first = deliver(&mut normalizer, &vec![0.25; 441]);
    let second = deliver(&mut normalizer, &vec![0.25; 441]);

    assert_eq!(first.len() + second.len(), 320);
    assert!(first
        .iter()
        .chain(second.iter())
        .all(|sample| (*sample - 0.25).abs() < f32::EPSILON));
}

#[test]
fn buffer_boundaries_do_not_change_what_is_delivered() {
    let mut whole = PcmNormalizer::new(44_100, 2);
    let mut split = PcmNormalizer::new(44_100, 2);
    let at_once = whole.process(2 * 1000);
    let mut in_parts = split.process(2 * 123);
    in_parts.extend(split.process(2 * 877));
    assert_eq!(at_once, in_parts);
    assert_eq!(at_once.iter().sum::<u64>(), 1000 * 16_000 / 44_100);
}

#[test]
fn a_slower_input_is_repeated() {
    let mut normalizer = PcmNormalizer::new(8_000, 1);
    assert_eq!(normalizer.process(3), vec![2, 2, 2]);
    let mut zero = PcmNormalizer::new(0, 0);
    assert_eq!(zero.channels(), 1);
    assert_eq!(zero.repeats(), 16_000);
}

#[test]
fn mono_float_at_16_khz_is_preferred() {
    let stereo = InputConfig {
        channels: 2,
        is_float: true,
        min_sample_rate: 8_000,
        max_sample_rate: 48_000,
    };
    let integer = InputConfig {
        channels: 1,
        is_float: false,
        ..stereo
    };
    let fits = InputConfig {
        channels: 1,
        ..stereo
    };
    let too_fast = InputConfig {
        channels: 1,
        min_sample_rate: 44_100,
        ..stereo
    };
    assert_eq!(preferred_config(&[stereo, integer, too_fast, fits, fits]), Some(3));
    assert_eq!(preferred_config(&[stereo, integer, too_fast]), None);
}

#[test]
fn the_board_is_found_by_name_or_looked_for_again() {
    let names = vec![
        None,
        Some("Built-in Microphone".to_string()),
        Some("AI VIBE Audio".to_string()),
    ];
    assert!(matches!(
        find_usb_audio_device(&names, true, 0),
        CaptureSearch::Found(2)
    ));
    let others = vec![Some("USB HID Device".to_string())];
    assert!(matches!(
        find_usb_audio_device(&others, true, 9),
        CaptureSearch::Retry(10)
    ));
    match find_usb_audio_device(&others, true, 10) {
        CaptureSearch::NotFound(e) => assert_eq!(e.message(), "未找到 USB Audio (UAC) 设备"),
        _ => panic!("ten retries are enough"),
    }
    assert!(matches!(
        find_usb_audio_device(&others, false, 0),
        CaptureSearch::NotFound(_)
    ));
}
