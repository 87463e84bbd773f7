use reai_board_sdk::kernel::sink::CountingSink;

#[test]
fn counting_sink_counts() {
    let mut sink = CountingSink::new();
    sink.on_pcm(&[0; 57]);
    sink.on_pcm(&[0; 57]);
    assert_eq!(sink.frame_count(), 2);
    assert_eq!(sink.byte_count(), 114 * std::mem::size_of::<f32>() as u64);
}
