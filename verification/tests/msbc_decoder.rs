use reai_board_sdk::kernel::msbc::allocation::{calculate_bits, MSBC_BITPOOL};
use reai_board_sdk::kernel::msbc::tables::{PROTO_80M0, PROTO_80M1, SYNMATRIX8};
use reai_board_sdk::kernel::msbc::{
    MsbcDecoder, MSBC_FRAME_SIZE, MSBC_SYNC_WORD, SAMPLES_PER_FRAME,
};

#[test]
fn test_synmatrix_first_element() {
    assert_eq!(SYNMATRIX8[0][0], 0x05a82798i32 >> 14);
}

#[test]
fn test_proto_first_element() {
    assert_eq!(PROTO_80M0[0], 0);
    assert_eq!(PROTO_80M1[0], 0xff7c272cu32 as i32 >> 14);
}

#[test]
fn test_bit_allocation() {
    let sf = [14u8, 9, 13, 11, 11, 9, 9, 8];
    let bits = calculate_bits(&sf);
    let total: i32 = bits.iter().map(|&b| b as i32).sum();
    assert!(
        total <= MSBC_BITPOOL,
        "total bits {} > bitpool {}",
        total,
        MSBC_BITPOOL
    );
    assert!(total > 0, "should have some bits allocated");
}

#[test]
fn test_decode_extreme_scale_factors_no_overflow() {
    let mut frame = [0u8; MSBC_FRAME_SIZE];
    frame[0] = MSBC_SYNC_WORD;
    for b in frame[4..].iter_mut() {
        *b = 0xFF;
    }
    let mut dec = MsbcDecoder::new();
    let result = dec.decode_frame(&frame);
    assert!(
        result.is_ok(),
        "极端 scale factor 帧解码不应 panic: {:?}",
        result.err()
    );
    let pcm = result.unwrap();
    assert_eq!(pcm.len(), SAMPLES_PER_FRAME);
}

#[test]
fn forty_frames_decode_to_known_samples() {
    let mut seed: u32 = 12345;
    let mut decoder = MsbcDecoder::new();
    let mut digest: u64 = 0;
    let mut first = Vec::new();
    let mut last = Vec::new();
    for n in 0..40 {
        let mut frame = [0u8; MSBC_FRAME_SIZE];
        frame[0] = MSBC_SYNC_WORD;
        for b in frame[4..].iter_mut() {
            seed = seed.wrapping_mul(1_103_515_245).wrapping_add(12_345) & 0x7FFF_FFFF;
            *b = (seed >> 16) as u8;
        }
        let pcm = decoder.decode_frame(&frame).unwrap();
        for s in &pcm {
            digest = digest.wrapping_mul(31).wrapping_add(u64::from(*s as u16));
        }
        if n == 0 {
            first = pcm[..8].to_vec();
        }
        last = pcm[112..].to_vec();
    }
    assert_eq!(first, vec![0, 17, 26, 26, 0, -54, -113, -190]);
    assert_eq!(last, vec![7506, 13308, -22984, 11756, 26140, -31722, 29887, 6065]);
    assert_eq!(digest, 13_849_330_069_722_801_767);
}

#[test]
fn bits_follow_the_scale_factors() {
    assert_eq!(calculate_bits(&[14, 9, 13, 11, 11, 9, 9, 8]), [7, 3, 5, 4, 3, 2, 2, 0]);
}

#[test]
fn frames_are_checked_before_they_are_decoded() {
    let mut decoder = MsbcDecoder::new();
    assert_eq!(decoder.decode_frame(&[MSBC_SYNC_WORD; 56]), Err("frame too short"));
    assert_eq!(decoder.decode_frame(&[0; 57]), Err("invalid sync word"));
}
