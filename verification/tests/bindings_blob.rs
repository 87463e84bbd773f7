use reai_board_sdk::kernel::bindings_blob::{
    build_blob_frame, commit_bindings_blob_packet, crc16_ccitt_false, inspect_blob_frame,
    parse_blob_read_gatt_response, parse_blob_read_hid_response,
    parse_blob_write_ack_gatt_response, parse_blob_write_ack_hid_response, peek_blob_header,
    read_bindings_blob_packet, read_blob, split_blob_chunks, write_bindings_blob_packet,
    write_blob, BlobLink, BlobRead, BlobReassembler, BlobWriteAck, BlobWriteError, FrameVerdict,
    BLOB_CHUNK_SIZE, BLOB_CRC_LEN, BLOB_FORMAT_VERSION, BLOB_HEADER_LEN, BLOB_MAX_PAYLOAD,
    BLOB_OFFSET_COMMIT, COMMIT_DETAIL_CRC, COMMIT_DETAIL_INCOMPLETE, COMMIT_DETAIL_OK,
};

use std::collections::VecDeque;

#[test]
fn crc16_standard_vectors() {
    assert_eq!(crc16_ccitt_false(b"123456789"), 0x29B1);
    assert_eq!(crc16_ccitt_false(b""), 0xFFFF);
    assert_eq!(crc16_ccitt_false(&[0x00]), 0xE1F0);
}

#[test]
fn frame_layout_reads_back() {
    let payload = b"{\"v\":1,\"bindings\":{}}";
    let frame = build_blob_frame(payload).expect("组帧");
    assert_eq!(&frame[0..4], b"RBND");
    assert_eq!(frame[4], BLOB_FORMAT_VERSION);
    assert_eq!(frame[5], 0);
    assert_eq!(
        u16::from_le_bytes([frame[6], frame[7]]) as usize,
        payload.len()
    );
    assert_eq!(frame.len(), BLOB_HEADER_LEN + payload.len() + BLOB_CRC_LEN);
    let crc_off = frame.len() - 2;
    assert_eq!(
        u16::from_le_bytes([frame[crc_off], frame[crc_off + 1]]),
        crc16_ccitt_false(payload),
        "帧尾 CRC 必须盖住 payload"
    );

    match inspect_blob_frame(&frame) {
        FrameVerdict::Valid {
            version,
            flags,
            payload: back,
        } => {
            assert_eq!(version, BLOB_FORMAT_VERSION);
            assert_eq!(flags, 0);
            assert_eq!(back, payload);
        }
        other => panic!("自组的帧必须有效: {other:?}"),
    }
}

#[test]
fn an_empty_payload_is_a_valid_frame() {
    let frame = build_blob_frame(b"").expect("空 payload 组帧");
    assert_eq!(frame.len(), BLOB_HEADER_LEN + BLOB_CRC_LEN);
    assert_eq!(
        inspect_blob_frame(&frame),
        FrameVerdict::Valid {
            version: 1,
            flags: 0,
            payload: vec![]
        }
    );
}

#[test]
fn an_oversized_payload_is_not_framed() {
    let big = vec![0u8; BLOB_MAX_PAYLOAD + 1];
    assert!(build_blob_frame(&big).is_err());
    let max = vec![0u8; BLOB_MAX_PAYLOAD];
    assert!(build_blob_frame(&max).is_ok(), "上限本身必须能组");
}

#[test]
fn erased_flash_counts_as_never_written() {
    let frame = vec![0xFFu8; BLOB_HEADER_LEN];
    assert_eq!(inspect_blob_frame(&frame), FrameVerdict::NeverWritten);
}

#[test]
fn a_bad_magic_is_corrupt_not_never_written() {
    let mut frame = build_blob_frame(b"x").expect("组帧");
    frame[0] = b'X';
    match inspect_blob_frame(&frame) {
        FrameVerdict::Corrupt(_) => {}
        other => panic!("坏 magic 必须判损坏: {other:?}"),
    }
}

#[test]
fn a_bad_crc_is_corrupt() {
    let mut frame = build_blob_frame(b"abc").expect("组帧");
    let last = frame.len() - 1;
    frame[last] ^= 0xFF;
    match inspect_blob_frame(&frame) {
        FrameVerdict::Corrupt(detail) => {
            assert!(detail.contains("CRC"), "要说明是 CRC: {detail}")
        }
        other => panic!("CRC 错必须判损坏: {other:?}"),
    }
}

#[test]
fn an_unknown_version_is_corrupt() {
    let mut frame = build_blob_frame(b"abc").expect("组帧");
    frame[4] = BLOB_FORMAT_VERSION + 1;
    match inspect_blob_frame(&frame) {
        FrameVerdict::Corrupt(_) => {}
        other => panic!("未来版本必须上抛而不是当有效: {other:?}"),
    }
}

#[test]
fn an_out_of_range_payload_len_is_corrupt() {
    let mut frame = build_blob_frame(b"abc").expect("组帧");
    let insane = (BLOB_MAX_PAYLOAD as u16) + 1;
    frame[6..8].copy_from_slice(&insane.to_le_bytes());
    match inspect_blob_frame(&frame) {
        FrameVerdict::Corrupt(_) => {}
        other => panic!("长度越界必须判损坏: {other:?}"),
    }
}

#[test]
fn peek_tells_three_headers_apart() {
    assert_eq!(peek_blob_header(&[0xFF; 8]), Some((true, 0xFFFF)));

    let payload = b"hello";
    let frame = build_blob_frame(payload).expect("组帧");
    assert_eq!(
        peek_blob_header(&frame[..8]),
        Some((false, payload.len() as u16))
    );
    assert_eq!(peek_blob_header(&frame[..7]), None, "不足 8 字节不给结论");
}

#[test]
fn chunks_are_aligned_to_56_and_cover_the_frame() {
    let frame = build_blob_frame(&[7u8; 200]).expect("组帧");
    let chunks = split_blob_chunks(&frame);
    let mut cursor = 0usize;
    for (offset, chunk) in &chunks {
        assert_eq!(*offset as usize % BLOB_CHUNK_SIZE, 0, "offset 必须对齐");
        assert_eq!(*offset as usize, cursor, "分片要紧挨着排");
        assert!(chunk.len() <= BLOB_CHUNK_SIZE);
        cursor += chunk.len();
    }
    assert_eq!(cursor, frame.len(), "分片合起来就是整帧");
}

#[test]
fn reassembly_does_not_depend_on_order() {
    let frame = build_blob_frame(&[3u8; 150]).expect("组帧");
    let chunks = split_blob_chunks(&frame);
    let total = frame.len() as u16;

    let mut a = BlobReassembler::new();
    for (offset, chunk) in &chunks {
        a.offer(*offset, total, chunk).expect("顺序喂片");
    }
    assert!(a.is_complete());
    assert_eq!(a.frame_bytes(), Some(frame.as_slice()));

    let mut b = BlobReassembler::new();
    for (offset, chunk) in chunks.iter().rev() {
        b.offer(*offset, total, chunk).expect("乱序喂片");
    }
    assert!(b.is_complete());
    assert_eq!(b.frame_bytes(), Some(frame.as_slice()));
}

#[test]
fn reassembly_of_a_repeated_chunk_is_idempotent() {
    let frame = build_blob_frame(&[9u8; 60]).expect("组帧");
    let chunks = split_blob_chunks(&frame);
    let total = frame.len() as u16;

    let mut r = BlobReassembler::new();
    let (off0, chunk0) = &chunks[0];
    r.offer(*off0, total, chunk0).expect("第一片");
    r.offer(*off0, total, chunk0).expect("重试同一片不得报错");
    assert!(!r.is_complete(), "只收了一片不能判齐");
    for (offset, chunk) in &chunks[1..] {
        r.offer(*offset, total, chunk).expect("剩余片");
    }
    assert!(r.is_complete());
    assert_eq!(r.frame_bytes(), Some(frame.as_slice()));
}

#[test]
fn reassembly_refuses_unaligned_offsets_and_long_chunks() {
    let mut r = BlobReassembler::new();
    assert!(r.offer(3, 100, &[0u8; 10]).is_err(), "非对齐 offset");
    assert!(
        r.offer(0, 100, &[0u8; BLOB_CHUNK_SIZE + 1]).is_err(),
        "单片超长"
    );
}

#[test]
fn read_request_layout() {
    let pkt = read_bindings_blob_packet(0x0123);
    assert_eq!(&pkt[..5], &[0x0B, 0x69, 0x02, 0x23, 0x01]);
    assert!(pkt[5..].iter().all(|&b| b == 0), "其余字节补零");
}

#[test]
fn write_chunk_layout() {
    let chunk = [0xAA, 0xBB, 0xCC];
    let pkt = write_bindings_blob_packet(0x0038, &chunk);
    assert_eq!(&pkt[..8], &[0x0B, 0x6A, 0x05, 0x38, 0x00, 0xAA, 0xBB, 0xCC]);
}

#[test]
fn commit_layout() {
    let pkt = commit_bindings_blob_packet(0x0100, 0x29B1);
    assert_eq!(
        &pkt[..9],
        &[0x0B, 0x6A, 0x06, 0xFF, 0xFF, 0x00, 0x01, 0xB1, 0x29]
    );
}

#[test]
fn read_reply_over_hid_and_gatt() {
    let hid = [0x0A, 0x69, 0x09, 0x00, 0x38, 0x00, 0xC8, 0x00, 1, 2, 3, 4];
    let (offset, total, chunk) = parse_blob_read_hid_response(&hid).expect("HID 应答");
    assert_eq!(offset, 0x38);
    assert_eq!(total, 0xC8);
    assert_eq!(chunk, &[1, 2, 3, 4]);

    let gatt = [0x69, 0x09, 0x00, 0x38, 0x00, 0xC8, 0x00, 1, 2, 3, 4];
    let (offset, total, chunk) = parse_blob_read_gatt_response(&gatt).expect("GATT 应答");
    assert_eq!(offset, 0x38);
    assert_eq!(total, 0xC8);
    assert_eq!(chunk, &[1, 2, 3, 4]);

    let bad = [0x0A, 0x69, 0x09, 0xFF, 0x38, 0x00, 0xC8, 0x00, 1, 2, 3, 4];
    assert_eq!(parse_blob_read_hid_response(&bad), None);
    let wrong = [0x0A, 0x61, 0x09, 0x00, 0x38, 0x00, 0xC8, 0x00, 1, 2, 3, 4];
    assert_eq!(parse_blob_read_hid_response(&wrong), None);
    assert_eq!(parse_blob_read_hid_response(&hid[..8]), None);
    assert_eq!(parse_blob_read_gatt_response(&gatt[..7]), None);
}

#[test]
fn write_reply_parsing() {
    let hid = [0x0A, 0x6A, 0x03, 0x00, 0x38, 0x00];
    let ack = parse_blob_write_ack_hid_response(&hid).expect("分片 ack");
    assert!(ack.is_ok());
    assert_eq!(ack.offset, 0x38);

    let commit_ok = [0x0A, 0x6A, 0x04, 0x00, 0xFF, 0xFF, 0x00];
    let ack = parse_blob_write_ack_hid_response(&commit_ok).expect("commit ack");
    assert!(ack.is_ok());
    assert_eq!(ack.offset, BLOB_OFFSET_COMMIT);
    assert_eq!(ack.detail, COMMIT_DETAIL_OK);

    let commit_crc = [0x0A, 0x6A, 0x04, 0xFF, 0xFF, 0xFF, COMMIT_DETAIL_CRC];
    let ack = parse_blob_write_ack_hid_response(&commit_crc).expect("失败应答也解析");
    assert!(!ack.is_ok());
    assert_eq!(ack.detail, COMMIT_DETAIL_CRC);

    let gatt = [0x6A, 0x04, 0xFF, 0xFF, 0xFF, COMMIT_DETAIL_INCOMPLETE];
    let ack = parse_blob_write_ack_gatt_response(&gatt).expect("GATT ack");
    assert!(!ack.is_ok());
    assert_eq!(ack.detail, COMMIT_DETAIL_INCOMPLETE);

    assert_eq!(parse_blob_write_ack_hid_response(&[0x0A, 0x6A, 0x03]), None);
    assert_eq!(
        parse_blob_write_ack_hid_response(&[0x0A, 0x61, 0x03, 0x00, 0, 0]),
        None
    );
}

type ReadReply = Result<Option<(u16, u16, Vec<u8>)>, String>;
type WriteReply = Result<Option<BlobWriteAck>, String>;

#[derive(Default)]
struct ScriptLink {
    read_replies: VecDeque<ReadReply>,
    write_replies: VecDeque<WriteReply>,
    commit_replies: VecDeque<WriteReply>,
    read_offsets: Vec<u16>,
    written: Vec<(u16, Vec<u8>)>,
    commits: Vec<(u16, u16)>,
}

impl BlobLink for ScriptLink {
    fn read_chunk(&mut self, offset: u16) -> Result<Option<(u16, u16, Vec<u8>)>, String> {
        self.read_offsets.push(offset);
        self.read_replies.pop_front().expect("脚本里没有更多读应答")
    }

    fn write_chunk(
        &mut self,
        offset: u16,
        chunk: &[u8],
    ) -> Result<Option<BlobWriteAck>, String> {
        self.written.push((offset, chunk.to_vec()));
        self.write_replies
            .pop_front()
            .expect("脚本里没有更多写应答")
    }

    fn commit(
        &mut self,
        total_len: u16,
        crc16: u16,
    ) -> Result<Option<BlobWriteAck>, String> {
        self.commits.push((total_len, crc16));
        self.commit_replies
            .pop_front()
            .expect("脚本里没有更多 commit 应答")
    }
}

fn ok_read(offset: u16, total: u16, chunk: &[u8]) -> ReadReply {
    Ok(Some((offset, total, chunk.to_vec())))
}

fn ok_write(offset: u16) -> WriteReply {
    Ok(Some(BlobWriteAck {
        result: 0,
        offset,
        detail: 0,
    }))
}

fn scripted_reads(frame: &[u8]) -> VecDeque<ReadReply> {
    split_blob_chunks(frame)
        .into_iter()
        .map(|(offset, chunk)| ok_read(offset, frame.len() as u16, chunk))
        .collect()
}

#[test]
fn read_flow_never_written() {
    let mut link = ScriptLink::default();
    link.read_replies
        .push_back(ok_read(0, BLOB_HEADER_LEN as u16, &[0xFF; 8]));
    let read = read_blob(&mut link).expect("读流程");
    assert_eq!(read, BlobRead::NeverWritten);
    assert_eq!(link.read_offsets, vec![0], "看到擦除态就该停手");
}

#[test]
fn read_flow_timeout_is_unsupported() {
    let mut link = ScriptLink::default();
    link.read_replies.push_back(Ok(None));
    let read = read_blob(&mut link).expect("超时不算传输错误");
    assert_eq!(read, BlobRead::Unsupported);
}

#[test]
fn read_flow_valid_frame_of_several_chunks() {
    let payload = vec![5u8; 180];
    let frame = build_blob_frame(&payload).expect("组帧");
    let mut link = ScriptLink {
        read_replies: scripted_reads(&frame),
        ..Default::default()
    };
    let read = read_blob(&mut link).expect("读流程");
    assert_eq!(
        read,
        BlobRead::Valid {
            version: 1,
            flags: 0,
            payload
        }
    );
    assert!(link.read_offsets.iter().all(|o| o % 56 == 0));
    assert!(link.read_offsets.windows(2).all(|w| w[1] > w[0]));
}

#[test]
fn read_flow_reports_a_corrupt_crc() {
    let mut frame = build_blob_frame(b"real bindings").expect("组帧");
    let last = frame.len() - 1;
    frame[last] ^= 0x01;
    let mut link = ScriptLink {
        read_replies: scripted_reads(&frame),
        ..Default::default()
    };
    match read_blob(&mut link).expect("读流程") {
        BlobRead::Corrupt(_) => {}
        other => panic!("损坏必须上抛: {other:?}"),
    }
}

#[test]
fn read_flow_ends_on_an_empty_chunk() {
    let payload = vec![9u8; 120];
    let frame = build_blob_frame(&payload).expect("组帧");
    let total = frame.len() as u16;
    let mut replies = VecDeque::new();
    replies.push_back(ok_read(0, total, &frame[..56]));
    replies.push_back(Ok(Some((56, total, Vec::new()))));
    let mut link = ScriptLink {
        read_replies: replies,
        ..Default::default()
    };
    let result = read_blob(&mut link);
    assert!(result.is_err(), "零长片必须报错而非死循环/静默接受");
    assert_eq!(link.read_offsets, vec![0, 56]);
}

#[test]
fn write_flow_chunks_commit_and_read_back() {
    let payload = b"{\"v\":1,\"bindings\":{\"key.tab\":{}}}".to_vec();
    let frame = build_blob_frame(&payload).expect("组帧");
    let n_chunks = split_blob_chunks(&frame).len();

    let mut link = ScriptLink::default();
    for (offset, _) in split_blob_chunks(&frame) {
        link.write_replies.push_back(ok_write(offset));
    }
    link.commit_replies.push_back(ok_write(BLOB_OFFSET_COMMIT));
    link.read_replies = scripted_reads(&frame);

    write_blob(&mut link, &payload).expect("写流程");

    assert_eq!(link.written.len(), n_chunks, "每片都要写一次");
    assert_eq!(link.commits.len(), 1, "commit 恰好一次");
    let (total, crc) = link.commits[0];
    assert_eq!(total as usize, frame.len());
    assert_eq!(crc, crc16_ccitt_false(&payload));
    assert!(!link.read_offsets.is_empty(), "必须有回读校验");
}

#[test]
fn write_flow_commit_rejected() {
    let payload = b"x".to_vec();
    let frame = build_blob_frame(&payload).expect("组帧");
    let mut link = ScriptLink::default();
    for (offset, _) in split_blob_chunks(&frame) {
        link.write_replies.push_back(ok_write(offset));
    }
    link.commit_replies.push_back(Ok(Some(BlobWriteAck {
        result: 0xFF,
        offset: BLOB_OFFSET_COMMIT,
        detail: COMMIT_DETAIL_CRC,
    })));

    let err = write_blob(&mut link, &payload).unwrap_err();
    assert_eq!(err, BlobWriteError::CommitRejected(COMMIT_DETAIL_CRC));
}

#[test]
fn write_flow_first_timeout_is_unsupported() {
    let mut link = ScriptLink::default();
    link.write_replies.push_back(Ok(None));
    let err = write_blob(&mut link, b"x").unwrap_err();
    assert_eq!(err, BlobWriteError::Unsupported);
}

#[test]
fn write_flow_commit_timeout_is_settled_by_read_back() {
    let payload = b"abc".to_vec();
    let frame = build_blob_frame(&payload).expect("组帧");

    let mut link = ScriptLink::default();
    for (offset, _) in split_blob_chunks(&frame) {
        link.write_replies.push_back(ok_write(offset));
    }
    link.commit_replies.push_back(Ok(None));
    link.read_replies = scripted_reads(&frame);
    write_blob(&mut link, &payload)
        .expect("回读一致即成功");

    let mut link = ScriptLink::default();
    for (offset, _) in split_blob_chunks(&frame) {
        link.write_replies.push_back(ok_write(offset));
    }
    link.commit_replies.push_back(Ok(None));
    link.read_replies
        .push_back(ok_read(0, BLOB_HEADER_LEN as u16, &[0xFF; 8]));
    let err = write_blob(&mut link, &payload).unwrap_err();
    assert_eq!(err, BlobWriteError::VerifyMismatch);
}

#[test]
fn write_flow_read_back_mismatch() {
    let payload = b"abc".to_vec();
    let frame = build_blob_frame(&payload).expect("组帧");
    let other = build_blob_frame(b"different").expect("组帧");

    let mut link = ScriptLink::default();
    for (offset, _) in split_blob_chunks(&frame) {
        link.write_replies.push_back(ok_write(offset));
    }
    link.commit_replies.push_back(ok_write(BLOB_OFFSET_COMMIT));
    link.read_replies = scripted_reads(&other);
    let err = write_blob(&mut link, &payload).unwrap_err();
    assert_eq!(err, BlobWriteError::VerifyMismatch);
}

#[test]
fn write_flow_oversized_payload_sends_nothing() {
    let mut link = ScriptLink::default();
    let big = vec![0u8; BLOB_MAX_PAYLOAD + 1];
    let err = write_blob(&mut link, &big).unwrap_err();
    assert_eq!(err, BlobWriteError::TooLarge);
    assert!(link.written.is_empty(), "超限一片都不许发");
}
