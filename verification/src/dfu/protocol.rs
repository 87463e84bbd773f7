//! Packets of the upgrade protocol.

use vstd::prelude::*;
use crate::kernel::bytes;
use crate::kernel::bytes::{high_byte, low_byte, u16_from_le, u32_from_le};
use crate::kernel::error;
use crate::kernel::text;

verus! {

/// Product id in upgrade mode.
pub const DFU_PID: u16 = 0xFF06;

pub const DFU_REPORT_ID_OUTPUT: u8 = 0xA2;

pub const DFU_REPORT_ID_INPUT: u8 = 0xA1;

/// Bytes of a packet to the board, report id included.
pub const DFU_OUTPUT_MAX_SIZE: usize = 256;

/// Bytes of a packet from the board, report id included.
pub const DFU_INPUT_MAX_SIZE: usize = 64;

/// Firmware bytes of one packet at most.
pub const DFU_DATA_PAYLOAD_MAX: usize = 250;

pub const FLAG_PREPARE: u8 = 0xFF;

pub const FLAG_START: u8 = 0x01;

pub const FLAG_DATA: u8 = 0x02;

pub const FLAG_END: u8 = 0x00;

pub const RESULT_SUCCESS: u8 = 0x00;

pub const RESULT_FAIL: u8 = 0xFF;

pub const WAIT_DFU_DEVICE_TIMEOUT_SECS: u64 = 10;

pub const WAIT_NORMAL_DEVICE_TIMEOUT_SECS: u64 = 15;

pub const DFU_RW_TIMEOUT_MS: u32 = 3000;

/// PREPARE and START make the board erase flash, which takes seconds.
pub const DFU_PREPARE_TIMEOUT_MS: u32 = 8000;

pub const DFU_END_TIMEOUT_MS: u32 = 5000;

/// Sum of bytes.
pub open spec fn byte_sum(data: Seq<u8>) -> nat
    decreases data.len(),
{
    if data.len() == 0 {
        0
    } else {
        byte_sum(data.drop_last()) + data.last() as nat
    }
}

/// The checksum: the sum of all bytes modulo 2^16.
pub open spec fn checksum(data: Seq<u8>) -> u16 {
    (byte_sum(data) % 0x1_0000) as u16
}

/// The checksum of `data`.
pub fn compute_checksum(data: &[u8]) -> (r: u16)
    ensures
        r == checksum(data@),
{
    let mut acc: u16 = 0;
    let mut i: usize = 0;
    while i < data.len()
        invariant
            i <= data@.len(),
            acc == byte_sum(data@.subrange(0, i as int)) % 0x1_0000,
        decreases data@.len() - i,
    {
        assert(data@.subrange(0, i + 1).drop_last() =~= data@.subrange(0, i as int));
        acc = acc.wrapping_add(data[i] as u16);
        i = i + 1;
    }
    assert(data@.subrange(0, data@.len() as int) =~= data@);
    acc
}

/// Builds the packets of the protocol.
pub struct DfuPacketEncoder;

/// A packet of 256 bytes that starts with `prefix`.
pub open spec fn dfu_packet(prefix: Seq<u8>) -> Seq<u8> {
    bytes::padded(prefix, 256)
}

/// PREPARE: announces the firmware length, with a checksum over the length bytes.
pub open spec fn prepare_packet(total_length: u32) -> Seq<u8> {
    dfu_packet(
        seq![DFU_REPORT_ID_OUTPUT, FLAG_PREPARE] + bytes::le32_bytes(total_length)
            + bytes::le16_bytes(checksum(bytes::le32_bytes(total_length))),
    )
}

/// START: initialises the staging partition.
pub open spec fn start_packet() -> Seq<u8> {
    dfu_packet(seq![DFU_REPORT_ID_OUTPUT, FLAG_START])
}

/// DATA: a piece of firmware with its length and checksum.
pub open spec fn data_packet(payload: Seq<u8>) -> Seq<u8> {
    dfu_packet(
        seq![DFU_REPORT_ID_OUTPUT, FLAG_DATA] + bytes::le16_bytes(payload.len() as u16)
            + bytes::le16_bytes(checksum(payload)) + payload,
    )
}

/// END: makes the board verify the firmware and restart.
pub open spec fn end_packet() -> Seq<u8> {
    dfu_packet(seq![DFU_REPORT_ID_OUTPUT, FLAG_END])
}

fn fill_packet(prefix: &[u8]) -> (r: Vec<u8>)
    requires
        prefix@.len() <= 256,
    ensures
        r@ == dfu_packet(prefix@),
{
    let mut buf: Vec<u8> = bytes::to_vec(prefix);
    while buf.len() < DFU_OUTPUT_MAX_SIZE
        invariant
            prefix@.len() <= buf@.len() <= 256,
            forall|k: int|
                0 <= k < buf@.len() ==> #[trigger] buf@[k] == (if k < prefix@.len() { prefix@[k] } else { 0u8 }),
        decreases 256 - buf@.len(),
    {
        buf.push(0);
    }
    assert(buf@ =~= dfu_packet(prefix@));
    buf
}

impl DfuPacketEncoder {
    /// PREPARE for a firmware of `total_length` bytes.
    pub fn prepare(total_length: u32) -> (r: Vec<u8>)
        ensures
            r@ == prepare_packet(total_length),
            r@.len() == DFU_OUTPUT_MAX_SIZE,
    {
        let len: [u8; 4] = [
            (total_length % 256) as u8,
            (total_length / 256 % 256) as u8,
            (total_length / 65536 % 256) as u8,
            (total_length / 16777216) as u8,
        ];
        assert(len@ =~= bytes::le32_bytes(total_length));
        let cs: u16 = compute_checksum(&len);
        let prefix: [u8; 8] = [
            DFU_REPORT_ID_OUTPUT,
            FLAG_PREPARE,
            len[0],
            len[1],
            len[2],
            len[3],
            low_byte(cs),
            high_byte(cs),
        ];
        assert(prefix@ =~= seq![DFU_REPORT_ID_OUTPUT, FLAG_PREPARE] + bytes::le32_bytes(total_length)
            + bytes::le16_bytes(cs));
        fill_packet(&prefix)
    }

    /// START.
    pub fn start() -> (r: Vec<u8>)
        ensures
            r@ == start_packet(),
            r@.len() == DFU_OUTPUT_MAX_SIZE,
    {
        let prefix: [u8; 2] = [DFU_REPORT_ID_OUTPUT, FLAG_START];
        assert(prefix@ =~= seq![DFU_REPORT_ID_OUTPUT, FLAG_START]);
        fill_packet(&prefix)
    }

    /// DATA with up to 250 bytes of firmware; more is refused.
    pub fn data(payload: &[u8]) -> (r: Result<Vec<u8>, String>)
        ensures
            match r {
                Ok(p) => payload@.len() <= DFU_DATA_PAYLOAD_MAX && p@ == data_packet(payload@)
                    && p@.len() == DFU_OUTPUT_MAX_SIZE,
                Err(e) => payload@.len() > DFU_DATA_PAYLOAD_MAX && e@ == "DATA 载荷超长: "@
                    + text::dec_text(payload@.len()) + " > 250"@,
            },
    {
        if payload.len() > DFU_DATA_PAYLOAD_MAX {
            return Err(text::text_dec("DATA 载荷超长: ", payload.len() as u64, " > 250"));
        }
        let size: u16 = payload.len() as u16;
        let cs: u16 = compute_checksum(payload);
        let mut prefix: Vec<u8> = Vec::with_capacity(DFU_OUTPUT_MAX_SIZE);
        prefix.push(DFU_REPORT_ID_OUTPUT);
        prefix.push(FLAG_DATA);
        prefix.push(low_byte(size));
        prefix.push(high_byte(size));
        prefix.push(low_byte(cs));
        prefix.push(high_byte(cs));
        bytes::append_bytes(&mut prefix, payload);
        assert(prefix@ =~= seq![DFU_REPORT_ID_OUTPUT, FLAG_DATA] + bytes::le16_bytes(size)
            + bytes::le16_bytes(cs) + payload@);
        Ok(fill_packet(prefix.as_slice()))
    }

    /// END.
    pub fn end() -> (r: Vec<u8>)
        ensures
            r@ == end_packet(),
            r@.len() == DFU_OUTPUT_MAX_SIZE,
    {
        let prefix: [u8; 2] = [DFU_REPORT_ID_OUTPUT, FLAG_END];
        assert(prefix@ =~= seq![DFU_REPORT_ID_OUTPUT, FLAG_END]);
        fill_packet(&prefix)
    }
}

/// Reply of the board.
#[derive(Debug, Clone, Copy, PartialEq, Eq, Structural)]
pub struct DfuResponse {
    pub flag: u8,
    pub packet_size: u16,
    pub checksum: u16,
    pub result: u8,
    pub total_written: u32,
}

/// The reply in `[flag, size u16, checksum u16, result, written u32]`, or the text of the error.
pub open spec fn response_of(data: Seq<u8>) -> Result<DfuResponse, Seq<char>> {
    if data.len() < 10 {
        Err("DFU 响应长度不足: "@ + text::dec_text(data.len()) + " < 10"@)
    } else {
        Ok(
            DfuResponse {
                flag: data[0],
                packet_size: bytes::le16(data[1], data[2]),
                checksum: bytes::le16(data[3], data[4]),
                result: data[5],
                total_written: bytes::le32(data[6], data[7], data[8], data[9]),
            },
        )
    }
}

impl DfuResponse {
    /// Reads a reply without its report id; it needs ten bytes.
    pub fn parse(data: &[u8]) -> (r: Result<Self, String>)
        ensures
            error::text_outcome(r, response_of(data@)),
    {
        if data.len() < 10 {
            return Err(text::text_dec("DFU 响应长度不足: ", data.len() as u64, " < 10"));
        }
        Ok(
            DfuResponse {
                flag: data[0],
                packet_size: u16_from_le(data[1], data[2]),
                checksum: u16_from_le(data[3], data[4]),
                result: data[5],
                total_written: u32_from_le(data[6], data[7], data[8], data[9]),
            },
        )
    }

    /// Tells whether the board reports success.
    pub fn is_success(&self) -> (r: bool)
        ensures
            r == (self.result == RESULT_SUCCESS),
    {
        self.result == RESULT_SUCCESS
    }
}

/// What a read of the upgrade device gave: nothing means that the time ran out; a leading report
/// id is skipped.
pub open spec fn read_outcome(read: Seq<u8>, timeout_ms: u32) -> Result<DfuResponse, Seq<char>> {
    if read.len() == 0 {
        Err("DFU 响应超时 ("@ + text::dec_text(timeout_ms as nat) + "ms)"@)
    } else if read.len() > 1 && read[0] == DFU_REPORT_ID_INPUT {
        response_of(read.subrange(1, read.len() as int))
    } else {
        response_of(read)
    }
}

/// Reads the reply in the bytes that a read of the upgrade device gave.
pub fn read_response(read: &[u8], timeout_ms: u32) -> (r: Result<DfuResponse, String>)
    ensures
        error::text_outcome(r, read_outcome(read@, timeout_ms)),
{
    if read.len() == 0 {
        return Err(text::text_dec("DFU 响应超时 (", timeout_ms as u64, "ms)"));
    }
    if read.len() > 1 && read[0] == DFU_REPORT_ID_INPUT {
        DfuResponse::parse(&read[1..read.len()])
    } else {
        DfuResponse::parse(read)
    }
}

/// A DATA packet tells its own length and carries its payload unchanged.
pub proof fn law_a_data_packet_carries_its_payload(payload: Seq<u8>)
    requires
        payload.len() <= DFU_DATA_PAYLOAD_MAX,
    ensures
        bytes::le16(data_packet(payload)[2], data_packet(payload)[3]) == payload.len(),
        bytes::le16(data_packet(payload)[4], data_packet(payload)[5]) == checksum(payload),
        data_packet(payload).subrange(6, 6 + payload.len() as int) == payload,
{
    let p = data_packet(payload);
    let size = payload.len() as u16;
    let cs = checksum(payload);
    assert(p[2] == (size % 256) as u8 && p[3] == (size / 256) as u8);
    assert(p[4] == (cs % 256) as u8 && p[5] == (cs / 256) as u8);
    assert(p.subrange(6, 6 + payload.len() as int) =~= payload);
}

/// The checksum adds up every byte, modulo 2^16.
pub proof fn law_the_checksum_adds_every_byte(data: Seq<u8>, b: u8)
    ensures
        checksum(Seq::empty()) == 0,
        checksum(data.push(b)) == (checksum(data) + b) % 0x1_0000,
{
    assert(data.push(b).drop_last() =~= data);
    assert(byte_sum(data.push(b)) == byte_sum(data) + b);
}

/// PREPARE is [0xA2, 0xFF, length, sum of the length bytes], numbers with the low byte first.
pub proof fn law_prepare_is_laid_out_like_this(total: u32)
    ensures
        ({
            let p = prepare_packet(total);
            &&& p.len() == 256
            &&& p[0] == 0xA2 && p[1] == 0xFF
            &&& p[2] + 256 * p[3] + 65536 * p[4] + 16777216 * p[5] == total
            &&& p[6] + 256 * p[7] == p[2] + p[3] + p[4] + p[5]
            &&& forall|i: int| 8 <= i < 256 ==> #[trigger] p[i] == 0
        }),
{
    let len = bytes::le32_bytes(total);
    let cs = checksum(len);
    let p = prepare_packet(total);
    let head = seq![DFU_REPORT_ID_OUTPUT, FLAG_PREPARE];
    let all = head + len + bytes::le16_bytes(cs);
    assert(all.len() == 8);
    assert(p == bytes::padded(all, 256));
    assert(all[2] == len[0] && all[3] == len[1] && all[4] == len[2] && all[5] == len[3]);
    assert(all[6] == (cs % 256) as u8 && all[7] == (cs / 256) as u8);
    assert(len =~= seq![len[0], len[1], len[2], len[3]]);
    assert(len.drop_last() =~= seq![len[0], len[1], len[2]]);
    assert(len.drop_last().drop_last() =~= seq![len[0], len[1]]);
    assert(len.drop_last().drop_last().drop_last() =~= seq![len[0]]);
    assert(len.drop_last().drop_last().drop_last().drop_last() =~= Seq::empty());
    reveal_with_fuel(byte_sum, 5);
    assert(byte_sum(len) == len[0] + len[1] + len[2] + len[3]);
}

/// START is [0xA2, 1] and END is [0xA2, 0], both filled up with zeros.
pub proof fn law_start_and_end_are_laid_out_like_this()
    ensures
        start_packet().len() == 256 && end_packet().len() == 256,
        start_packet()[0] == 0xA2 && start_packet()[1] == 1,
        end_packet()[0] == 0xA2 && end_packet()[1] == 0,
        forall|i: int| 2 <= i < 256 ==> #[trigger] start_packet()[i] == 0,
        forall|i: int| 2 <= i < 256 ==> #[trigger] end_packet()[i] == 0,
{
}

/// DATA is [0xA2, 2, length, checksum, firmware], numbers with the low byte first, filled up with
/// zeros.
pub proof fn law_data_is_laid_out_like_this(payload: Seq<u8>)
    requires
        payload.len() <= 250,
    ensures
        ({
            let p = data_packet(payload);
            let n = payload.len() as int;
            &&& p.len() == 256
            &&& p[0] == 0xA2 && p[1] == 2
            &&& p[2] + 256 * p[3] == n
            &&& p[4] + 256 * p[5] == checksum(payload)
            &&& p.subrange(6, 6 + n) == payload
            &&& forall|i: int| 6 + n <= i < 256 ==> #[trigger] p[i] == 0
        }),
{
    let size = payload.len() as u16;
    let cs = checksum(payload);
    let p = data_packet(payload);
    let n = payload.len() as int;
    let head = seq![DFU_REPORT_ID_OUTPUT, FLAG_DATA] + bytes::le16_bytes(size)
        + bytes::le16_bytes(cs);
    assert(head.len() == 6);
    assert(head[0] == 0xA2 && head[1] == 2);
    assert(head[2] == (size % 256) as u8 && head[3] == (size / 256) as u8);
    assert(head[4] == (cs % 256) as u8 && head[5] == (cs / 256) as u8);
    lemma_padded(head, payload, 256);
    assert(p == bytes::padded(head + payload, 256));
}

/// A head and a body, filled up with zeros.
proof fn lemma_padded(head: Seq<u8>, body: Seq<u8>, len: nat)
    requires
        head.len() + body.len() <= len,
    ensures
        ({
            let p = bytes::padded(head + body, len);
            &&& p.len() == len
            &&& forall|i: int| 0 <= i < head.len() ==> #[trigger] p[i] == head[i]
            &&& p.subrange(head.len() as int, (head.len() + body.len()) as int) == body
            &&& forall|i: int| head.len() + body.len() <= i < len ==> #[trigger] p[i] == 0
        }),
{
    let p = bytes::padded(head + body, len);
    assert(p.subrange(head.len() as int, (head.len() + body.len()) as int) =~= body);
}

/// A reply tells its numbers with the low byte first, with or without the report id in front.
pub proof fn law_a_reply_is_read_like_this(data: Seq<u8>, timeout_ms: u32)
    ensures
        data.len() < 10 ==> response_of(data) is Err,
        data.len() >= 10 ==> (response_of(data) matches Ok(r) && r.flag == data[0]
            && r.packet_size == data[1] + 256 * data[2] && r.checksum == data[3] + 256 * data[4]
            && r.result == data[5] && r.total_written == data[6] + 256 * data[7] + 65536 * data[8]
            + 16777216 * data[9]),
        data.len() > 0 ==> read_outcome(seq![0xA1u8] + data, timeout_ms) == response_of(data),
        data.len() > 0 && data[0] != 0xA1 ==> read_outcome(data, timeout_ms) == response_of(data),
        read_outcome(Seq::empty(), timeout_ms) is Err,
{
    assert((seq![0xA1u8] + data).subrange(1, 1 + data.len() as int) =~= data);
}

} // verus!
