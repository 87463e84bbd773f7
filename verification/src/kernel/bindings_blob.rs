//! Bindings blob: the frame in the board's flash, its chunks, and the read and write sessions.
//!
//! ```text
//! [0..4]  magic "RBND"
//! [4]     format version
//! [5]     flags
//! [6..8]  payload length, little-endian
//! [8..]   payload, at most 3830 bytes
//! [last 2] CRC-16/CCITT-FALSE of the payload, little-endian
//! ```
//!
//! Erased flash (never written) and a damaged frame are kept apart: the first may be set up
//! silently, the second is the user's decision.

use vstd::prelude::*;
use super::bytes;
use super::bytes::{append_bytes, bytes_eq, high_byte, low_byte, to_vec, u16_from_le};
use super::error;
use super::text;

pub use super::protocol_hid::{
    commit_bindings_blob_packet, read_bindings_blob_packet, write_bindings_blob_packet,
    CMD_AI_READ_BINDINGS_BLOB, CMD_AI_WRITE_BINDINGS_BLOB,
};

verus! {

pub const BLOB_MAGIC: [u8; 4] = [0x52, 0x42, 0x4E, 0x44];

pub const BLOB_FORMAT_VERSION: u8 = 1;

pub const BLOB_HEADER_LEN: usize = 8;

pub const BLOB_CRC_LEN: usize = 2;

/// A 4 KiB block without its reserved 256 bytes, the header and the CRC.
pub const BLOB_MAX_PAYLOAD: usize = 3830;

pub const BLOB_MAX_FRAME: usize = 3840;

pub const BLOB_CHUNK_SIZE: usize = 56;

/// Offset that stands for the commit.
pub const BLOB_OFFSET_COMMIT: u16 = 0xFFFF;

pub const COMMIT_DETAIL_OK: u8 = 0;

pub const COMMIT_DETAIL_INCOMPLETE: u8 = 1;

pub const COMMIT_DETAIL_CRC: u8 = 2;

pub const COMMIT_DETAIL_BAD_HEADER: u8 = 3;

pub const COMMIT_DETAIL_VERIFY: u8 = 4;

// ---------------------------------------------------------------- CRC

/// One bit of the CRC register with polynomial 0x1021.
pub open spec fn crc_shift(crc: u16) -> u16 {
    if crc & 0x8000 != 0 {
        (crc << 1) ^ 0x1021
    } else {
        crc << 1
    }
}

/// `n` bits of the CRC register.
pub open spec fn crc_shifts(crc: u16, n: nat) -> u16
    decreases n,
{
    if n == 0 {
        crc
    } else {
        crc_shift(crc_shifts(crc, (n - 1) as nat))
    }
}

/// CRC-16/CCITT-FALSE: start value 0xFFFF, every byte enters at the top, nothing is reflected.
pub open spec fn crc16(data: Seq<u8>) -> u16
    decreases data.len(),
{
    if data.len() == 0 {
        0xFFFF
    } else {
        crc_shifts(crc16(data.drop_last()) ^ ((data.last() as u16) << 8), 8)
    }
}

/// CRC-16/CCITT-FALSE of `data`.
pub fn crc16_ccitt_false(data: &[u8]) -> (r: u16)
    ensures
        r == crc16(data@),
{
    let mut crc: u16 = 0xFFFF;
    let mut i: usize = 0;
    while i < data.len()
        invariant
            i <= data@.len(),
            crc == crc16(data@.subrange(0, i as int)),
        decreases data@.len() - i,
    {
        assert(data@.subrange(0, i + 1).drop_last() =~= data@.subrange(0, i as int));
        let ghost entered = crc ^ ((data@[i as int] as u16) << 8);
        crc = crc ^ ((data[i] as u16) << 8);
        let mut bit: u8 = 0;
        while bit < 8
            invariant
                bit <= 8,
                crc == crc_shifts(entered, bit as nat),
            decreases 8 - bit,
        {
            if crc & 0x8000 != 0 {
                crc = (crc << 1) ^ 0x1021;
            } else {
                crc = crc << 1;
            }
            bit = bit + 1;
        }
        i = i + 1;
    }
    assert(data@.subrange(0, data@.len() as int) =~= data@);
    crc
}

// ---------------------------------------------------------------- frames

/// The frame around a payload.
pub open spec fn blob_frame(payload: Seq<u8>) -> Seq<u8> {
    BLOB_MAGIC@ + seq![BLOB_FORMAT_VERSION, 0u8] + bytes::le16_bytes(payload.len() as u16) + payload
        + bytes::le16_bytes(crc16(payload))
}

/// Builds the frame around a payload; a payload above the limit is refused.
pub fn build_blob_frame(payload: &[u8]) -> (r: Result<Vec<u8>, String>)
    ensures
        match r {
            Ok(frame) => payload@.len() <= BLOB_MAX_PAYLOAD && frame@ == blob_frame(payload@)
                && frame@.len() == payload@.len() + 10,
            Err(e) => payload@.len() > BLOB_MAX_PAYLOAD && e@ == "blob payload 超限: "@
                + text::dec_text(payload@.len()) + " > 3830"@,
        },
{
    if payload.len() > BLOB_MAX_PAYLOAD {
        return Err(text::text_dec("blob payload 超限: ", payload.len() as u64, " > 3830"));
    }
    let mut frame: Vec<u8> = Vec::with_capacity(BLOB_HEADER_LEN + payload.len() + BLOB_CRC_LEN);
    frame.push(BLOB_MAGIC[0]);
    frame.push(BLOB_MAGIC[1]);
    frame.push(BLOB_MAGIC[2]);
    frame.push(BLOB_MAGIC[3]);
    frame.push(BLOB_FORMAT_VERSION);
    frame.push(0);
    let len: u16 = payload.len() as u16;
    frame.push(low_byte(len));
    frame.push(high_byte(len));
    assert(frame@ =~= BLOB_MAGIC@ + seq![BLOB_FORMAT_VERSION, 0u8] + bytes::le16_bytes(len));
    append_bytes(&mut frame, payload);
    let crc: u16 = crc16_ccitt_false(payload);
    frame.push(low_byte(crc));
    frame.push(high_byte(crc));
    assert(frame@ =~= blob_frame(payload@));
    Ok(frame)
}

/// What a frame turned out to be.
#[derive(Debug, Clone, PartialEq, Eq)]
pub enum FrameVerdict {
    /// Erased flash.
    NeverWritten,
    /// Written, but not readable.
    Corrupt(String),
    /// A valid frame.
    Valid { version: u8, flags: u8, payload: Vec<u8> },
}

/// What reading the blob gave.
#[derive(Debug, Clone, PartialEq, Eq)]
pub enum BlobRead {
    /// Erased flash.
    NeverWritten,
    /// Written, but not readable.
    Corrupt(String),
    /// A valid frame.
    Valid { version: u8, flags: u8, payload: Vec<u8> },
    /// The firmware does not answer the command.
    Unsupported,
}

/// Mathematical form of `FrameVerdict` and `BlobRead`.
pub enum ReadView {
    NeverWritten,
    Corrupt(Seq<char>),
    Valid { version: u8, flags: u8, payload: Seq<u8> },
    Unsupported,
}

impl View for FrameVerdict {
    type V = ReadView;

    open spec fn view(&self) -> ReadView {
        match *self {
            FrameVerdict::NeverWritten => ReadView::NeverWritten,
            FrameVerdict::Corrupt(t) => ReadView::Corrupt(t@),
            FrameVerdict::Valid { version, flags, payload } => ReadView::Valid {
                version,
                flags,
                payload: payload@,
            },
        }
    }
}

impl View for BlobRead {
    type V = ReadView;

    open spec fn view(&self) -> ReadView {
        match *self {
            BlobRead::NeverWritten => ReadView::NeverWritten,
            BlobRead::Corrupt(t) => ReadView::Corrupt(t@),
            BlobRead::Valid { version, flags, payload } => ReadView::Valid {
                version,
                flags,
                payload: payload@,
            },
            BlobRead::Unsupported => ReadView::Unsupported,
        }
    }
}

/// The first four bytes are those of erased flash.
pub open spec fn is_erased(frame: Seq<u8>) -> bool {
    frame[0] == 0xFF && frame[1] == 0xFF && frame[2] == 0xFF && frame[3] == 0xFF
}

/// The first four bytes are the magic.
pub open spec fn has_magic(frame: Seq<u8>) -> bool {
    frame[0] == BLOB_MAGIC@[0] && frame[1] == BLOB_MAGIC@[1] && frame[2] == BLOB_MAGIC@[2]
        && frame[3] == BLOB_MAGIC@[3]
}

/// Payload length that the header announces.
pub open spec fn announced_len(frame: Seq<u8>) -> int {
    bytes::le16(frame[6], frame[7]) as int
}

/// What a frame is, checked from its front to its CRC.
pub open spec fn frame_verdict(frame: Seq<u8>) -> ReadView {
    let len = announced_len(frame);
    let payload = frame.subrange(8, 8 + len);
    let stored = bytes::le16(frame[8 + len], frame[9 + len]);
    if frame.len() < BLOB_HEADER_LEN {
        ReadView::Corrupt("帧不足 8 字节"@)
    } else if is_erased(frame) {
        ReadView::NeverWritten
    } else if !has_magic(frame) {
        ReadView::Corrupt("magic 不是 RBND（写过但内容不认识）"@)
    } else if frame[4] != BLOB_FORMAT_VERSION {
        ReadView::Corrupt(
            "不认识的格式版本 "@ + text::dec_text(frame[4] as nat) + "（本版本只认 1）"@,
        )
    } else if len > BLOB_MAX_PAYLOAD {
        ReadView::Corrupt("payload_len 越界: "@ + text::dec_text(len as nat) + ""@)
    } else if frame.len() < len + 10 {
        ReadView::Corrupt(
            "帧不完整: "@ + text::dec_text(frame.len()) + " < "@ + text::dec_text((len + 10) as nat),
        )
    } else if crc16(payload) != stored {
        ReadView::Corrupt(
            "CRC 不匹配: 存 0x"@ + text::hex_text(stored as nat, 4) + " 算 0x"@ + text::hex_text(
                crc16(payload) as nat,
                4,
            ),
        )
    } else {
        ReadView::Valid { version: frame[4], flags: frame[5], payload }
    }
}

/// Reads only the header: whether the flash is erased, and the payload length. Needs eight bytes.
pub fn peek_blob_header(header: &[u8]) -> (r: Option<(bool, u16)>)
    ensures
        r == (if header@.len() < BLOB_HEADER_LEN {
            None
        } else {
            Some((is_erased(header@), announced_len(header@) as u16))
        }),
{
    if header.len() < BLOB_HEADER_LEN {
        return None;
    }
    let erased: bool = header[0] == 0xFF && header[1] == 0xFF && header[2] == 0xFF && header[3]
        == 0xFF;
    Some((erased, u16_from_le(header[6], header[7])))
}

/// Judges a complete frame.
pub fn inspect_blob_frame(frame: &[u8]) -> (r: FrameVerdict)
    ensures
        r@ == frame_verdict(frame@),
{
    let payload_len: usize = match peek_blob_header(frame) {
        None => {
            return FrameVerdict::Corrupt("帧不足 8 字节".to_string());
        },
        Some((erased, len)) => {
            if erased {
                return FrameVerdict::NeverWritten;
            }
            len as usize
        },
    };
    if !(frame[0] == BLOB_MAGIC[0] && frame[1] == BLOB_MAGIC[1] && frame[2] == BLOB_MAGIC[2]
        && frame[3] == BLOB_MAGIC[3]) {
        return FrameVerdict::Corrupt("magic 不是 RBND（写过但内容不认识）".to_string());
    }
    let version: u8 = frame[4];
    if version != BLOB_FORMAT_VERSION {
        return FrameVerdict::Corrupt(
            text::text_dec("不认识的格式版本 ", version as u64, "（本版本只认 1）"),
        );
    }
    if payload_len > BLOB_MAX_PAYLOAD {
        return FrameVerdict::Corrupt(text::text_dec("payload_len 越界: ", payload_len as u64, ""));
    }
    let total: usize = BLOB_HEADER_LEN + payload_len + BLOB_CRC_LEN;
    if frame.len() < total {
        return FrameVerdict::Corrupt(
            text::text_dec2("帧不完整: ", frame.len() as u64, " < ", total as u64),
        );
    }
    let payload: &[u8] = &frame[BLOB_HEADER_LEN..BLOB_HEADER_LEN + payload_len];
    let stored: u16 = u16_from_le(frame[total - 2], frame[total - 1]);
    let computed: u16 = crc16_ccitt_false(payload);
    if computed != stored {
        let mut out: String = "CRC 不匹配: 存 0x".to_string();
        text::append_hex(&mut out, stored as u64, 4);
        out.append(" 算 0x");
        text::append_hex(&mut out, computed as u64, 4);
        return FrameVerdict::Corrupt(out);
    }
    FrameVerdict::Valid { version, flags: frame[5], payload: to_vec(payload) }
}

/// A built frame reads back as the payload it was built from.
pub proof fn law_a_built_frame_is_valid(payload: Seq<u8>)
    requires
        payload.len() <= BLOB_MAX_PAYLOAD,
    ensures
        frame_verdict(blob_frame(payload)) == (ReadView::Valid {
            version: BLOB_FORMAT_VERSION,
            flags: 0,
            payload,
        }),
        blob_frame(payload).len() == payload.len() + 10,
{
    let frame = blob_frame(payload);
    let len = payload.len() as u16;
    assert(BLOB_MAGIC@.len() == 4 && BLOB_MAGIC@[0] == 0x52);
    assert(frame.len() == payload.len() + 10);
    assert(frame[6] == (len % 256) as u8 && frame[7] == (len / 256) as u8);
    assert(announced_len(frame) == payload.len());
    let n = payload.len() as int;
    assert(frame.subrange(8, 8 + n) =~= payload);
    let crc = crc16(payload);
    assert(frame[8 + n] == (crc % 256) as u8);
    assert(frame[9 + n] == (crc / 256) as u8);
}

/// Only erased flash counts as never written: a frame with any other start is valid or damaged.
pub proof fn law_damage_is_not_taken_for_erased_flash(frame: Seq<u8>)
    requires
        frame.len() >= BLOB_HEADER_LEN,
    ensures
        frame_verdict(frame) == ReadView::NeverWritten <==> is_erased(frame),
        !is_erased(frame) && !has_magic(frame) ==> frame_verdict(frame) is Corrupt,
        frame[4] != BLOB_FORMAT_VERSION && !is_erased(frame) ==> frame_verdict(frame) is Corrupt,
{
}

/// The CRC register after one clock without input: it doubles, and what leaves at the top is
/// folded back with the polynomial x^12 + x^5 + 1.
pub open spec fn clocked(register: u16) -> u16 {
    if register >= 0x8000 {
        ((2 * register - 0x1_0000) as u16) ^ 0x1021
    } else {
        (2 * register) as u16
    }
}

proof fn lemma_clocked(register: u16)
    ensures
        clocked(register) == crc_shift(register),
{
    assert(register >= 0x8000u16 ==> register & 0x8000u16 != 0 && register << 1u16 == 2 * register
        - 0x1_0000) by (bit_vector);
    assert(register < 0x8000u16 ==> register & 0x8000u16 == 0 && register << 1u16 == 2 * register)
        by (bit_vector);
}

proof fn lemma_shifts_tell_apart(a: u16, b: u16, n: nat)
    requires
        a != b,
    ensures
        crc_shifts(a, n) != crc_shifts(b, n),
    decreases n,
{
    if n > 0 {
        lemma_shifts_tell_apart(a, b, (n - 1) as nat);
        let x = crc_shifts(a, (n - 1) as nat);
        let y = crc_shifts(b, (n - 1) as nat);
        assert((if x & 0x8000u16 != 0 {
            (x << 1u16) ^ 0x1021u16
        } else {
            x << 1u16
        }) == (if y & 0x8000u16 != 0 {
            (y << 1u16) ^ 0x1021u16
        } else {
            y << 1u16
        }) ==> x == y) by (bit_vector);
    }
}

/// The CRC starts at 0xFFFF, and every further byte, at whatever length, enters at the top of the
/// register and clocks it eight times.
pub proof fn law_every_byte_enters_the_crc(data: Seq<u8>, b: u8)
    ensures
        crc16(Seq::empty()) == 0xFFFF,
        crc16(data.push(b)) == clocked(
            clocked(
                clocked(
                    clocked(clocked(clocked(clocked(clocked(crc16(data) ^ (b as u16 * 256) as u16))))),
                ),
            ),
        ),
{
    assert(data.push(b).drop_last() =~= data);
    assert((b as u16) << 8u16 == b as u16 * 256) by (bit_vector);
    reveal_with_fuel(crc_shifts, 9);
    let r0 = crc16(data) ^ (b as u16 * 256) as u16;
    let r1 = crc_shift(r0);
    let r2 = crc_shift(r1);
    let r3 = crc_shift(r2);
    let r4 = crc_shift(r3);
    let r5 = crc_shift(r4);
    let r6 = crc_shift(r5);
    let r7 = crc_shift(r6);
    lemma_clocked(r0);
    lemma_clocked(r1);
    lemma_clocked(r2);
    lemma_clocked(r3);
    lemma_clocked(r4);
    lemma_clocked(r5);
    lemma_clocked(r6);
    lemma_clocked(r7);
    assert(crc_shifts(r0, 8) == crc_shift(r7));
}

/// Data of one length that differ in exactly one byte, wherever it stands, have different CRCs.
pub proof fn law_one_damaged_byte_changes_the_crc(data: Seq<u8>, i: int, b: u8)
    requires
        0 <= i < data.len(),
        data[i] != b,
    ensures
        crc16(data.update(i, b)) != crc16(data),
    decreases data.len(),
{
    let other = data.update(i, b);
    let x = data.last();
    let y = other.last();
    let c = crc16(data.drop_last());
    let d = crc16(other.drop_last());
    if i == data.len() - 1 {
        assert(other.drop_last() =~= data.drop_last());
        assert(x != y ==> c ^ ((x as u16) << 8u16) != c ^ ((y as u16) << 8u16)) by (bit_vector);
    } else {
        law_one_damaged_byte_changes_the_crc(data.drop_last(), i, b);
        assert(other.drop_last() =~= data.drop_last().update(i, b));
        assert(c != d ==> c ^ ((x as u16) << 8u16) != d ^ ((x as u16) << 8u16)) by (bit_vector);
    }
    lemma_shifts_tell_apart(c ^ ((x as u16) << 8), d ^ ((y as u16) << 8), 8);
}

/// A frame is "RBND", version 1, flags 0, the payload length, the payload and its CRC, numbers
/// with the low byte first.
pub proof fn law_a_frame_is_laid_out_like_this(payload: Seq<u8>)
    requires
        payload.len() <= 3830,
    ensures
        ({
            let frame = blob_frame(payload);
            let n = payload.len() as int;
            &&& frame.len() == n + 10
            &&& frame[0] == 0x52 && frame[1] == 0x42 && frame[2] == 0x4E && frame[3] == 0x44
            &&& frame[4] == 1 && frame[5] == 0
            &&& frame[6] + 256 * frame[7] == n
            &&& frame.subrange(8, 8 + n) == payload
            &&& frame[8 + n] + 256 * frame[9 + n] == crc16(payload)
        }),
{
    law_a_built_frame_is_valid(payload);
    let frame = blob_frame(payload);
    let len = payload.len() as u16;
    let n = payload.len() as int;
    assert(BLOB_MAGIC@.len() == 4 && BLOB_MAGIC@[0] == 0x52 && BLOB_MAGIC@[1] == 0x42
        && BLOB_MAGIC@[2] == 0x4E && BLOB_MAGIC@[3] == 0x44);
    assert(frame[6] == (len % 256) as u8 && frame[7] == (len / 256) as u8);
    assert(frame.subrange(8, 8 + n) =~= payload);
    let crc = crc16(payload);
    assert(frame[8 + n] == (crc % 256) as u8);
    assert(frame[9 + n] == (crc / 256) as u8);
}

/// A frame in which one byte of the payload, or of the CRC, was damaged is found to be corrupt.
pub proof fn law_one_damaged_byte_is_noticed(payload: Seq<u8>, k: int, b: u8)
    requires
        payload.len() <= 3830,
        8 <= k < payload.len() + 10,
        blob_frame(payload)[k] != b,
    ensures
        frame_verdict(blob_frame(payload).update(k, b)) is Corrupt,
{
    law_a_frame_is_laid_out_like_this(payload);
    let frame = blob_frame(payload);
    let damaged = frame.update(k, b);
    let n = payload.len() as int;
    assert(announced_len(damaged) == n);
    if k < 8 + n {
        assert(damaged.subrange(8, 8 + n) =~= payload.update(k - 8, b));
        assert(payload[k - 8] == frame.subrange(8, 8 + n)[k - 8]);
        law_one_damaged_byte_changes_the_crc(payload, k - 8, b);
    } else {
        assert(damaged.subrange(8, 8 + n) =~= payload);
    }
}

/// Whatever is read as valid is what the bytes say: the magic and version stand in front, the
/// payload is the announced number of bytes behind the header, and the CRC behind it is the
/// payload's own.
pub proof fn law_a_valid_frame_proves_its_payload(frame: Seq<u8>)
    ensures
        frame_verdict(frame) matches ReadView::Valid { version, flags, payload } ==> {
            let n = frame[6] + 256 * frame[7];
            &&& frame.len() >= n + 10
            &&& n <= 3830
            &&& frame[0] == 0x52 && frame[1] == 0x42 && frame[2] == 0x4E && frame[3] == 0x44
            &&& frame[4] == 1 && version == 1 && flags == frame[5]
            &&& payload == frame.subrange(8, 8 + n)
            &&& frame[8 + n] + 256 * frame[9 + n] == crc16(payload)
        },
        frame.len() < 8 ==> frame_verdict(frame) is Corrupt,
{
    assert(BLOB_MAGIC@.len() == 4 && BLOB_MAGIC@[0] == 0x52 && BLOB_MAGIC@[1] == 0x42
        && BLOB_MAGIC@[2] == 0x4E && BLOB_MAGIC@[3] == 0x44);
}

// ---------------------------------------------------------------- chunks

/// Number of chunks of a frame of `len` bytes.
pub open spec fn chunk_count(len: int) -> int {
    (len + 55) / 56
}

/// End of chunk `i` in a frame of `len` bytes.
pub open spec fn chunk_end(len: int, i: int) -> int {
    if 56 * i + 56 < len {
        56 * i + 56
    } else {
        len
    }
}

/// Chunk `i` of a frame.
pub open spec fn chunk_at(frame: Seq<u8>, i: int) -> Seq<u8> {
    frame.subrange(56 * i, chunk_end(frame.len() as int, i))
}

/// Cuts a frame into chunks of 56 bytes with their offsets; the last may be shorter.
pub fn split_blob_chunks<'a>(frame: &'a [u8]) -> (r: Vec<(u16, &'a [u8])>)
    ensures
        r@.len() == chunk_count(frame@.len() as int),
        forall|i: int|
            0 <= i < r@.len() ==> (#[trigger] r@[i]).0 == (56 * i) as u16 && r@[i].1@ == chunk_at(
                frame@,
                i,
            ),
{
    let mut out: Vec<(u16, &'a [u8])> = Vec::new();
    let mut start: usize = 0;
    while start < frame.len()
        invariant
            out@.len() <= chunk_count(frame@.len() as int),
            start == (if 56 * out@.len() < frame@.len() { 56 * out@.len() as int } else { frame@.len() as int }),
            start >= frame@.len() ==> out@.len() == chunk_count(frame@.len() as int),
            forall|i: int|
                0 <= i < out@.len() ==> (#[trigger] out@[i]).0 == (56 * i) as u16 && out@[i].1@
                    == chunk_at(frame@, i),
        decreases frame@.len() - start,
    {
        let left: usize = frame.len() - start;
        let end: usize = if left > BLOB_CHUNK_SIZE { start + BLOB_CHUNK_SIZE } else { frame.len() };
        #[verifier::truncate]
        let offset: u16 = start as u16;
        out.push((offset, &frame[start..end]));
        start = end;
    }
    out
}

/// The chunks cover the frame without gap or overlap: every byte of the frame is the byte at its
/// place in its chunk, and every chunk but the last is full.
pub proof fn law_chunks_cover_the_frame(frame: Seq<u8>, k: int)
    requires
        0 <= k < frame.len(),
    ensures
        0 <= k / 56 < chunk_count(frame.len() as int),
        k % 56 < chunk_at(frame, k / 56).len() <= 56,
        chunk_at(frame, k / 56)[k % 56] == frame[k],
        k / 56 + 1 < chunk_count(frame.len() as int) ==> chunk_at(frame, k / 56).len() == 56,
{
}

/// Puts chunks back together, in any order and with repeats.
pub struct BlobReassembler {
    total: Option<u16>,
    buf: Vec<u8>,
    marks: [bool; 96],
}

/// Mathematical form of the reassembler: the frame length once it is known, the bytes, and which
/// chunks have come.
pub struct ReassemblerView {
    pub total: Option<u16>,
    pub buf: Seq<u8>,
    pub marks: Seq<bool>,
}

impl ReassemblerView {
    pub open spec fn inv(&self) -> bool {
        &&& self.marks.len() == 96
        &&& match self.total {
            None => self.buf.len() == 0,
            Some(t) => t <= BLOB_MAX_FRAME && self.buf.len() == t,
        }
    }

    /// Every chunk has come.
    pub open spec fn complete(&self) -> bool {
        &&& self.total is Some
        &&& forall|i: int|
            0 <= i < chunk_count(self.total.unwrap() as int) ==> #[trigger] self.marks[i]
    }
}

/// A reassembler that has seen no chunk.
pub open spec fn fresh_reassembler() -> ReassemblerView {
    ReassemblerView { total: None, buf: Seq::empty(), marks: Seq::new(96, |i: int| false) }
}

/// `buf` with `chunk` written at `offset`.
pub open spec fn overwritten(buf: Seq<u8>, offset: int, chunk: Seq<u8>) -> Seq<u8> {
    Seq::new(
        buf.len(),
        |k: int| if offset <= k < offset + chunk.len() { chunk[k - offset] } else { buf[k] },
    )
}

/// Reassembler and outcome after a chunk was offered. The frame length is settled by the first
/// acceptable length, even when the chunk itself then runs over the end.
pub open spec fn offered(r: ReassemblerView, offset: u16, total_len: u16, chunk: Seq<u8>) -> (
    ReassemblerView,
    Result<(), Seq<char>>,
) {
    if offset % 56 != 0 {
        (r, Err("非对齐 offset: "@ + text::dec_text(offset as nat) + ""@))
    } else if chunk.len() > BLOB_CHUNK_SIZE {
        (r, Err("单片超长: "@ + text::dec_text(chunk.len()) + ""@))
    } else if total_len > BLOB_MAX_FRAME {
        (r, Err("total_len 越界: "@ + text::dec_text(total_len as nat) + ""@))
    } else if r.total is Some && r.total != Some(total_len) {
        (
            r,
            Err(
                "total_len 前后不一致: "@ + text::dec_text(r.total.unwrap() as nat) + " vs "@
                    + text::dec_text(total_len as nat),
            ),
        )
    } else {
        let buf = if r.total is None {
            Seq::new(total_len as nat, |k: int| 0u8)
        } else {
            r.buf
        };
        let end = offset + chunk.len();
        if end > total_len {
            (
                ReassemblerView { total: Some(total_len), buf, marks: r.marks },
                Err(
                    "分片越界: "@ + text::dec_text(end as nat) + " > "@ + text::dec_text(
                        total_len as nat,
                    ),
                ),
            )
        } else {
            (
                ReassemblerView {
                    total: Some(total_len),
                    buf: overwritten(buf, offset as int, chunk),
                    marks: r.marks.update(offset as int / 56, true),
                },
                Ok(()),
            )
        }
    }
}

impl View for BlobReassembler {
    type V = ReassemblerView;

    closed spec fn view(&self) -> ReassemblerView {
        ReassemblerView { total: self.total, buf: self.buf@, marks: self.marks@ }
    }
}

impl Default for BlobReassembler {
    fn default() -> (r: Self)
        ensures
            r@.inv(),
            r@ == fresh_reassembler(),
    {
        BlobReassembler::new()
    }
}

impl BlobReassembler {
    /// No chunk yet.
    pub fn new() -> (r: Self)
        ensures
            r@.inv(),
            r@ == fresh_reassembler(),
    {
        let r = BlobReassembler { total: None, buf: Vec::new(), marks: [false; 96] };
        assert(r@.marks =~= Seq::new(96, |i: int| false));
        r
    }

    /// Takes in one chunk. Its offset must be a multiple of 56 and it must fit.
    pub fn offer(&mut self, offset: u16, total_len: u16, chunk: &[u8]) -> (r: Result<(), String>)
        requires
            old(self)@.inv(),
        ensures
            final(self)@.inv(),
            final(self)@ == offered(old(self)@, offset, total_len, chunk@).0,
            error::text_outcome(r, offered(old(self)@, offset, total_len, chunk@).1),
    {
        let ghost before = self@;
        if offset as usize % BLOB_CHUNK_SIZE != 0 {
            return Err(text::text_dec("非对齐 offset: ", offset as u64, ""));
        }
        if chunk.len() > BLOB_CHUNK_SIZE {
            return Err(text::text_dec("单片超长: ", chunk.len() as u64, ""));
        }
        if total_len as usize > BLOB_MAX_FRAME {
            return Err(text::text_dec("total_len 越界: ", total_len as u64, ""));
        }
        match self.total {
            Some(known) => {
                if known != total_len {
                    return Err(
                        text::text_dec2(
                            "total_len 前后不一致: ",
                            known as u64,
                            " vs ",
                            total_len as u64,
                        ),
                    );
                }
            },
            None => {
                self.total = Some(total_len);
                self.buf = zeros(total_len as usize);
                assert(self.buf@ =~= Seq::new(total_len as nat, |k: int| 0u8));
            },
        }
        let ghost ready = self@;
        let start: usize = offset as usize;
        let end: usize = start + chunk.len();
        if end > total_len as usize {
            return Err(text::text_dec2("分片越界: ", end as u64, " > ", total_len as u64));
        }
        let mut i: usize = 0;
        while i < chunk.len()
            invariant
                i <= chunk@.len(),
                start == offset,
                start + chunk@.len() <= total_len,
                ready.buf.len() == total_len,
                self.total == ready.total,
                self.marks@ == ready.marks,
                self.buf@.len() == total_len,
                forall|k: int|
                    0 <= k < total_len ==> #[trigger] self.buf@[k] == (if start <= k < start + i {
                        chunk@[k - start]
                    } else {
                        ready.buf[k]
                    }),
            decreases chunk@.len() - i,
        {
            self.buf.set(start + i, chunk[i]);
            i = i + 1;
        }
        assert(self.buf@ =~= overwritten(ready.buf, offset as int, chunk@));
        let idx: usize = start / BLOB_CHUNK_SIZE;
        self.marks[idx] = true;
        Ok(())
    }

    /// Tells whether every chunk has come.
    pub fn is_complete(&self) -> (r: bool)
        requires
            self@.inv(),
        ensures
            r == self@.complete(),
    {
        let total: usize = match self.total {
            Some(t) => t as usize,
            None => {
                return false;
            },
        };
        let count: usize = (total + 55) / BLOB_CHUNK_SIZE;
        let mut i: usize = 0;
        while i < count
            invariant
                i <= count == chunk_count(total as int),
                count <= 69,
                self@.inv(),
                self@.total == Some(total as u16),
                total <= 3840,
                forall|k: int| 0 <= k < i ==> #[trigger] self@.marks[k],
            decreases count - i,
        {
            if !self.marks[i] {
                assert(!self@.marks[i as int]);
                return false;
            }
            i = i + 1;
        }
        true
    }

    /// The frame, once every chunk has come.
    pub fn frame_bytes(&self) -> (r: Option<&[u8]>)
        requires
            self@.inv(),
        ensures
            match r {
                Some(b) => self@.complete() && b@ == self@.buf,
                None => !self@.complete(),
            },
    {
        if self.is_complete() {
            Some(self.buf.as_slice())
        } else {
            None
        }
    }
}

fn zeros(n: usize) -> (r: Vec<u8>)
    ensures
        r@ == Seq::new(n as nat, |k: int| 0u8),
{
    let mut out: Vec<u8> = Vec::with_capacity(n);
    let mut i: usize = 0;
    while i < n
        invariant
            i <= n,
            out@ == Seq::new(i as nat, |k: int| 0u8),
        decreases n - i,
    {
        out.push(0);
        assert(out@ =~= Seq::new((i + 1) as nat, |k: int| 0u8));
        i = i + 1;
    }
    out
}

// ---------------------------------------------------------------- reassembly laws

/// Everything in the reassembler agrees with `frame`.
pub open spec fn agrees(r: ReassemblerView, frame: Seq<u8>) -> bool {
    &&& r.inv()
    &&& r.total is None ==> r == fresh_reassembler()
    &&& r.total is Some ==> r.total == Some(frame.len() as u16)
    &&& forall|i: int, k: int|
        0 <= i < 96 && #[trigger] r.marks[i] && 56 * i <= k < 56 * i + 56 && k < frame.len()
            ==> #[trigger] r.buf[k] == frame[k]
}

proof fn lemma_offer_true_chunk(r: ReassemblerView, frame: Seq<u8>, i: int)
    requires
        frame.len() <= BLOB_MAX_FRAME,
        agrees(r, frame),
        0 <= i < chunk_count(frame.len() as int),
    ensures
        ({
            let (next, out) = offered(r, (56 * i) as u16, frame.len() as u16, chunk_at(frame, i));
            out == Ok::<(), Seq<char>>(()) && agrees(next, frame) && next.total is Some
                && next.marks == r.marks.update(i, true)
        }),
{
    let chunk = chunk_at(frame, i);
    let offset = (56 * i) as u16;
    let (next, out) = offered(r, offset, frame.len() as u16, chunk);
    assert(offset as int / 56 == i);
    assert forall|j: int, k: int|
        0 <= j < 96 && #[trigger] next.marks[j] && 56 * j <= k < 56 * j + 56 && k
            < frame.len() implies #[trigger] next.buf[k] == frame[k] by {
        if j == i {
            assert(chunk[k - 56 * i] == frame[k]);
        } else {
            assert(r.marks[j]);
            assert(r.buf[k] == frame[k]);
        }
    }
}

/// The reassembler after the chunks of `frame` named in `order` were offered one by one.
pub open spec fn offered_in_order(frame: Seq<u8>, order: Seq<int>) -> ReassemblerView
    decreases order.len(),
{
    if order.len() == 0 {
        fresh_reassembler()
    } else {
        offered(
            offered_in_order(frame, order.drop_last()),
            (56 * order.last()) as u16,
            frame.len() as u16,
            chunk_at(frame, order.last()),
        ).0
    }
}

proof fn lemma_offered_in_order(frame: Seq<u8>, order: Seq<int>)
    requires
        0 < frame.len() <= BLOB_MAX_FRAME,
        forall|j: int| 0 <= j < order.len() ==> 0 <= #[trigger] order[j] < chunk_count(
            frame.len() as int,
        ),
    ensures
        agrees(offered_in_order(frame, order), frame),
        order.len() > 0 ==> offered_in_order(frame, order).total is Some,
        forall|i: int|
            0 <= i < 96 ==> (#[trigger] offered_in_order(frame, order).marks[i] <==> order.contains(i)),
    decreases order.len(),
{
    let r = offered_in_order(frame, order);
    if order.len() == 0 {
        assert(r.marks.len() == 96);
    } else {
        let prior = order.drop_last();
        lemma_offered_in_order(frame, prior);
        let last = order.last();
        lemma_offer_true_chunk(offered_in_order(frame, prior), frame, last);
        assert forall|i: int| 0 <= i < 96 implies (#[trigger] r.marks[i] <==> order.contains(i)) by {
            if order.contains(i) {
                let j = choose|j: int| 0 <= j < order.len() && order[j] == i;
                if j < prior.len() {
                    assert(prior[j] == i);
                    assert(prior.contains(i));
                }
            }
            if prior.contains(i) {
                let j = choose|j: int| 0 <= j < prior.len() && prior[j] == i;
                assert(order[j] == i);
            }
            if i == last {
                assert(order[order.len() - 1] == i);
            }
        }
    }
}

proof fn lemma_complete_means_equal(r: ReassemblerView, frame: Seq<u8>)
    requires
        frame.len() <= BLOB_MAX_FRAME,
        agrees(r, frame),
        r.complete(),
    ensures
        r.buf == frame,
{
    assert forall|k: int| 0 <= k < frame.len() implies r.buf[k] == frame[k] by {
        assert(r.marks[k / 56]);
    }
    assert(r.buf =~= frame);
}

/// Chunks may come in any order and more than once: as soon as each has come, and not before,
/// the frame is complete, and it is the frame that was cut up.
pub proof fn law_reassembly_ignores_order_and_repeats(frame: Seq<u8>, order: Seq<int>)
    requires
        0 < frame.len() <= BLOB_MAX_FRAME,
        forall|j: int| 0 <= j < order.len() ==> 0 <= #[trigger] order[j] < chunk_count(
            frame.len() as int,
        ),
    ensures
        offered_in_order(frame, order).complete() <==> forall|i: int|
            0 <= i < chunk_count(frame.len() as int) ==> #[trigger] order.contains(i),
        offered_in_order(frame, order).complete() ==> offered_in_order(frame, order).buf == frame,
{
    lemma_offered_in_order(frame, order);
    let r = offered_in_order(frame, order);
    let count = chunk_count(frame.len() as int);
    if r.complete() {
        lemma_complete_means_equal(r, frame);
        assert forall|i: int| 0 <= i < count implies #[trigger] order.contains(i) by {
            assert(r.marks[i]);
        }
    }
    if forall|i: int| 0 <= i < count ==> #[trigger] order.contains(i) {
        assert(order.contains(0));
        assert(order.len() > 0);
        assert forall|i: int| 0 <= i < count implies #[trigger] r.marks[i] by {
            assert(order.contains(i));
        }
    }
}

// ---------------------------------------------------------------- replies

/// Offset, frame length and chunk in the reply `[0x69, len, result, offset u16, total u16,
/// chunk...]`.
pub open spec fn blob_read_reply(body: Seq<u8>) -> Option<(u16, u16, Seq<u8>)> {
    if body.len() >= 7 && body[0] == CMD_AI_READ_BINDINGS_BLOB && body[1] >= 5 && body[2] == 0
        && body.len() >= 7 + (body[1] - 5) {
        Some(
            (
                bytes::le16(body[3], body[4]),
                bytes::le16(body[5], body[6]),
                body.subrange(7, 7 + (body[1] - 5)),
            ),
        )
    } else {
        None
    }
}

/// Chunk in a HID reply.
pub fn parse_blob_read_hid_response(response: &[u8]) -> (r: Option<(u16, u16, &[u8])>)
    ensures
        match r {
            Some(p) => blob_read_reply(bytes::without_report_id(response@)) == Some((p.0, p.1, p.2@)),
            None => blob_read_reply(bytes::without_report_id(response@)) is None,
        },
{
    if response.len() < 8 || response[1] != CMD_AI_READ_BINDINGS_BLOB || response[2] < 5
        || response[3] != 0 {
        return None;
    }
    let chunk_len: usize = (response[2] - 5) as usize;
    if response.len() < 8 + chunk_len {
        return None;
    }
    let offset: u16 = u16_from_le(response[4], response[5]);
    let total: u16 = u16_from_le(response[6], response[7]);
    assert(response@.subrange(8, 8 + chunk_len) =~= bytes::without_report_id(response@).subrange(
        7,
        7 + chunk_len,
    ));
    Some((offset, total, &response[8..8 + chunk_len]))
}

/// Chunk in a GATT reply.
pub fn parse_blob_read_gatt_response(response: &[u8]) -> (r: Option<(u16, u16, &[u8])>)
    ensures
        match r {
            Some(p) => blob_read_reply(response@) == Some((p.0, p.1, p.2@)),
            None => blob_read_reply(response@) is None,
        },
{
    if response.len() < 7 || response[0] != CMD_AI_READ_BINDINGS_BLOB || response[1] < 5
        || response[2] != 0 {
        return None;
    }
    let chunk_len: usize = (response[1] - 5) as usize;
    if response.len() < 7 + chunk_len {
        return None;
    }
    let offset: u16 = u16_from_le(response[3], response[4]);
    let total: u16 = u16_from_le(response[5], response[6]);
    Some((offset, total, &response[7..7 + chunk_len]))
}

/// Answer to a written chunk or to a commit.
#[derive(Debug, Clone, Copy, PartialEq, Eq, Structural)]
pub struct BlobWriteAck {
    /// 0 for success.
    pub result: u8,
    /// The offset that is answered.
    pub offset: u16,
    /// Why a commit failed.
    pub detail: u8,
}

impl BlobWriteAck {
    /// Tells whether the board accepted.
    pub fn is_ok(&self) -> (r: bool)
        ensures
            r == (self.result == 0),
    {
        self.result == 0
    }
}

/// Answer in the reply `[0x6A, len, result, offset u16, detail?]`; a missing detail is 0.
pub open spec fn blob_write_reply(body: Seq<u8>) -> Option<BlobWriteAck> {
    if body.len() >= 5 && body[0] == CMD_AI_WRITE_BINDINGS_BLOB && body[1] >= 3 {
        Some(
            BlobWriteAck {
                result: body[2],
                offset: bytes::le16(body[3], body[4]),
                detail: if body.len() > 5 {
                    body[5]
                } else {
                    0
                },
            },
        )
    } else {
        None
    }
}

/// Answer to a write in a HID reply.
pub fn parse_blob_write_ack_hid_response(response: &[u8]) -> (r: Option<BlobWriteAck>)
    ensures
        r == blob_write_reply(bytes::without_report_id(response@)),
{
    if response.len() < 6 || response[1] != CMD_AI_WRITE_BINDINGS_BLOB || response[2] < 3 {
        return None;
    }
    Some(
        BlobWriteAck {
            result: response[3],
            offset: u16_from_le(response[4], response[5]),
            detail: if response.len() > 6 {
                response[6]
            } else {
                0
            },
        },
    )
}

/// Answer to a write in a GATT reply.
pub fn parse_blob_write_ack_gatt_response(response: &[u8]) -> (r: Option<BlobWriteAck>)
    ensures
        r == blob_write_reply(response@),
{
    if response.len() < 5 || response[0] != CMD_AI_WRITE_BINDINGS_BLOB || response[1] < 3 {
        return None;
    }
    Some(
        BlobWriteAck {
            result: response[2],
            offset: u16_from_le(response[3], response[4]),
            detail: if response.len() > 5 {
                response[5]
            } else {
                0
            },
        },
    )
}

// ---------------------------------------------------------------- read session

/// What came back for a chunk request: an error of the link, nothing in time, or a chunk with its
/// offset and the frame length.
pub type ChunkReply = Result<Option<(u16, u16, Vec<u8>)>, String>;

/// What came back for a write or a commit.
pub type AckReply = Result<Option<BlobWriteAck>, String>;

/// Mathematical form of a chunk reply.
pub open spec fn chunk_reply(reply: ChunkReply) -> Result<Option<(u16, u16, Seq<u8>)>, Seq<char>> {
    match reply {
        Ok(Some(p)) => Ok(Some((p.0, p.1, p.2@))),
        Ok(None) => Ok(None),
        Err(e) => Err(e@),
    }
}

/// Mathematical form of an acknowledgement reply.
pub open spec fn ack_reply(reply: AckReply) -> Result<Option<BlobWriteAck>, Seq<char>> {
    match reply {
        Ok(a) => Ok(a),
        Err(e) => Err(e@),
    }
}

/// A read session: asks for the chunk at `next_offset` until the frame is complete.
pub struct BlobReader {
    reassembler: BlobReassembler,
    expected_total: Option<u16>,
    next_offset: u16,
}

/// Mathematical form of a read session.
pub struct ReaderView {
    pub reassembler: ReassemblerView,
    pub expected_total: Option<u16>,
    pub next_offset: u16,
}

impl View for BlobReader {
    type V = ReaderView;

    closed spec fn view(&self) -> ReaderView {
        ReaderView {
            reassembler: self.reassembler@,
            expected_total: self.expected_total,
            next_offset: self.next_offset,
        }
    }
}

impl ReaderView {
    pub open spec fn inv(&self) -> bool {
        &&& self.reassembler.inv()
        &&& self.next_offset <= BLOB_MAX_FRAME
        &&& self.expected_total matches Some(t) ==> t <= BLOB_MAX_FRAME
    }
}

/// The start of a read session.
pub open spec fn read_start() -> ReaderView {
    ReaderView { reassembler: fresh_reassembler(), expected_total: None, next_offset: 0 }
}

/// Outcome of a read session, once it is over.
pub type ReadOutcome = Option<Result<ReadView, Seq<char>>>;

/// Takes in a chunk whose offset and, at the start, header have been looked at.
pub open spec fn read_take(s: ReaderView, offset: u16, total: u16, chunk: Seq<u8>) -> (
    ReaderView,
    ReadOutcome,
) {
    let (reassembler, outcome) = offered(
        s.reassembler,
        offset,
        match s.expected_total {
            Some(t) => t,
            None => total,
        },
        chunk,
    );
    let held = ReaderView { reassembler, expected_total: s.expected_total, next_offset: s.next_offset };
    match outcome {
        Err(t) => (held, Some(Err(t))),
        Ok(_) => if reassembler.complete() {
            (held, Some(Ok(frame_verdict(reassembler.buf))))
        } else if chunk.len() == 0 {
            (
                held,
                Some(Err("固件回零长片 @offset "@ + text::dec_text(offset as nat) + "，读流程中止"@)),
            )
        } else {
            (
                ReaderView {
                    reassembler,
                    expected_total: s.expected_total,
                    next_offset: (offset + chunk.len()) as u16,
                },
                None,
            )
        },
    }
}

/// Session and outcome after a reply. No answer means that the firmware does not know the
/// command. The header in the first chunk settles the frame length, whatever the reply says of
/// it; erased flash and an impossible length end the session at once; and a chunk without bytes
/// ends it too, since it would never make progress.
pub open spec fn read_step(
    s: ReaderView,
    reply: Result<Option<(u16, u16, Seq<u8>)>, Seq<char>>,
) -> (ReaderView, ReadOutcome) {
    match reply {
        Err(t) => (s, Some(Err(t))),
        Ok(None) => (s, Some(Ok(ReadView::Unsupported))),
        Ok(Some((offset, total, chunk))) => if offset != s.next_offset {
            (
                s,
                Some(
                    Err(
                        "读应答 offset 错位: 期望 "@ + text::dec_text(s.next_offset as nat) + " 实收 "@
                            + text::dec_text(offset as nat),
                    ),
                ),
            )
        } else if s.next_offset != 0 {
            read_take(s, offset, total, chunk)
        } else if chunk.len() < BLOB_HEADER_LEN {
            (s, Some(Err("首片不足帧头: "@ + text::dec_text(chunk.len()) + " 字节"@)))
        } else if is_erased(chunk) {
            (s, Some(Ok(ReadView::NeverWritten)))
        } else if announced_len(chunk) > BLOB_MAX_PAYLOAD {
            (
                s,
                Some(
                    Ok(
                        ReadView::Corrupt(
                            "payload_len 越界: "@ + text::dec_text(announced_len(chunk) as nat) + ""@,
                        ),
                    ),
                ),
            )
        } else {
            read_take(
                ReaderView {
                    reassembler: s.reassembler,
                    expected_total: Some((announced_len(chunk) + 10) as u16),
                    next_offset: s.next_offset,
                },
                offset,
                total,
                chunk,
            )
        },
    }
}

/// `r` is the outcome `want` of a session.
pub open spec fn read_outcome(r: Option<Result<BlobRead, String>>, want: ReadOutcome) -> bool {
    match want {
        None => r is None,
        Some(Ok(v)) => r matches Some(Ok(b)) && b@ == v,
        Some(Err(t)) => r matches Some(Err(e)) && e@ == t,
    }
}

impl BlobReader {
    /// Starts a read session.
    pub fn new() -> (r: Self)
        ensures
            r@.inv(),
            r@ == read_start(),
    {
        BlobReader { reassembler: BlobReassembler::new(), expected_total: None, next_offset: 0 }
    }

    /// Offset of the chunk to ask for.
    pub fn next_offset(&self) -> (r: u16)
        ensures
            r == self@.next_offset,
    {
        self.next_offset
    }

    /// Takes in the reply to the chunk request. `None` means: ask for the chunk at the next
    /// offset, which has moved forward; otherwise the session is over.
    pub fn on_reply(&mut self, reply: ChunkReply) -> (r: Option<Result<BlobRead, String>>)
        requires
            old(self)@.inv(),
        ensures
            final(self)@.inv(),
            final(self)@ == read_step(old(self)@, chunk_reply(reply)).0,
            read_outcome(r, read_step(old(self)@, chunk_reply(reply)).1),
            r is None ==> final(self)@.next_offset > old(self)@.next_offset,
    {
        let (offset, total, chunk): (u16, u16, Vec<u8>) = match reply {
            Err(e) => {
                return Some(Err(e));
            },
            Ok(None) => {
                return Some(Ok(BlobRead::Unsupported));
            },
            Ok(Some(p)) => p,
        };
        if offset != self.next_offset {
            return Some(
                Err(
                    text::text_dec2(
                        "读应答 offset 错位: 期望 ",
                        self.next_offset as u64,
                        " 实收 ",
                        offset as u64,
                    ),
                ),
            );
        }
        if self.next_offset == 0 {
            match peek_blob_header(chunk.as_slice()) {
                None => {
                    return Some(Err(text::text_dec("首片不足帧头: ", chunk.len() as u64, " 字节")));
                },
                Some((erased, payload_len)) => {
                    if erased {
                        return Some(Ok(BlobRead::NeverWritten));
                    }
                    if payload_len as usize > BLOB_MAX_PAYLOAD {
                        return Some(
                            Ok(
                                BlobRead::Corrupt(
                                    text::text_dec("payload_len 越界: ", payload_len as u64, ""),
                                ),
                            ),
                        );
                    }
                    self.expected_total = Some(payload_len + 10);
                },
            }
        }
        let frame_total: u16 = match self.expected_total {
            Some(t) => t,
            None => total,
        };
        match self.reassembler.offer(offset, frame_total, chunk.as_slice()) {
            Err(e) => {
                return Some(Err(e));
            },
            Ok(_) => {},
        }
        match self.reassembler.frame_bytes() {
            Some(frame) => {
                return match inspect_blob_frame(frame) {
                    FrameVerdict::NeverWritten => Some(Ok(BlobRead::NeverWritten)),
                    FrameVerdict::Corrupt(detail) => Some(Ok(BlobRead::Corrupt(detail))),
                    FrameVerdict::Valid { version, flags, payload } => Some(
                        Ok(BlobRead::Valid { version, flags, payload }),
                    ),
                };
            },
            None => {},
        }
        if chunk.len() == 0 {
            return Some(
                Err(text::text_dec("固件回零长片 @offset ", offset as u64, "，读流程中止")),
            );
        }
        self.next_offset = offset + chunk.len() as u16;
        None
    }
}

/// A request that went over a link, with what came back.
pub enum LinkCall {
    Read { offset: u16, reply: Result<Option<(u16, u16, Seq<u8>)>, Seq<char>> },
    Write { offset: u16, chunk: Seq<u8>, reply: Result<Option<BlobWriteAck>, Seq<char>> },
    Commit { total_len: u16, crc16: u16, reply: Result<Option<BlobWriteAck>, Seq<char>> },
}

/// The link to the board. `Ok(None)` means that nothing came back in time.
pub trait BlobLink {
    /// Everything that went over the link so far. What comes back is up to the board; the history
    /// only records it. A verified implementor overrides this with such a record, kept in a
    /// `Ghost` field; the default serves implementors outside the verifier only.
    open spec fn history(&self) -> Seq<LinkCall> {
        arbitrary()
    }

    fn read_chunk(&mut self, offset: u16) -> (r: ChunkReply)
        ensures
            final(self).history() == old(self).history().push(
                LinkCall::Read { offset, reply: chunk_reply(r) },
            ),
    ;

    fn write_chunk(&mut self, offset: u16, chunk: &[u8]) -> (r: AckReply)
        ensures
            final(self).history() == old(self).history().push(
                LinkCall::Write { offset, chunk: chunk@, reply: ack_reply(r) },
            ),
    ;

    fn commit(&mut self, total_len: u16, crc16: u16) -> (r: AckReply)
        ensures
            final(self).history() == old(self).history().push(
                LinkCall::Commit { total_len, crc16, reply: ack_reply(r) },
            ),
    ;
}

/// How far a read session has come.
pub enum ReadPhase {
    /// The session asks for the next chunk.
    Asking(ReaderView),
    /// The session is over.
    Over(Result<ReadView, Seq<char>>),
    /// A read session does not make these calls.
    Astray,
}

/// The phase after one more call: only the chunk that is due may be asked for, and only while the
/// session goes on.
pub open spec fn read_phase_step(p: ReadPhase, call: LinkCall) -> ReadPhase {
    match (p, call) {
        (ReadPhase::Asking(s), LinkCall::Read { offset, reply }) => if offset == s.next_offset {
            match read_step(s, reply) {
                (next, None) => ReadPhase::Asking(next),
                (_, Some(result)) => ReadPhase::Over(result),
            }
        } else {
            ReadPhase::Astray
        },
        _ => ReadPhase::Astray,
    }
}

/// The phase of a read session that has made these calls.
pub open spec fn read_phase(calls: Seq<LinkCall>) -> ReadPhase
    decreases calls.len(),
{
    if calls.len() == 0 {
        ReadPhase::Asking(read_start())
    } else {
        read_phase_step(read_phase(calls.drop_last()), calls.last())
    }
}

/// The calls that a link has made since it had made `before`.
pub open spec fn calls_since(before: Seq<LinkCall>, now: Seq<LinkCall>) -> Seq<LinkCall> {
    now.skip(before.len() as int)
}

/// Reads the blob over a link: asks chunk by chunk, from offset 0, until the session is over.
pub fn read_blob<L: BlobLink>(link: &mut L) -> (r: Result<BlobRead, String>)
    ensures
        old(link).history().is_prefix_of(final(link).history()),
        read_phase(calls_since(old(link).history(), final(link).history())) == ReadPhase::Over(
            read_result(r),
        ),
        r matches Ok(b) ==> is_read_result(b@),
{
    let ghost start = link.history();
    let mut reader = BlobReader::new();
    assert(calls_since(start, link.history()) =~= Seq::empty());
    loop
        invariant
            reader@.inv(),
            start == old(link).history(),
            start.is_prefix_of(link.history()),
            read_phase(calls_since(start, link.history())) == ReadPhase::Asking(reader@),
        decreases 4000 - reader@.next_offset,
    {
        let ghost before = reader@;
        let ghost made = link.history();
        let reply: ChunkReply = link.read_chunk(reader.next_offset());
        let ghost model = chunk_reply(reply);
        proof {
            let calls = calls_since(start, link.history());
            assert(calls.drop_last() =~= calls_since(start, made));
            assert(calls.last() == LinkCall::Read { offset: before.next_offset, reply: model });
        }
        match reader.on_reply(reply) {
            Some(result) => {
                proof {
                    lemma_read_result(before, model);
                }
                return result;
            },
            None => {},
        }
    }
}

/// A result that some frame, or the absence of one, gives: never a payload without a valid frame
/// around it.
pub open spec fn is_read_result(v: ReadView) -> bool {
    v is Valid ==> exists|frame: Seq<u8>| #[trigger] frame_verdict(frame) == v
}

proof fn lemma_read_result(s: ReaderView, reply: Result<Option<(u16, u16, Seq<u8>)>, Seq<char>>)
    ensures
        read_step(s, reply).1 matches Some(Ok(v)) ==> is_read_result(v),
{
    if let Ok(Some((offset, total, chunk))) = reply {
        let first = ReaderView {
            reassembler: s.reassembler,
            expected_total: Some((announced_len(chunk) + 10) as u16),
            next_offset: s.next_offset,
        };
        lemma_take_result(s, offset, total, chunk);
        lemma_take_result(first, offset, total, chunk);
    }
}

proof fn lemma_take_result(s: ReaderView, offset: u16, total: u16, chunk: Seq<u8>)
    ensures
        read_take(s, offset, total, chunk).1 matches Some(Ok(v)) ==> is_read_result(v),
{
    let next = read_take(s, offset, total, chunk).0;
    assert(frame_verdict(next.reassembler.buf) == frame_verdict(next.reassembler.buf));
}

// ---------------------------------------------------------------- write session

/// Why a write failed.
#[derive(Debug, Clone, PartialEq, Eq)]
pub enum BlobWriteError {
    /// The payload is above the limit.
    TooLarge,
    /// The firmware does not answer the command.
    Unsupported,
    /// The firmware refused the commit, for a reason.
    CommitRejected(u8),
    /// What reads back is not what was written.
    VerifyMismatch,
    /// The link failed.
    Transport(String),
}

/// Mathematical form of `BlobWriteError`.
pub enum WriteErrorView {
    TooLarge,
    Unsupported,
    CommitRejected(u8),
    VerifyMismatch,
    Transport(Seq<char>),
}

impl View for BlobWriteError {
    type V = WriteErrorView;

    open spec fn view(&self) -> WriteErrorView {
        match *self {
            BlobWriteError::TooLarge => WriteErrorView::TooLarge,
            BlobWriteError::Unsupported => WriteErrorView::Unsupported,
            BlobWriteError::CommitRejected(d) => WriteErrorView::CommitRejected(d),
            BlobWriteError::VerifyMismatch => WriteErrorView::VerifyMismatch,
            BlobWriteError::Transport(t) => WriteErrorView::Transport(t@),
        }
    }
}

impl BlobWriteError {
    /// What `message` yields.
    pub open spec fn text(&self) -> Seq<char> {
        match *self {
            BlobWriteError::TooLarge => "blob payload 超过 3830 字节"@,
            BlobWriteError::Unsupported => "固件不支持绑定配置块（无回包）"@,
            BlobWriteError::CommitRejected(d) => "commit 被固件拒绝（detail="@ + text::dec_text(
                d as nat,
            ) + "）"@,
            BlobWriteError::VerifyMismatch => "写入后回读校验不一致"@,
            BlobWriteError::Transport(t) => "传输错误: "@ + t@,
        }
    }

    /// The text that is shown for the error.
    pub fn message(&self) -> (r: String)
        ensures
            r@ == self.text(),
    {
        match self {
            BlobWriteError::TooLarge => "blob payload 超过 3830 字节".to_string(),
            BlobWriteError::Unsupported => "固件不支持绑定配置块（无回包）".to_string(),
            BlobWriteError::CommitRejected(d) => text::text_dec(
                "commit 被固件拒绝（detail=",
                *d as u64,
                "）",
            ),
            BlobWriteError::VerifyMismatch => "写入后回读校验不一致".to_string(),
            BlobWriteError::Transport(t) => {
                let mut out: String = "传输错误: ".to_string();
                out.append(t.as_str());
                out
            },
        }
    }
}

/// A write session up to the commit: the frame, and how many of its chunks have been accepted.
pub struct BlobWriter {
    frame: Vec<u8>,
    crc: u16,
    accepted: usize,
}

/// Mathematical form of a write session.
pub struct WriterView {
    pub frame: Seq<u8>,
    pub crc: u16,
    pub accepted: int,
}

impl View for BlobWriter {
    type V = WriterView;

    closed spec fn view(&self) -> WriterView {
        WriterView { frame: self.frame@, crc: self.crc, accepted: self.accepted as int }
    }
}

impl WriterView {
    /// The session writes the frame of some payload within the limit.
    pub open spec fn inv(&self) -> bool {
        &&& 10 <= self.frame.len() <= BLOB_MAX_FRAME
        &&& 0 <= self.accepted <= chunk_count(self.frame.len() as int)
    }

    /// All chunks have been accepted; the commit is next.
    pub open spec fn at_commit(&self) -> bool {
        self.accepted == chunk_count(self.frame.len() as int)
    }
}

/// What a write session wants to send.
pub enum BlobRequest {
    /// Write a chunk at an offset.
    Write { offset: u16, chunk: Vec<u8> },
    /// Commit the frame.
    Commit { total_len: u16, crc16: u16 },
}

/// Mathematical form of a request.
pub enum RequestView {
    Write { offset: u16, chunk: Seq<u8> },
    Commit { total_len: u16, crc16: u16 },
}

impl View for BlobRequest {
    type V = RequestView;

    open spec fn view(&self) -> RequestView {
        match *self {
            BlobRequest::Write { offset, chunk } => RequestView::Write { offset, chunk: chunk@ },
            BlobRequest::Commit { total_len, crc16 } => RequestView::Commit { total_len, crc16 },
        }
    }
}

/// The next request of a session: the chunks in order, then the commit with length and CRC.
pub open spec fn write_request(s: WriterView) -> RequestView {
    if s.at_commit() {
        RequestView::Commit { total_len: s.frame.len() as u16, crc16: s.crc }
    } else {
        RequestView::Write { offset: (56 * s.accepted) as u16, chunk: chunk_at(s.frame, s.accepted) }
    }
}

/// What follows from an answer.
#[derive(Debug, Clone, PartialEq, Eq)]
pub enum WriteStep {
    /// Send the next request.
    Continue,
    /// Read the blob back and judge it with `judge_read_back`.
    ReadBack,
    /// The write failed.
    Failed(BlobWriteError),
}

/// Mathematical form of `WriteStep`.
pub enum StepView {
    Continue,
    ReadBack,
    Failed(WriteErrorView),
}

impl View for WriteStep {
    type V = StepView;

    open spec fn view(&self) -> StepView {
        match *self {
            WriteStep::Continue => StepView::Continue,
            WriteStep::ReadBack => StepView::ReadBack,
            WriteStep::Failed(e) => StepView::Failed(e@),
        }
    }
}

/// Session and step after an answer. Silence after the first chunk means that the firmware does
/// not know the command; silence after a later chunk is an error of the link; silence after the
/// commit leaves the verdict to the read-back.
pub open spec fn write_step(
    s: WriterView,
    reply: Result<Option<BlobWriteAck>, Seq<char>>,
) -> (WriterView, StepView) {
    let offset = 56 * s.accepted;
    match reply {
        Err(t) => (s, StepView::Failed(WriteErrorView::Transport(t))),
        Ok(ack) => if s.at_commit() {
            match ack {
                Some(a) => if a.result != 0 {
                    (s, StepView::Failed(WriteErrorView::CommitRejected(a.detail)))
                } else {
                    (s, StepView::ReadBack)
                },
                None => (s, StepView::ReadBack),
            }
        } else {
            match ack {
                None => if s.accepted == 0 {
                    (s, StepView::Failed(WriteErrorView::Unsupported))
                } else {
                    (
                        s,
                        StepView::Failed(
                            WriteErrorView::Transport(
                                "offset "@ + text::dec_text(offset as nat) + " 写入无回包"@,
                            ),
                        ),
                    )
                },
                Some(a) => if a.result != 0 || a.offset != offset {
                    (
                        s,
                        StepView::Failed(
                            WriteErrorView::Transport(
                                "offset "@ + text::dec_text(offset as nat) + " 写入被拒（result=0x"@
                                    + text::hex_text(a.result as nat, 2) + "）"@,
                            ),
                        ),
                    )
                } else {
                    (
                        WriterView { frame: s.frame, crc: s.crc, accepted: s.accepted + 1 },
                        StepView::Continue,
                    )
                },
            }
        },
    }
}

impl BlobWriter {
    /// Starts a write session; a payload above the limit is refused before anything is sent.
    pub fn new(payload: &[u8]) -> (r: Result<Self, BlobWriteError>)
        ensures
            match r {
                Ok(w) => payload@.len() <= BLOB_MAX_PAYLOAD && w@.inv() && w@ == (WriterView {
                    frame: blob_frame(payload@),
                    crc: crc16(payload@),
                    accepted: 0,
                }),
                Err(e) => payload@.len() > BLOB_MAX_PAYLOAD && e == BlobWriteError::TooLarge,
            },
    {
        match build_blob_frame(payload) {
            Ok(frame) => Ok(BlobWriter { frame, crc: crc16_ccitt_false(payload), accepted: 0 }),
            Err(_) => Err(BlobWriteError::TooLarge),
        }
    }

    /// The next request.
    pub fn request(&self) -> (r: BlobRequest)
        requires
            self@.inv(),
        ensures
            r@ == write_request(self@),
    {
        let count: usize = (self.frame.len() + 55) / BLOB_CHUNK_SIZE;
        if self.accepted == count {
            return BlobRequest::Commit { total_len: self.frame.len() as u16, crc16: self.crc };
        }
        let start: usize = BLOB_CHUNK_SIZE * self.accepted;
        let left: usize = self.frame.len() - start;
        let end: usize = if left > BLOB_CHUNK_SIZE { start + BLOB_CHUNK_SIZE } else { self.frame.len() };
        BlobRequest::Write { offset: start as u16, chunk: to_vec(&self.frame.as_slice()[start..end]) }
    }

    /// Takes in the answer to the request.
    pub fn on_ack(&mut self, reply: AckReply) -> (r: WriteStep)
        requires
            old(self)@.inv(),
        ensures
            final(self)@.inv(),
            final(self)@ == write_step(old(self)@, ack_reply(reply)).0,
            r@ == write_step(old(self)@, ack_reply(reply)).1,
    {
        let ack: Option<BlobWriteAck> = match reply {
            Err(e) => {
                return WriteStep::Failed(BlobWriteError::Transport(e));
            },
            Ok(a) => a,
        };
        let count: usize = (self.frame.len() + 55) / BLOB_CHUNK_SIZE;
        if self.accepted == count {
            return match ack {
                Some(a) => {
                    if a.is_ok() {
                        WriteStep::ReadBack
                    } else {
                        WriteStep::Failed(BlobWriteError::CommitRejected(a.detail))
                    }
                },
                None => WriteStep::ReadBack,
            };
        }
        let offset: u16 = (BLOB_CHUNK_SIZE * self.accepted) as u16;
        match ack {
            None => {
                if self.accepted == 0 {
                    WriteStep::Failed(BlobWriteError::Unsupported)
                } else {
                    WriteStep::Failed(
                        BlobWriteError::Transport(
                            text::text_dec("offset ", offset as u64, " 写入无回包"),
                        ),
                    )
                }
            },
            Some(a) => {
                if !a.is_ok() || a.offset != offset {
                    let mut out: String = text::text_dec(
                        "offset ",
                        offset as u64,
                        " 写入被拒（result=0x",
                    );
                    text::append_hex(&mut out, a.result as u64, 2);
                    out.append("）");
                    WriteStep::Failed(BlobWriteError::Transport(out))
                } else {
                    self.accepted = self.accepted + 1;
                    WriteStep::Continue
                }
            },
        }
    }
}

/// The verdict of the read-back: only the very payload that was written counts as success.
pub open spec fn read_back_verdict(
    payload: Seq<u8>,
    read: Result<ReadView, Seq<char>>,
) -> Result<(), WriteErrorView> {
    match read {
        Err(t) => Err(WriteErrorView::Transport(t)),
        Ok(ReadView::Valid { version, flags, payload: back }) => if back == payload {
            Ok(())
        } else {
            Err(WriteErrorView::VerifyMismatch)
        },
        Ok(_) => Err(WriteErrorView::VerifyMismatch),
    }
}

/// Mathematical form of the result of a read.
pub open spec fn read_result(r: Result<BlobRead, String>) -> Result<ReadView, Seq<char>> {
    match r {
        Ok(b) => Ok(b@),
        Err(e) => Err(e@),
    }
}

/// Mathematical form of the result of a write.
pub open spec fn write_result(r: Result<(), BlobWriteError>) -> Result<(), WriteErrorView> {
    match r {
        Ok(_) => Ok(()),
        Err(e) => Err(e@),
    }
}

/// Judges what was read back after a commit.
pub fn judge_read_back(payload: &[u8], read: Result<BlobRead, String>) -> (r: Result<
    (),
    BlobWriteError,
>)
    ensures
        write_result(r) == read_back_verdict(payload@, read_result(read)),
{
    match read {
        Err(e) => Err(BlobWriteError::Transport(e)),
        Ok(BlobRead::Valid { version: _, flags: _, payload: back }) => {
            if bytes_eq(back.as_slice(), payload) {
                Ok(())
            } else {
                Err(BlobWriteError::VerifyMismatch)
            }
        },
        Ok(BlobRead::NeverWritten) => Err(BlobWriteError::VerifyMismatch),
        Ok(BlobRead::Corrupt(_)) => Err(BlobWriteError::VerifyMismatch),
        Ok(BlobRead::Unsupported) => Err(BlobWriteError::VerifyMismatch),
    }
}

/// How far the writing of a payload has come.
pub enum WritePhase {
    /// The chunks and the commit are being sent.
    Sending(WriterView),
    /// What was written is being read back.
    ReadingBack(ReaderView),
    /// The write is over.
    Over(Result<(), WriteErrorView>),
    /// A write does not make these calls.
    Astray,
}

/// The start of a write session.
pub open spec fn write_start(payload: Seq<u8>) -> WriterView {
    WriterView { frame: blob_frame(payload), crc: crc16(payload), accepted: 0 }
}

/// The phase after the answer to a request.
pub open spec fn write_phase_after(outcome: (WriterView, StepView)) -> WritePhase {
    match outcome {
        (next, StepView::Continue) => WritePhase::Sending(next),
        (_, StepView::ReadBack) => WritePhase::ReadingBack(read_start()),
        (_, StepView::Failed(e)) => WritePhase::Over(Err(e)),
    }
}

/// The phase that the phase of the read-back stands for.
pub open spec fn read_back_phase(payload: Seq<u8>, p: ReadPhase) -> WritePhase {
    match p {
        ReadPhase::Asking(s) => WritePhase::ReadingBack(s),
        ReadPhase::Over(result) => WritePhase::Over(read_back_verdict(payload, result)),
        ReadPhase::Astray => WritePhase::Astray,
    }
}

/// The phase after one more call: only the request that is due may be made, and only while the
/// write goes on.
pub open spec fn write_phase_step(payload: Seq<u8>, p: WritePhase, call: LinkCall) -> WritePhase {
    match (p, call) {
        (WritePhase::Sending(s), LinkCall::Write { offset, chunk, reply }) => if write_request(s)
            == (RequestView::Write { offset, chunk }) {
            write_phase_after(write_step(s, reply))
        } else {
            WritePhase::Astray
        },
        (WritePhase::Sending(s), LinkCall::Commit { total_len, crc16, reply }) => if write_request(
            s,
        ) == (RequestView::Commit { total_len, crc16 }) {
            write_phase_after(write_step(s, reply))
        } else {
            WritePhase::Astray
        },
        (WritePhase::ReadingBack(s), _) => read_back_phase(
            payload,
            read_phase_step(ReadPhase::Asking(s), call),
        ),
        _ => WritePhase::Astray,
    }
}

/// The phase of the writing of a payload that has made these calls.
pub open spec fn write_phase(payload: Seq<u8>, calls: Seq<LinkCall>) -> WritePhase
    decreases calls.len(),
{
    if calls.len() == 0 {
        WritePhase::Sending(write_start(payload))
    } else {
        write_phase_step(payload, write_phase(payload, calls.drop_last()), calls.last())
    }
}

/// A read session that follows the commit is the read-back.
proof fn lemma_read_back_phase(payload: Seq<u8>, sent: Seq<LinkCall>, read: Seq<LinkCall>)
    requires
        write_phase(payload, sent) == WritePhase::ReadingBack(read_start()),
    ensures
        write_phase(payload, sent + read) == read_back_phase(payload, read_phase(read)),
    decreases read.len(),
{
    if read.len() == 0 {
        assert(sent + read =~= sent);
    } else {
        lemma_read_back_phase(payload, sent, read.drop_last());
        assert((sent + read).drop_last() =~= sent + read.drop_last());
    }
}

/// Writes the blob over a link: every chunk in order, the commit, then the read-back. A payload
/// above the limit is refused without touching the link.
pub fn write_blob<L: BlobLink>(link: &mut L, payload: &[u8]) -> (r: Result<(), BlobWriteError>)
    ensures
        payload@.len() > BLOB_MAX_PAYLOAD <==> write_result(r) == Err::<(), WriteErrorView>(
            WriteErrorView::TooLarge,
        ),
        payload@.len() > BLOB_MAX_PAYLOAD ==> *final(link) == *old(link),
        payload@.len() <= BLOB_MAX_PAYLOAD ==> {
            &&& old(link).history().is_prefix_of(final(link).history())
            &&& write_phase(payload@, calls_since(old(link).history(), final(link).history()))
                == WritePhase::Over(write_result(r))
        },
{
    let ghost start = link.history();
    let mut writer: BlobWriter = match BlobWriter::new(payload) {
        Ok(w) => w,
        Err(e) => {
            return Err(e);
        },
    };
    assert(calls_since(start, link.history()) =~= Seq::empty());
    loop
        invariant
            writer@.inv(),
            payload@.len() <= BLOB_MAX_PAYLOAD,
            start == old(link).history(),
            start.is_prefix_of(link.history()),
            write_phase(payload@, calls_since(start, link.history())) == WritePhase::Sending(
                writer@,
            ),
        decreases chunk_count(writer@.frame.len() as int) - writer@.accepted,
    {
        let ghost made = link.history();
        let reply: AckReply = match writer.request() {
            BlobRequest::Write { offset, chunk } => link.write_chunk(offset, chunk.as_slice()),
            BlobRequest::Commit { total_len, crc16 } => link.commit(total_len, crc16),
        };
        let ghost sent = calls_since(start, link.history());
        proof {
            assert(sent.drop_last() =~= calls_since(start, made));
        }
        match writer.on_ack(reply) {
            WriteStep::Continue => {},
            WriteStep::ReadBack => {
                let ghost committed = link.history();
                let read: Result<BlobRead, String> = read_blob(link);
                proof {
                    let back = calls_since(committed, link.history());
                    lemma_read_back_phase(payload@, sent, back);
                    assert(calls_since(start, link.history()) =~= sent + back);
                }
                return judge_read_back(payload, read);
            },
            WriteStep::Failed(e) => {
                return Err(e);
            },
        }
    }
}

// ---------------------------------------------------------------- session laws

/// What a board that stores `frame` answers to the request of a read session.
pub open spec fn stored_reply(frame: Seq<u8>, s: ReaderView) -> Result<
    Option<(u16, u16, Seq<u8>)>,
    Seq<char>,
> {
    Ok(
        Some(
            (s.next_offset, frame.len() as u16, chunk_at(frame, s.next_offset as int / 56)),
        ),
    )
}

/// A read session with a board that stores `frame`, after `n` answers.
pub open spec fn read_run(frame: Seq<u8>, n: nat) -> (ReaderView, ReadOutcome)
    decreases n,
{
    if n == 0 {
        (read_start(), None)
    } else {
        let s = read_run(frame, (n - 1) as nat).0;
        read_step(s, stored_reply(frame, s))
    }
}

/// The first chunk of a built frame holds the whole header.
proof fn lemma_first_chunk(payload: Seq<u8>)
    requires
        payload.len() <= BLOB_MAX_PAYLOAD,
    ensures
        ({
            let chunk = chunk_at(blob_frame(payload), 0);
            &&& chunk.len() >= BLOB_HEADER_LEN
            &&& !is_erased(chunk)
            &&& announced_len(chunk) == payload.len()
        }),
{
    let frame = blob_frame(payload);
    let chunk = chunk_at(frame, 0);
    let len = payload.len() as u16;
    assert(BLOB_MAGIC@.len() == 4 && BLOB_MAGIC@[0] == 0x52);
    assert(frame.len() == payload.len() + 10);
    assert(chunk[0] == frame[0] && chunk[6] == frame[6] && chunk[7] == frame[7]);
    assert(frame[6] == (len % 256) as u8 && frame[7] == (len / 256) as u8);
}

/// State of a read session of `frame` after `n` answers.
spec fn on_track(frame: Seq<u8>, s: ReaderView, n: int) -> bool {
    &&& agrees(s.reassembler, frame)
    &&& n > 0 ==> s.expected_total == Some(frame.len() as u16) && s.reassembler.total is Some
    &&& n == 0 ==> s == read_start()
    &&& forall|i: int| 0 <= i < 96 ==> (#[trigger] s.reassembler.marks[i] <==> i < n)
}

proof fn lemma_read_take(frame: Seq<u8>, s: ReaderView, i: int)
    requires
        frame.len() <= BLOB_MAX_FRAME,
        0 <= i < chunk_count(frame.len() as int),
        agrees(s.reassembler, frame),
        s.expected_total == Some(frame.len() as u16),
        forall|j: int| 0 <= j < 96 ==> (#[trigger] s.reassembler.marks[j] <==> j < i),
    ensures
        ({
            let (next, outcome) = read_take(
                s,
                (56 * i) as u16,
                frame.len() as u16,
                chunk_at(frame, i),
            );
            &&& on_track(frame, next, i + 1)
            &&& i + 1 < chunk_count(frame.len() as int) ==> outcome is None && next.next_offset == 56
                * (i + 1)
            &&& i + 1 == chunk_count(frame.len() as int) ==> outcome == Some(
                Ok::<ReadView, Seq<char>>(frame_verdict(frame)),
            )
        }),
{
    let chunk = chunk_at(frame, i);
    lemma_offer_true_chunk(s.reassembler, frame, i);
    let next = offered(s.reassembler, (56 * i) as u16, frame.len() as u16, chunk).0;
    assert forall|j: int| 0 <= j < 96 implies (#[trigger] next.marks[j] <==> j < i + 1) by {
        assert(s.reassembler.marks[j] <==> j < i);
    }
    if i + 1 == chunk_count(frame.len() as int) {
        assert(next.complete());
        lemma_complete_means_equal(next, frame);
    } else {
        assert(!next.marks[i + 1]);
        assert(!next.complete());
        assert(chunk.len() == 56);
    }
}

proof fn lemma_read_run(payload: Seq<u8>, n: nat)
    requires
        payload.len() <= BLOB_MAX_PAYLOAD,
        n <= chunk_count(blob_frame(payload).len() as int),
    ensures
        on_track(blob_frame(payload), read_run(blob_frame(payload), n).0, n as int),
        n < chunk_count(blob_frame(payload).len() as int) ==> read_run(
            blob_frame(payload),
            n,
        ).1 is None && read_run(blob_frame(payload), n).0.next_offset == 56 * n,
        n == chunk_count(blob_frame(payload).len() as int) ==> read_run(
            blob_frame(payload),
            n,
        ).1 == Some(Ok::<ReadView, Seq<char>>(frame_verdict(blob_frame(payload)))),
    decreases n,
{
    let frame = blob_frame(payload);
    assert(frame.len() == payload.len() + 10);
    if n > 0 {
        lemma_read_run(payload, (n - 1) as nat);
        let i = n - 1;
        let s = read_run(frame, (n - 1) as nat).0;
        assert(s.next_offset as int / 56 == i);
        let chunk = chunk_at(frame, i);
        if i == 0 {
            lemma_first_chunk(payload);
            let first = ReaderView {
                reassembler: s.reassembler,
                expected_total: Some((announced_len(chunk) + 10) as u16),
                next_offset: s.next_offset,
            };
            lemma_read_take(frame, first, 0);
            assert(read_run(frame, n) == read_take(first, 0, frame.len() as u16, chunk));
        } else {
            lemma_read_take(frame, s, i);
            assert(read_run(frame, n) == read_take(s, (56 * i) as u16, frame.len() as u16, chunk));
        }
    }
}

/// Reading from a board that stores the frame of a payload asks for one chunk after another and
/// ends, after the last one, with exactly that payload.
pub proof fn law_reading_gives_back_the_stored_payload(payload: Seq<u8>, n: nat)
    requires
        payload.len() <= BLOB_MAX_PAYLOAD,
        n < chunk_count(blob_frame(payload).len() as int),
    ensures
        read_run(blob_frame(payload), n).1 is None,
        read_run(blob_frame(payload), n).0.next_offset == 56 * n,
        read_run(
            blob_frame(payload),
            chunk_count(blob_frame(payload).len() as int) as nat,
        ).1 == Some(
            Ok::<ReadView, Seq<char>>(
                ReadView::Valid { version: BLOB_FORMAT_VERSION, flags: 0, payload },
            ),
        ),
{
    law_a_built_frame_is_valid(payload);
    lemma_read_run(payload, n);
    lemma_read_run(payload, chunk_count(blob_frame(payload).len() as int) as nat);
}

/// A write session with a board that accepts every chunk, after `n` answers.
pub open spec fn write_run(payload: Seq<u8>, n: nat) -> (WriterView, StepView)
    decreases n,
{
    if n == 0 {
        (write_start(payload), StepView::Continue)
    } else {
        let s = write_run(payload, (n - 1) as nat).0;
        write_step(
            s,
            Ok(Some(BlobWriteAck { result: 0, offset: (56 * s.accepted) as u16, detail: 0 })),
        )
    }
}

proof fn lemma_write_run(payload: Seq<u8>, n: nat)
    requires
        payload.len() <= BLOB_MAX_PAYLOAD,
        n <= chunk_count(blob_frame(payload).len() as int),
    ensures
        write_run(payload, n).0 == (WriterView {
            frame: blob_frame(payload),
            crc: crc16(payload),
            accepted: n as int,
        }),
        write_run(payload, n).1 == StepView::Continue,
    decreases n,
{
    law_a_built_frame_is_valid(payload);
    if n > 0 {
        lemma_write_run(payload, (n - 1) as nat);
    }
}

/// With a board that accepts everything, a write sends the chunks of the frame in order, then the
/// commit with the length and the CRC; whether or not the commit is answered, the read-back of
/// what was sent then makes the write a success.
pub proof fn law_writing_stores_the_payload(payload: Seq<u8>, n: nat)
    requires
        payload.len() <= BLOB_MAX_PAYLOAD,
        n < chunk_count(blob_frame(payload).len() as int),
    ensures
        ({
            let frame = blob_frame(payload);
            let count = chunk_count(frame.len() as int) as nat;
            let done = write_run(payload, count).0;
            &&& write_request(write_run(payload, n).0) == (RequestView::Write {
                offset: (56 * n) as u16,
                chunk: chunk_at(frame, n as int),
            })
            &&& write_request(done) == (RequestView::Commit {
                total_len: frame.len() as u16,
                crc16: crc16(payload),
            })
            &&& write_step(done, Ok(None)).1 == StepView::ReadBack
            &&& forall|a: BlobWriteAck|
                a.result == 0 ==> (#[trigger] write_step(done, Ok(Some(a)))).1 == StepView::ReadBack
            &&& read_back_verdict(payload, read_run(frame, count).1.unwrap()) == Ok::<
                (),
                WriteErrorView,
            >(())
        }),
{
    let count = chunk_count(blob_frame(payload).len() as int) as nat;
    law_a_built_frame_is_valid(payload);
    lemma_write_run(payload, n);
    lemma_write_run(payload, count);
    lemma_read_run(payload, count);
}

/// A write counts as a success only where a valid frame with the very same payload reads back.
pub proof fn law_success_needs_a_matching_read_back(
    payload: Seq<u8>,
    read: Result<ReadView, Seq<char>>,
)
    ensures
        read_back_verdict(payload, read) == Ok::<(), WriteErrorView>(()) <==> (read matches Ok(
            ReadView::Valid { version, flags, payload: back },
        ) && back == payload),
{
}

/// The read-back within the calls of a write: it starts after the first `n` of them.
pub open spec fn reads_back_from(payload: Seq<u8>, calls: Seq<LinkCall>, n: int) -> bool {
    &&& 0 <= n <= calls.len()
    &&& write_phase(payload, calls.take(n)) == WritePhase::ReadingBack(read_start())
    &&& write_phase(payload, calls) == read_back_phase(payload, read_phase(calls.skip(n)))
}

proof fn lemma_reading_back_has_a_start(payload: Seq<u8>, calls: Seq<LinkCall>) -> (n: int)
    requires
        write_phase(payload, calls) is ReadingBack,
    ensures
        reads_back_from(payload, calls, n),
    decreases calls.len(),
{
    let before = calls.drop_last();
    if write_phase(payload, before) is ReadingBack {
        let n = lemma_reading_back_has_a_start(payload, before);
        assert(calls.take(n) =~= before.take(n));
        assert(calls.skip(n).drop_last() =~= before.skip(n));
        assert(read_phase(before.skip(n)) is Asking);
        n
    } else {
        assert(calls.take(calls.len() as int) =~= calls);
        assert(calls.skip(calls.len() as int) =~= Seq::empty());
        calls.len() as int
    }
}

/// A write that ends in success has read back, after its commit, a valid frame with the very
/// payload, whatever the board answered on the way.
pub proof fn law_a_reported_success_was_read_back(payload: Seq<u8>, calls: Seq<LinkCall>)
    requires
        write_phase(payload, calls) == WritePhase::Over(Ok(())),
    ensures
        exists|n: int| #[trigger]
            reads_back_from(payload, calls, n) && (read_phase(calls.skip(n)) matches ReadPhase::Over(
                Ok(ReadView::Valid { version, flags, payload: back }),
            ) && back == payload),
{
    let before = calls.drop_last();
    let n = lemma_reading_back_has_a_start(payload, before);
    assert(calls.take(n) =~= before.take(n));
    assert(calls.skip(n).drop_last() =~= before.skip(n));
    assert(read_phase(before.skip(n)) is Asking);
    assert(reads_back_from(payload, calls, n));
}

/// A chunk without bytes never leaves a read session going.
pub proof fn law_an_empty_chunk_ends_the_read(s: ReaderView, total: u16)
    requires
        s.inv(),
    ensures
        read_step(s, Ok(Some((s.next_offset, total, Seq::empty())))).1 is Some,
{
}

/// Every answer that leaves a read session going moves its offset forward, and the offset stays
/// within a frame: a read session cannot go on for ever.
pub proof fn law_a_read_session_ends(
    s: ReaderView,
    reply: Result<Option<(u16, u16, Seq<u8>)>, Seq<char>>,
)
    requires
        s.inv(),
        read_step(s, reply).1 is None,
    ensures
        s.next_offset < read_step(s, reply).0.next_offset <= BLOB_MAX_FRAME,
{
}

/// A frame has as many chunks as it takes and no more, and each chunk is the frame from its offset
/// on, 56 bytes or what is left.
pub proof fn law_chunks_are_cut_every_56_bytes(frame: Seq<u8>, i: int)
    requires
        0 <= i < chunk_count(frame.len() as int),
    ensures
        56 * (chunk_count(frame.len() as int) - 1) < frame.len() <= 56 * chunk_count(
            frame.len() as int,
        ),
        chunk_at(frame, i) == frame.subrange(
            56 * i,
            if frame.len() - 56 * i < 56 {
                frame.len() as int
            } else {
                56 * i + 56
            },
        ),
        chunk_count(0) == 0,
{
}

/// The first `n` chunks of a frame, one after another.
pub open spec fn chunks_joined(frame: Seq<u8>, n: int) -> Seq<u8>
    decreases n,
{
    if n <= 0 {
        Seq::empty()
    } else {
        chunks_joined(frame, n - 1) + chunk_at(frame, n - 1)
    }
}

/// All chunks of a frame together, in order, are the frame.
pub proof fn law_the_chunks_together_are_the_frame(frame: Seq<u8>)
    ensures
        chunks_joined(frame, chunk_count(frame.len() as int)) == frame,
{
    let n = chunk_count(frame.len() as int);
    lemma_chunks_joined(frame, n);
    assert(frame.subrange(0, frame.len() as int) =~= frame);
}

proof fn lemma_chunks_joined(frame: Seq<u8>, n: int)
    requires
        0 <= n <= chunk_count(frame.len() as int),
    ensures
        chunks_joined(frame, n) == frame.subrange(
            0,
            if 56 * n < frame.len() {
                56 * n
            } else {
                frame.len() as int
            },
        ),
    decreases n,
{
    if n > 0 {
        lemma_chunks_joined(frame, n - 1);
        assert(chunks_joined(frame, n) =~= frame.subrange(
            0,
            if 56 * n < frame.len() {
                56 * n
            } else {
                frame.len() as int
            },
        ));
    } else {
        assert(frame.subrange(0, 0) =~= Seq::empty());
    }
}

/// A chunk is answered by [0x69, 5 + length, 0, offset, frame length, chunk], and comes back as it
/// was put in, whatever follows; a reply that reports an error or breaks off gives nothing.
pub proof fn law_a_chunk_reply_gives_back_its_chunk(
    offset: u16,
    total: u16,
    chunk: Seq<u8>,
    behind: Seq<u8>,
    failure: u8,
)
    requires
        chunk.len() <= 250,
        failure != 0,
    ensures
        ({
            let head = |result: u8|
                seq![
                    0x69u8,
                    (5 + chunk.len()) as u8,
                    result,
                    (offset % 256) as u8,
                    (offset / 256) as u8,
                    (total % 256) as u8,
                    (total / 256) as u8,
                ];
            &&& blob_read_reply(head(0) + chunk + behind) == Some((offset, total, chunk))
            &&& blob_read_reply(head(failure) + chunk + behind) is None
            &&& chunk.len() > 0 ==> blob_read_reply(head(0) + chunk.drop_last()) is None
        }),
{
    let head = seq![
        0x69u8,
        (5 + chunk.len()) as u8,
        0u8,
        (offset % 256) as u8,
        (offset / 256) as u8,
        (total % 256) as u8,
        (total / 256) as u8,
    ];
    let body = head + chunk + behind;
    assert(body.subrange(7, 7 + (body[1] - 5)) =~= chunk);
}

/// A write is answered by [0x6A, at least 3, result, offset] and, sometimes, a reason.
pub proof fn law_a_write_reply_is_read_like_this(body: Seq<u8>)
    ensures
        blob_write_reply(body) is Some <==> body.len() >= 5 && body[0] == 0x6A && body[1] >= 3,
        blob_write_reply(body) matches Some(a) ==> a.result == body[2] && a.offset == body[3] + 256
            * body[4] && a.detail == (if body.len() > 5 {
            body[5]
        } else {
            0u8
        }),
{
}

/// What ends a read before the frame is complete: a failed link with its text, silence as missing
/// support, a reply for another offset, a first chunk without a whole header, erased flash, and a
/// length that no frame has.
pub proof fn law_a_read_ends_early_for_these_reasons(
    s: ReaderView,
    why: Seq<char>,
    offset: u16,
    total: u16,
    chunk: Seq<u8>,
)
    ensures
        read_step(s, Err(why)).1 == Some(Err::<ReadView, Seq<char>>(why)),
        read_step(s, Ok(None)).1 == Some(Ok::<ReadView, Seq<char>>(ReadView::Unsupported)),
        offset != s.next_offset ==> (read_step(s, Ok(Some((offset, total, chunk)))).1 matches Some(
            Err(_),
        )),
        s.next_offset == 0 && offset == 0 ==> {
            let r = read_step(s, Ok(Some((offset, total, chunk)))).1;
            &&& chunk.len() < 8 ==> (r matches Some(Err(_)))
            &&& chunk.len() >= 8 && chunk[0] == 0xFF && chunk[1] == 0xFF && chunk[2] == 0xFF
                && chunk[3] == 0xFF ==> r == Some(
                Ok::<ReadView, Seq<char>>(ReadView::NeverWritten),
            )
            &&& chunk.len() >= 8 && chunk[0] != 0xFF && chunk[6] + 256 * chunk[7] > 3830 ==> (
            r matches Some(Ok(v)) && v is Corrupt)
        },
{
}

/// The frame length goes by the header in the first chunk: what the replies say of it makes no
/// difference.
pub proof fn law_the_header_settles_the_length(
    s: ReaderView,
    offset: u16,
    one: u16,
    other: u16,
    chunk: Seq<u8>,
)
    requires
        s.next_offset == 0 || s.expected_total is Some,
    ensures
        read_step(s, Ok(Some((offset, one, chunk)))) == read_step(
            s,
            Ok(Some((offset, other, chunk))),
        ),
{
}

proof fn lemma_read_any(frame: Seq<u8>, n: nat)
    requires
        10 <= frame.len() <= BLOB_MAX_FRAME,
        announced_len(frame) == frame.len() - 10,
        !is_erased(frame),
        n <= chunk_count(frame.len() as int),
    ensures
        on_track(frame, read_run(frame, n).0, n as int),
        n < chunk_count(frame.len() as int) ==> read_run(frame, n).1 is None && read_run(
            frame,
            n,
        ).0.next_offset == 56 * n,
        n == chunk_count(frame.len() as int) ==> read_run(frame, n).1 == Some(
            Ok::<ReadView, Seq<char>>(frame_verdict(frame)),
        ),
    decreases n,
{
    if n > 0 {
        lemma_read_any(frame, (n - 1) as nat);
        let i = n - 1;
        let s = read_run(frame, (n - 1) as nat).0;
        assert(s.next_offset as int / 56 == i);
        let chunk = chunk_at(frame, i);
        if i == 0 {
            assert(chunk.len() >= 8);
            assert(chunk[0] == frame[0] && chunk[1] == frame[1] && chunk[2] == frame[2] && chunk[3]
                == frame[3] && chunk[6] == frame[6] && chunk[7] == frame[7]);
            let first = ReaderView {
                reassembler: s.reassembler,
                expected_total: Some((announced_len(chunk) + 10) as u16),
                next_offset: s.next_offset,
            };
            lemma_read_take(frame, first, 0);
            assert(read_run(frame, n) == read_take(first, 0, frame.len() as u16, chunk));
        } else {
            lemma_read_take(frame, s, i);
            assert(read_run(frame, n) == read_take(s, (56 * i) as u16, frame.len() as u16, chunk));
        }
    }
}

/// Reading whatever frame a board stores, sound or damaged, asks for its chunks one after another
/// and ends with the verdict on exactly the stored bytes.
pub proof fn law_reading_gives_the_verdict_on_what_is_stored(frame: Seq<u8>, n: nat)
    requires
        10 <= frame.len() <= 3840,
        frame[6] + 256 * frame[7] == frame.len() - 10,
        !(frame[0] == 0xFF && frame[1] == 0xFF && frame[2] == 0xFF && frame[3] == 0xFF),
        56 * n < frame.len(),
    ensures
        read_run(frame, n).1 is None,
        read_run(frame, n).0.next_offset == 56 * n,
        56 * (n + 1) >= frame.len() ==> read_run(frame, n + 1).1 == Some(
            Ok::<ReadView, Seq<char>>(frame_verdict(frame)),
        ),
{
    lemma_read_any(frame, n);
    if 56 * (n + 1) >= frame.len() {
        assert(chunk_count(frame.len() as int) == n + 1);
        lemma_read_any(frame, n + 1);
    }
}

/// What the answers to a write lead to: an accepted chunk to the next one, a chunk that is refused
/// or answered for another offset to a failure of the link, silence after the first chunk to
/// missing support and after a later one to a failure; a refused commit fails with its reason, and
/// any other end of the commit calls for the read-back.
pub proof fn law_a_write_goes_by_its_answers(
    s: WriterView,
    ack: BlobWriteAck,
    why: Seq<char>,
)
    requires
        s.inv(),
    ensures
        ({
            let chunks = 56 * s.accepted < s.frame.len();
            let answered = write_step(s, Ok(Some(ack)));
            let silent = write_step(s, Ok(None));
            let failed = write_step(s, Err(why));
            &&& failed.1 == StepView::Failed(WriteErrorView::Transport(why))
            &&& chunks && ack.result == 0 && ack.offset == 56 * s.accepted ==> answered.1
                == StepView::Continue && answered.0 == (WriterView {
                accepted: s.accepted + 1,
                ..s
            })
            &&& chunks && !(ack.result == 0 && ack.offset == 56 * s.accepted) ==> (
            answered.1 matches StepView::Failed(WriteErrorView::Transport(_)))
            &&& chunks && s.accepted == 0 ==> silent.1 == StepView::Failed(
                WriteErrorView::Unsupported,
            )
            &&& chunks && s.accepted > 0 ==> (silent.1 matches StepView::Failed(
                WriteErrorView::Transport(_),
            ))
            &&& !chunks && ack.result == 0 ==> answered.1 == StepView::ReadBack
            &&& !chunks && ack.result != 0 ==> answered.1 == StepView::Failed(
                WriteErrorView::CommitRejected(ack.detail),
            )
            &&& !chunks ==> silent.1 == StepView::ReadBack
        }),
{
}

/// What was read back decides: the very payload is a success, anything else a mismatch, and a
/// failed read a failure of the link with its text.
pub proof fn law_the_read_back_decides(
    payload: Seq<u8>,
    version: u8,
    flags: u8,
    back: Seq<u8>,
    why: Seq<char>,
)
    ensures
        read_back_verdict(payload, Ok(ReadView::Valid { version, flags, payload: back })) == (
        if back == payload {
            Ok(())
        } else {
            Err(WriteErrorView::VerifyMismatch)
        }),
        read_back_verdict(payload, Ok(ReadView::NeverWritten)) == Err::<(), WriteErrorView>(
            WriteErrorView::VerifyMismatch,
        ),
        read_back_verdict(payload, Ok(ReadView::Corrupt(why))) == Err::<(), WriteErrorView>(
            WriteErrorView::VerifyMismatch,
        ),
        read_back_verdict(payload, Ok(ReadView::Unsupported)) == Err::<(), WriteErrorView>(
            WriteErrorView::VerifyMismatch,
        ),
        read_back_verdict(payload, Err(why)) == Err::<(), WriteErrorView>(
            WriteErrorView::Transport(why),
        ),
{
}

/// What the chunks of a write put into the flash so far: the chunks that were accepted, each one
/// behind the last.
pub open spec fn written(calls: Seq<LinkCall>) -> Seq<u8>
    decreases calls.len(),
{
    if calls.len() == 0 {
        Seq::empty()
    } else {
        written(calls.drop_last()) + match calls.last() {
            LinkCall::Write { offset, chunk, reply } => if reply matches Ok(Some(a)) && a.result
                == 0 {
                chunk
            } else {
                Seq::empty()
            },
            _ => Seq::empty(),
        }
    }
}

/// Over any calls of a write, when the commit is asked for, what was written chunk by chunk is the
/// whole frame of the payload, and the commit names its length and the payload's CRC.
pub proof fn law_a_commit_follows_the_whole_frame(payload: Seq<u8>, calls: Seq<LinkCall>)
    requires
        payload.len() <= 3830,
        write_phase(payload, calls) matches WritePhase::Sending(s) && write_request(s) is Commit,
    ensures
        written(calls) == blob_frame(payload),
        write_request(write_phase(payload, calls)->Sending_0) == (RequestView::Commit {
            total_len: (payload.len() + 10) as u16,
            crc16: crc16(payload),
        }),
{
    law_a_built_frame_is_valid(payload);
    lemma_written(payload, calls);
    let frame = blob_frame(payload);
    law_the_chunks_together_are_the_frame(frame);
}

proof fn lemma_written(payload: Seq<u8>, calls: Seq<LinkCall>)
    requires
        payload.len() <= BLOB_MAX_PAYLOAD,
        write_phase(payload, calls) is Sending,
    ensures
        ({
            let s = write_phase(payload, calls)->Sending_0;
            &&& s.inv()
            &&& s.frame == blob_frame(payload)
            &&& s.crc == crc16(payload)
            &&& written(calls) == chunks_joined(s.frame, s.accepted)
        }),
    decreases calls.len(),
{
    law_a_built_frame_is_valid(payload);
    if calls.len() > 0 {
        lemma_written(payload, calls.drop_last());
    }
}

/// The announced length is the sixteen-bit number at the seventh and eighth byte of the header,
/// the low byte first.
pub proof fn law_the_header_announces_its_length(frame: Seq<u8>)
    ensures
        announced_len(frame) == frame[6] + 256 * frame[7],
{
    bytes::law_numbers_go_low_byte_first(0, 0, frame[6], frame[7], 0, 0);
}

/// A read begins with nothing: no length is known, no chunk is marked, and the first chunk is asked
/// for.
pub proof fn law_a_read_begins_with_nothing(i: int)
    requires
        0 <= i < 96,
    ensures
        read_start().next_offset == 0,
        read_start().expected_total is None,
        read_start().reassembler == fresh_reassembler(),
        fresh_reassembler().total is None,
        fresh_reassembler().buf.len() == 0,
        fresh_reassembler().marks.len() == 96,
        !fresh_reassembler().marks[i],
{
}

/// Replies and results are seen as they are: a value as that value, silence as silence, and a
/// failure by its text.
pub proof fn law_replies_and_results_are_seen_as_they_are(
    offset: u16,
    total: u16,
    chunk: Vec<u8>,
    ack: Option<BlobWriteAck>,
    failure: String,
    read: BlobRead,
    refusal: BlobWriteError,
)
    ensures
        chunk_reply(Ok(Some((offset, total, chunk)))) == Ok::<
            Option<(u16, u16, Seq<u8>)>,
            Seq<char>,
        >(Some((offset, total, chunk@))),
        chunk_reply(Ok(None)) == Ok::<Option<(u16, u16, Seq<u8>)>, Seq<char>>(None),
        chunk_reply(Err(failure)) == Err::<Option<(u16, u16, Seq<u8>)>, Seq<char>>(failure@),
        ack_reply(Ok(ack)) == Ok::<Option<BlobWriteAck>, Seq<char>>(ack),
        ack_reply(Err(failure)) == Err::<Option<BlobWriteAck>, Seq<char>>(failure@),
        read_result(Ok(read)) == Ok::<ReadView, Seq<char>>(read@),
        read_result(Err(failure)) == Err::<ReadView, Seq<char>>(failure@),
        write_result(Ok(())) == Ok::<(), WriteErrorView>(()),
        write_result(Err(refusal)) == Err::<(), WriteErrorView>(refusal@),
{
}

} // verus!
