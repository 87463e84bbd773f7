//! Vendor GATT protocol: characteristics and packet forms.
//!
//! Commands and events have the form `[cmd][len][data...]`, the HID form without report id and
//! padding.

use vstd::prelude::*;
use super::audio::{AudioTransport, EncodedAudioPacket, PacketView};
use super::bytes;
use super::msbc::MSBC_FRAME_SIZE;
use super::protocol_hid;
use super::protocol_hid::are_audio_flags_ok;
use super::text;

verus! {

/// Vendor service, as a 128-bit value with the 16-bit number at the end.
pub const SERVICE_UUID: u128 = 0xFE60;

/// Command characteristic, written by the host.
pub const CMD_CHAR_UUID: u128 = 0xFE61;

/// Event characteristic, notified by the board.
pub const EVENT_CHAR_UUID: u128 = 0xFE62;

/// Audio characteristic, notified by the board.
pub const AUDIO_CHAR_UUID: u128 = 0xFE63;

/// Client characteristic configuration descriptor of the Bluetooth specification.
pub const CCC_DESCRIPTOR_UUID: u128 = 0x0000_2902_0000_1000_8000_0080_5F9B_34FB;

/// Start of the board's advertised name.
pub const VENDOR_DEVICE_PREFIX: &'static str = "REAI_VB_";

pub const AUDIO_FLAG_SILENCE: u8 = 0;

pub const AUDIO_FLAG_DATA: u8 = 1;

/// The hexadecimal digit `d`, in lower case.
pub open spec fn lower_hex_digit(d: int) -> char {
    if d == 10 {
        'a'
    } else if d == 11 {
        'b'
    } else if d == 12 {
        'c'
    } else if d == 13 {
        'd'
    } else if d == 14 {
        'e'
    } else if d == 15 {
        'f'
    } else {
        text::hex_digit(d)
    }
}

/// The `width` lowest hexadecimal digits of `n`, in lower case.
pub open spec fn lower_hex_text(n: nat, width: nat) -> Seq<char>
    decreases width,
{
    if width == 0 {
        Seq::empty()
    } else {
        lower_hex_text(n / 16, (width - 1) as nat).push(lower_hex_digit((n % 16) as int))
    }
}

/// The 32 digits of a 128-bit value in groups of 8, 4, 4, 4 and 12.
pub open spec fn hyphenated(value: u128) -> Seq<char> {
    let d = lower_hex_text(value as nat, 32);
    d.subrange(0, 8) + seq!['-'] + d.subrange(8, 12) + seq!['-'] + d.subrange(12, 16) + seq!['-']
        + d.subrange(16, 20) + seq!['-'] + d.subrange(20, 32)
}

/// Calls `Uuid::from_u128` and prints the result with its `Display`: the lower-case hyphenated
/// form of the value.
#[verifier::external_body]
fn uuid_display(value: u128) -> (r: String)
    ensures
        r@ == hyphenated(value),
{
    uuid::Uuid::from_u128(value).to_string()
}

/// The usual text form of a UUID.
pub fn uuid_text(value: u128) -> (r: String)
    ensures
        r@ == hyphenated(value),
{
    uuid_display(value)
}

/// Command, length and data of the packet `[cmd][len][data...]`; bytes beyond the length are
/// ignored.
pub open spec fn packet_parts(data: Seq<u8>) -> Option<(u8, u8, Seq<u8>)> {
    if data.len() >= 2 && data.len() >= 2 + data[1] {
        Some((data[0], data[1], data.subrange(2, 2 + data[1])))
    } else {
        None
    }
}

/// Takes a command or event packet apart.
pub fn parse_packet(data: &[u8]) -> (r: Option<(u8, u8, &[u8])>)
    ensures
        match r {
            Some(p) => packet_parts(data@) == Some((p.0, p.1, p.2@)),
            None => packet_parts(data@) is None,
        },
{
    if data.len() < 2 {
        return None;
    }
    let cmd: u8 = data[0];
    let len: usize = data[1] as usize;
    if data.len() - 2 < len {
        return None;
    }
    Some((cmd, data[1], &data[2..2 + len]))
}

/// Payload of the session-only envelope `[flag][len][data...]`. The length may exceed what the
/// firmware really sent; the shorter one counts. Silence and empty payloads give nothing.
pub open spec fn session_audio(data: Seq<u8>) -> Option<Seq<u8>> {
    if data.len() < 2 || data[0] != AUDIO_FLAG_DATA {
        None
    } else {
        let len = if data[1] <= data.len() - 2 {
            data[1] as int
        } else {
            data.len() - 2
        };
        if len == 0 {
            None
        } else {
            Some(data.subrange(2, 2 + len))
        }
    }
}

/// Flag and payload of a session-only audio packet.
pub fn parse_audio_packet(data: &[u8]) -> (r: Option<(u8, &[u8])>)
    ensures
        match r {
            Some(p) => p.0 == AUDIO_FLAG_DATA && session_audio(data@) == Some(p.1@),
            None => session_audio(data@) is None,
        },
{
    if data.len() < 2 {
        return None;
    }
    let flag: u8 = data[0];
    let len: usize = data[1] as usize;
    if flag != AUDIO_FLAG_DATA {
        return None;
    }
    let available: usize = data.len() - 2;
    let actual_len: usize = if len < available { len } else { available };
    if actual_len == 0 {
        return None;
    }
    Some((flag, &data[2..2 + actual_len]))
}

/// Packet in the sequenced envelope `[version][flags][sequence u16][len][payload]`: whole frames
/// only, and nothing behind them.
pub open spec fn sequenced_audio(data: Seq<u8>) -> Option<PacketView> {
    if data.len() >= 5 && data[0] == protocol_hid::AUDIO_ENVELOPE_VERSION
        && protocol_hid::audio_flags_ok(data[1]) && data[4] > 0 && data[4] as int
        % (MSBC_FRAME_SIZE as int) == 0 && data.len() == 5 + data[4] {
        Some(
            PacketView {
                payload: data.subrange(5, 5 + data[4]),
                transport: AudioTransport::BleGatt,
                sequence: Some(bytes::le16(data[2], data[3])),
                device_discontinuity: data[1] == protocol_hid::AUDIO_FLAG_DATA
                    + protocol_hid::AUDIO_FLAG_DISCONTINUITY,
            },
        )
    } else {
        None
    }
}

/// Packet in the sequenced envelope.
pub fn parse_audio_packet_v1(data: &[u8]) -> (r: Option<EncodedAudioPacket<'_>>)
    ensures
        match r {
            Some(p) => sequenced_audio(data@) == Some(p@),
            None => sequenced_audio(data@) is None,
        },
{
    if data.len() < 5 || data[0] != protocol_hid::AUDIO_ENVELOPE_VERSION || !are_audio_flags_ok(
        data[1],
    ) {
        return None;
    }
    let payload_len: usize = data[4] as usize;
    if payload_len == 0 || payload_len % MSBC_FRAME_SIZE != 0 || data.len() != 5 + payload_len {
        return None;
    }
    Some(
        EncodedAudioPacket {
            payload: &data[5..5 + payload_len],
            transport: AudioTransport::BleGatt,
            sequence: Some(bytes::u16_from_le(data[2], data[3])),
            device_discontinuity: data[1] == protocol_hid::AUDIO_FLAG_DATA
                + protocol_hid::AUDIO_FLAG_DISCONTINUITY,
        },
    )
}

/// Audio in a notification of the audio characteristic: the sequenced envelope where it fits,
/// else the session-only one, which has no sequence.
pub open spec fn notified_audio(data: Seq<u8>) -> Option<PacketView> {
    match sequenced_audio(data) {
        Some(p) => Some(p),
        None => match session_audio(data) {
            Some(payload) => Some(
                PacketView {
                    payload,
                    transport: AudioTransport::BleGatt,
                    sequence: None,
                    device_discontinuity: false,
                },
            ),
            None => None,
        },
    }
}

/// Audio in a notification of the audio characteristic, in either envelope.
pub fn parse_audio_notification(data: &[u8]) -> (r: Option<EncodedAudioPacket<'_>>)
    ensures
        match r {
            Some(p) => notified_audio(data@) == Some(p@),
            None => notified_audio(data@) is None,
        },
{
    match parse_audio_packet_v1(data) {
        Some(p) => Some(p),
        None => match parse_audio_packet(data) {
            Some(p) => Some(
                EncodedAudioPacket {
                    payload: p.1,
                    transport: AudioTransport::BleGatt,
                    sequence: None,
                    device_discontinuity: false,
                },
            ),
            None => None,
        },
    }
}

/// The GATT form of a HID report: command, length byte as it is, and as much data as the report
/// holds.
pub open spec fn gatt_command(report: Seq<u8>) -> Seq<u8> {
    let len = if report[2] < 61 {
        report[2] as int
    } else {
        61
    };
    seq![report[1], report[2]] + report.subrange(3, 3 + len)
}

/// Turns a HID command report into a GATT command.
pub fn hid_to_gatt_command(hid_packet: &[u8; 64]) -> (r: Vec<u8>)
    ensures
        r@ == gatt_command(hid_packet@),
{
    let len: usize = if (hid_packet[2] as usize) < 61 { hid_packet[2] as usize } else { 61 };
    let mut result: Vec<u8> = Vec::with_capacity(2 + len);
    result.push(hid_packet[1]);
    result.push(hid_packet[2]);
    let mut i: usize = 0;
    while i < len
        invariant
            i <= len <= 61,
            result@ == seq![hid_packet@[1], hid_packet@[2]] + hid_packet@.subrange(3, 3 + i),
        decreases len - i,
    {
        result.push(hid_packet[3 + i]);
        assert(hid_packet@.subrange(3, 3 + i + 1) =~= hid_packet@.subrange(3, 3 + i).push(
            hid_packet@[3 + i],
        ));
        i = i + 1;
    }
    result
}

/// A command report whose length byte counts its data arrives over GATT with the same command,
/// length and data.
pub proof fn law_gatt_command_carries_the_report(cmd: u8, data: Seq<u8>)
    requires
        data.len() <= 61,
    ensures
        packet_parts(gatt_command(protocol_hid::command(cmd, data.len() as u8, data))) == Some(
            (cmd, data.len() as u8, data),
        ),
{
    let report = protocol_hid::command(cmd, data.len() as u8, data);
    let out = gatt_command(report);
    assert(out.subrange(2, 2 + out[1]) =~= data);
}

/// A session-only packet that announces at least one whole frame never reads as a sequenced one:
/// its length is no valid flag byte.
pub proof fn law_session_audio_does_not_read_as_sequenced(data: Seq<u8>)
    requires
        data.len() >= 2,
        data[1] >= MSBC_FRAME_SIZE,
    ensures
        sequenced_audio(data) is None,
{
}

/// A packet gives back the command, the length and the data it was put together from, whatever
/// follows behind; one that is shorter than it says gives nothing.
pub proof fn law_a_packet_gives_back_its_parts(cmd: u8, data: Seq<u8>, behind: Seq<u8>)
    requires
        data.len() <= 255,
    ensures
        packet_parts(seq![cmd, data.len() as u8] + data + behind) == Some(
            (cmd, data.len() as u8, data),
        ),
        data.len() > 0 ==> packet_parts(seq![cmd, data.len() as u8] + data.drop_last()) is None,
        packet_parts(seq![cmd]) is None,
        packet_parts(Seq::empty()) is None,
{
    let all = seq![cmd, data.len() as u8] + data + behind;
    assert(all.subrange(2, 2 + all[1]) =~= data);
}

/// A sequenced notification gives back its frames, its number and its break mark, up to four
/// frames at once.
pub proof fn law_sequenced_audio_gives_back_its_frames(
    frames: Seq<u8>,
    number: u16,
    after_break: bool,
)
    requires
        frames.len() == 57 || frames.len() == 114 || frames.len() == 171 || frames.len() == 228,
    ensures
        ({
            let flags = if after_break {
                3u8
            } else {
                1u8
            };
            let data = seq![
                1u8,
                flags,
                (number % 256) as u8,
                (number / 256) as u8,
                frames.len() as u8,
            ] + frames;
            &&& notified_audio(data) == Some(
                PacketView {
                    payload: frames,
                    transport: AudioTransport::BleGatt,
                    sequence: Some(number),
                    device_discontinuity: after_break,
                },
            )
            &&& sequenced_audio(data) == notified_audio(data)
        }),
{
    let flags = if after_break {
        3u8
    } else {
        1u8
    };
    let data = seq![
        1u8,
        flags,
        (number % 256) as u8,
        (number / 256) as u8,
        frames.len() as u8,
    ] + frames;
    assert(data.subrange(5, 5 + data[4]) =~= frames);
}

/// Whatever reads as sequenced audio is exactly an envelope of version 1 with the data flag, whole
/// frames of the announced length and nothing behind them.
pub proof fn law_sequenced_audio_is_an_exact_envelope(data: Seq<u8>)
    ensures
        sequenced_audio(data) is Some <==> data.len() >= 5 && data[0] == 1 && (data[1] == 1
            || data[1] == 3) && data[4] >= 57 && data[4] % 57 == 0 && data.len() == 5 + data[4],
        sequenced_audio(data) matches Some(p) ==> p.payload == data.subrange(5, data.len() as int)
            && p.sequence == Some((data[2] + 256 * data[3]) as u16) && p.device_discontinuity == (
        data[1] == 3) && p.transport == AudioTransport::BleGatt,
{
}

/// Session audio gives back its payload, as far as it really came, without a number and without a
/// break; silence, an empty payload and anything that is no audio give nothing.
pub proof fn law_session_audio_gives_back_its_payload(data: Seq<u8>)
    requires
        sequenced_audio(data) is None,
    ensures
        notified_audio(data) is Some <==> data.len() >= 3 && data[0] == 1 && data[1] > 0,
        notified_audio(data) matches Some(p) ==> {
            let n = if data[1] < data.len() - 2 {
                data[1] as int
            } else {
                data.len() - 2
            };
            &&& p.payload == data.subrange(2, 2 + n)
            &&& p.sequence is None
            &&& !p.device_discontinuity
            &&& p.transport == AudioTransport::BleGatt
        },
{
}

/// A session packet gives back its payload, as far as it really came; silence, an empty payload
/// and anything that is no audio give nothing.
pub proof fn law_a_session_packet_gives_back_its_payload(
    payload: Seq<u8>,
    announced: u8,
    flag: u8,
)
    ensures
        0 < announced <= payload.len() ==> session_audio(seq![1u8, announced] + payload) == Some(
            payload.subrange(0, announced as int),
        ),
        0 < payload.len() < announced ==> session_audio(seq![1u8, announced] + payload) == Some(
            payload,
        ),
        announced == 0 || payload.len() == 0 ==> session_audio(seq![1u8, announced] + payload)
            is None,
        flag != 1 ==> session_audio(seq![flag, announced] + payload) is None,
        session_audio(seq![1u8]) is None,
        session_audio(Seq::empty()) is None,
{
    let all = seq![1u8, announced] + payload;
    if 0 < announced <= payload.len() {
        assert(all.subrange(2, 2 + announced) =~= payload.subrange(0, announced as int));
    }
    if 0 < payload.len() < announced {
        assert(all.subrange(2, all.len() as int) =~= payload);
    }
}

/// An identifier is written with 32 digits and four hyphens, 36 characters in all; the hyphens
/// stand behind the eighth, the twelfth, the sixteenth and the twentieth digit.
pub proof fn law_an_identifier_is_written_in_groups(value: u128)
    ensures
        ({
            let t = hyphenated(value);
            &&& t.len() == 36
            &&& t[8] == '-' && t[13] == '-' && t[18] == '-' && t[23] == '-'
            &&& t.subrange(0, 8) + t.subrange(9, 13) + t.subrange(14, 18) + t.subrange(19, 23)
                + t.subrange(24, 36) == lower_hex_text(value as nat, 32)
        }),
{
    lemma_lower_hex_len(value as nat, 32);
    let t = hyphenated(value);
    let d = lower_hex_text(value as nat, 32);
    assert(t.subrange(0, 8) + t.subrange(9, 13) + t.subrange(14, 18) + t.subrange(19, 23)
        + t.subrange(24, 36) =~= d);
}

proof fn lemma_lower_hex_len(n: nat, width: nat)
    ensures
        lower_hex_text(n, width).len() == width,
    decreases width,
{
    if width > 0 {
        lemma_lower_hex_len(n / 16, (width - 1) as nat);
    }
}

/// The last digit of a number is its remainder by sixteen, from `0` to `9` and then from `a` to
/// `f`; the digits before it are those of the sixteenth part.
pub proof fn law_lower_case_digits_are_these(n: nat, width: nat)
    requires
        width > 0,
    ensures
        ({
            let t = lower_hex_text(n, width);
            let d = n % 16;
            &&& t.drop_last() == lower_hex_text(n / 16, (width - 1) as nat)
            &&& d < 10 ==> t.last() as int == '0' as int + d
            &&& d >= 10 ==> t.last() as int == 'a' as int + d - 10
        }),
{
    let t = lower_hex_text(n, width);
    assert(t.drop_last() =~= lower_hex_text(n / 16, (width - 1) as nat));
}

} // verus!
