//! Device information out of the raw bytes of a reply. The USB report carries it behind four
//! bytes, the GATT reply behind three.

use vstd::prelude::*;
use crate::kernel::bytes;
use crate::kernel::error;
use crate::kernel::error::{other_error, other_error_dec, other_error_hex, BoardError};
use crate::kernel::event::{DeviceInfo, DeviceInfoView};
use crate::kernel::protocol_hid::CMD_GET_DEVICE_INFO;
use crate::kernel::text;
use crate::kernel::types::ConnectionType;

verus! {

/// Bytes of device information.
pub const DEVICE_INFO_LEN: usize = 20;

/// Two hexadecimal digits of a byte.
pub open spec fn byte_text(b: u8) -> Seq<char> {
    text::hex_text(b as nat, 2)
}

/// Six bytes as a MAC address, separated by colons.
pub open spec fn mac_text(b: Seq<u8>) -> Seq<char> {
    byte_text(b[0]) + ":"@ + byte_text(b[1]) + ":"@ + byte_text(b[2]) + ":"@ + byte_text(b[3]) + ":"@
        + byte_text(b[4]) + ":"@ + byte_text(b[5])
}

/// A version number, sent minor part first.
pub open spec fn version_text(minor: u8, major: u8) -> Seq<char> {
    text::dec_text(major as nat) + "."@ + text::dec_text(minor as nat)
}

/// The chip identifier, four bytes in the order they were sent.
pub open spec fn chip_text(b: Seq<u8>) -> Seq<char> {
    byte_text(b[0]) + byte_text(b[1]) + byte_text(b[2]) + byte_text(b[3])
}

/// The device information that starts at `p`.
pub open spec fn device_info_at(buf: Seq<u8>, p: int, conn_type: ConnectionType) -> DeviceInfoView {
    DeviceInfoView {
        mode: buf[p],
        mac_address: mac_text(buf.subrange(p + 1, p + 7)),
        receiver_version: version_text(buf[p + 7], buf[p + 8]),
        firmware_version: version_text(buf[p + 9], buf[p + 10]),
        battery_level: buf[p + 14],
        battery_charging: buf[p + 13] != 0,
        battery_full: buf[p + 15] != 0,
        chip_id: chip_text(buf.subrange(p + 16, p + 20)),
        connection_type: conn_type,
    }
}

fn mac_string(b: &[u8]) -> (r: String)
    requires
        b@.len() == 6,
    ensures
        r@ == mac_text(b@),
{
    let mut out: String = String::new();
    text::append_hex(&mut out, b[0] as u64, 2);
    out.append(":");
    text::append_hex(&mut out, b[1] as u64, 2);
    out.append(":");
    text::append_hex(&mut out, b[2] as u64, 2);
    out.append(":");
    text::append_hex(&mut out, b[3] as u64, 2);
    out.append(":");
    text::append_hex(&mut out, b[4] as u64, 2);
    out.append(":");
    text::append_hex(&mut out, b[5] as u64, 2);
    assert(out@ =~= mac_text(b@));
    out
}

fn version_string(minor: u8, major: u8) -> (r: String)
    ensures
        r@ == version_text(minor, major),
{
    let r: String = text::text_dec2("", major as u64, ".", minor as u64);
    proof {
        reveal_strlit("");
    }
    assert(r@ =~= version_text(minor, major));
    r
}

fn chip_string(b: &[u8]) -> (r: String)
    requires
        b@.len() == 4,
    ensures
        r@ == chip_text(b@),
{
    let mut out: String = String::new();
    text::append_hex(&mut out, b[0] as u64, 2);
    text::append_hex(&mut out, b[1] as u64, 2);
    text::append_hex(&mut out, b[2] as u64, 2);
    text::append_hex(&mut out, b[3] as u64, 2);
    assert(out@ =~= chip_text(b@));
    out
}

/// `r` is the device information at `p` of `buf`, or says that `buf` is too short for it.
pub open spec fn device_info_outcome(
    r: Result<DeviceInfo, BoardError>,
    buf: Seq<u8>,
    p: int,
    conn_type: ConnectionType,
) -> bool {
    if buf.len() < p + DEVICE_INFO_LEN {
        error::fails_with(r, "设备信息 payload 长度不足"@)
    } else {
        r matches Ok(info) && info@ == device_info_at(buf, p, conn_type)
    }
}

/// Reads the device information at `payload_offset`.
pub fn parse_device_info_from_buf(
    buf: &[u8],
    payload_offset: usize,
    conn_type: ConnectionType,
) -> (r: Result<DeviceInfo, BoardError>)
    requires
        payload_offset + DEVICE_INFO_LEN <= usize::MAX,
    ensures
        device_info_outcome(r, buf@, payload_offset as int, conn_type),
{
    let p: usize = payload_offset;
    if buf.len() < p + DEVICE_INFO_LEN {
        return Err(other_error("设备信息 payload 长度不足"));
    }
    Ok(
        DeviceInfo {
            mode: buf[p],
            mac_address: mac_string(&buf[p + 1..p + 7]),
            receiver_version: version_string(buf[p + 7], buf[p + 8]),
            firmware_version: version_string(buf[p + 9], buf[p + 10]),
            battery_level: buf[p + 14],
            battery_charging: buf[p + 13] != 0,
            battery_full: buf[p + 15] != 0,
            chip_id: chip_string(&buf[p + 16..p + 20]),
            connection_type: conn_type,
        },
    )
}

/// `r` is what a GATT reply to the device information query says, or why it says nothing.
pub open spec fn gatt_device_info_outcome(
    r: Result<DeviceInfo, BoardError>,
    response: Seq<u8>,
    conn_type: ConnectionType,
) -> bool {
    if response.len() < 3 + DEVICE_INFO_LEN {
        error::fails_with(r, "设备信息响应长度不足: "@ + text::dec_text(response.len()))
    } else if response[0] != CMD_GET_DEVICE_INFO {
        error::fails_with(r, "响应 CMD 不匹配: 0x"@ + byte_text(response[0]))
    } else if response[2] != 0 {
        error::fails_with(r, "查询失败: result=0x"@ + byte_text(response[2]))
    } else {
        r matches Ok(info) && info@ == device_info_at(response, 3, conn_type)
    }
}

/// Reads the device information of a GATT reply.
pub fn parse_device_info_from_gatt(response: &[u8], conn_type: ConnectionType) -> (r: Result<
    DeviceInfo,
    BoardError,
>)
    ensures
        gatt_device_info_outcome(r, response@, conn_type),
{
    if response.len() < 3 + DEVICE_INFO_LEN {
        return Err(other_error_dec("设备信息响应长度不足: ", response.len() as u64));
    }
    if response[0] != CMD_GET_DEVICE_INFO {
        return Err(other_error_hex("响应 CMD 不匹配: 0x", response[0]));
    }
    if response[2] != 0x00 {
        return Err(other_error_hex("查询失败: result=0x", response[2]));
    }
    let payload_len: usize = if response.len() - 3 < 64 {
        response.len() - 3
    } else {
        64
    };
    let buf: [u8; 64] = bytes::packet_of(&response[3..3 + payload_len]);
    let r = parse_device_info_from_buf(&buf, 0, conn_type);
    proof {
        assert(buf@.subrange(1, 7) =~= response@.subrange(4, 10));
        assert(buf@.subrange(16, 20) =~= response@.subrange(19, 23));
        assert(device_info_at(buf@, 0, conn_type) == device_info_at(response@, 3, conn_type));
    }
    r
}

proof fn lemma_mac_text(b: Seq<u8>, i: int)
    requires
        b.len() == 6,
        0 <= i < 6,
    ensures
        mac_text(b).len() == 17,
        mac_text(b)[3 * i] == text::hex_digit(b[i] as int / 16),
        mac_text(b)[3 * i + 1] == text::hex_digit(b[i] as int % 16),
        i < 5 ==> mac_text(b)[3 * i + 2] == ':',
{
    reveal_strlit(":");
    text::law_a_byte_is_two_digits(b[0]);
    text::law_a_byte_is_two_digits(b[1]);
    text::law_a_byte_is_two_digits(b[2]);
    text::law_a_byte_is_two_digits(b[3]);
    text::law_a_byte_is_two_digits(b[4]);
    text::law_a_byte_is_two_digits(b[5]);
}

/// The address is written as its six bytes in the order they were sent, two digits each, with
/// colons between them; the chip as its four bytes without anything between.
pub proof fn law_addresses_and_chips_are_written_byte_by_byte(
    buf: Seq<u8>,
    p: int,
    conn_type: ConnectionType,
    i: int,
)
    requires
        0 <= p,
        p + 20 <= buf.len(),
        0 <= i < 6,
    ensures
        ({
            let info = device_info_at(buf, p, conn_type);
            let b = buf[p + 1 + i] as int;
            let c = buf[p + 16 + i] as int;
            &&& info.mac_address.len() == 17
            &&& info.mac_address[3 * i] == text::hex_digit(b / 16)
            &&& info.mac_address[3 * i + 1] == text::hex_digit(b % 16)
            &&& i < 5 ==> info.mac_address[3 * i + 2] == ':'
            &&& info.chip_id.len() == 8
            &&& i < 4 ==> info.chip_id[2 * i] == text::hex_digit(c / 16) && info.chip_id[2 * i + 1]
                == text::hex_digit(c % 16)
        }),
{
    let mac = buf.subrange(p + 1, p + 7);
    let chip = buf.subrange(p + 16, p + 20);
    lemma_mac_text(mac, i);
    assert(mac[i] == buf[p + 1 + i]);
    text::law_a_byte_is_two_digits(chip[0]);
    text::law_a_byte_is_two_digits(chip[1]);
    text::law_a_byte_is_two_digits(chip[2]);
    text::law_a_byte_is_two_digits(chip[3]);
    if i < 4 {
        assert(chip[i] == buf[p + 16 + i]);
    }
}

/// Where the rest of the device information stands: the mode first, the versions behind the
/// address with the minor part first, then charging, level and full.
pub proof fn law_device_information_is_laid_out_like_this(
    buf: Seq<u8>,
    p: int,
    conn_type: ConnectionType,
)
    requires
        0 <= p,
        p + 20 <= buf.len(),
    ensures
        ({
            let info = device_info_at(buf, p, conn_type);
            &&& info.mode == buf[p]
            &&& info.receiver_version == text::dec_text(buf[p + 8] as nat) + seq!['.']
                + text::dec_text(buf[p + 7] as nat)
            &&& info.firmware_version == text::dec_text(buf[p + 10] as nat) + seq!['.']
                + text::dec_text(buf[p + 9] as nat)
            &&& info.battery_charging == (buf[p + 13] != 0)
            &&& info.battery_level == buf[p + 14]
            &&& info.battery_full == (buf[p + 15] != 0)
            &&& info.connection_type == conn_type
        }),
{
    reveal_strlit(".");
    assert("."@ =~= seq!['.']);
}

/// Device information comes out the same wherever it stands: only its own twenty bytes count.
pub proof fn law_device_information_depends_on_its_bytes_alone(
    front: Seq<u8>,
    info: Seq<u8>,
    behind: Seq<u8>,
    conn_type: ConnectionType,
)
    requires
        info.len() == 20,
    ensures
        device_info_at(front + info + behind, front.len() as int, conn_type) == device_info_at(
            info,
            0,
            conn_type,
        ),
{
    let all = front + info + behind;
    let p = front.len() as int;
    assert(all.subrange(p + 1, p + 7) =~= info.subrange(1, 7));
    assert(all.subrange(p + 16, p + 20) =~= info.subrange(16, 20));
}

/// Device information is read exactly when all of its twenty bytes are there.
pub proof fn law_device_information_needs_twenty_bytes(
    r: Result<DeviceInfo, BoardError>,
    buf: Seq<u8>,
    p: int,
    conn_type: ConnectionType,
)
    requires
        0 <= p,
        device_info_outcome(r, buf, p, conn_type),
    ensures
        r is Ok <==> buf.len() >= p + 20,
        r matches Ok(info) ==> info@ == device_info_at(buf, p, conn_type),
        r matches Err(e) ==> (e matches BoardError::Other(m) && m@ == "设备信息 payload 长度不足"@),
{
}

/// A packet with device information is read exactly when it is complete, names its command and
/// reports no failure; the text of a failure tells the length, the command or the result.
pub proof fn law_a_packet_with_device_information_is_read_like_this(
    r: Result<DeviceInfo, BoardError>,
    packet: Seq<u8>,
    conn_type: ConnectionType,
)
    requires
        gatt_device_info_outcome(r, packet, conn_type),
    ensures
        r is Ok <==> packet.len() >= 23 && packet[0] == 0x13 && packet[2] == 0,
        r matches Ok(info) ==> info@ == device_info_at(packet, 3, conn_type),
        packet.len() < 23 ==> (r matches Err(BoardError::Other(m)) && m@
            == "设备信息响应长度不足: "@ + text::dec_text(packet.len())),
        packet.len() >= 23 && packet[0] != 0x13 ==> (r matches Err(BoardError::Other(m)) && m@
            == "响应 CMD 不匹配: 0x"@ + text::hex_text(packet[0] as nat, 2)),
        packet.len() >= 23 && packet[0] == 0x13 && packet[2] != 0 ==> (r matches Err(
            BoardError::Other(m),
        ) && m@ == "查询失败: result=0x"@ + text::hex_text(packet[2] as nat, 2)),
{
}

} // verus!
