//! Commands to the board and what their replies mean, over USB and over GATT.

use vstd::prelude::*;
use crate::kernel::audio::{AudioCapabilities, AudioStreamState};
use crate::kernel::bindings_blob;
use crate::kernel::bindings_blob::{
    parse_blob_read_gatt_response, parse_blob_read_hid_response,
    parse_blob_write_ack_gatt_response, parse_blob_write_ack_hid_response, AckReply, BlobWriteAck,
    ChunkReply,
};
use crate::kernel::bytes;
use crate::kernel::error;
use crate::kernel::error::{other_error, other_error_dec, other_error_hex, BoardError};
use crate::kernel::event::DeviceInfo;
use crate::kernel::protocol_gatt;
use crate::kernel::protocol_gatt::hid_to_gatt_command;
use crate::kernel::protocol_hid;
use crate::kernel::protocol_hid::{
    parse_app_online_gatt_response, parse_app_online_hid_response,
    parse_audio_capabilities_gatt_response, parse_audio_capabilities_hid_response,
    parse_audio_stream_gatt_response, parse_audio_stream_hid_response,
    parse_factory_key_control_ack, parse_open_url_gatt_response, parse_open_url_hid_response,
    parse_silent_record_gatt_response, parse_silent_record_hid_response,
    parse_sleep_timeout_gatt_response, parse_sleep_timeout_hid_response,
    parse_work_mode_gatt_response, parse_work_mode_hid_response, FactoryKeyControlAck, KeyConfig,
    WorkMode, CMD_GET_DEVICE_INFO, REPORT_ID_INPUT,
};
use crate::kernel::text;
use crate::kernel::types::{ConnectionType, SleepTimeout};
use crate::runtime::ble::gatt_client;
use crate::tool::parse;
use crate::tool::parse::{parse_device_info_from_buf, parse_device_info_from_gatt};

verus! {

/// Time that a command waits for its reply, in milliseconds.
pub const COMMAND_TIMEOUT_MS: u64 = 3_000;

/// Bytes that a log line shows of a packet.
pub const HEX_PREFIX: usize = 16;

/// A command, ready to be sent.
#[derive(Debug, Clone, Copy)]
pub struct CommandRequest {
    pub connection: ConnectionType,
    /// The report to send over USB.
    pub packet: [u8; 64],
    /// The command that the reply carries.
    pub expected_cmd: u8,
}

impl CommandRequest {
    /// The bytes to send over GATT.
    pub fn gatt_bytes(&self) -> (r: Vec<u8>)
        ensures
            r@ == protocol_gatt::gatt_command(self.packet@),
    {
        hid_to_gatt_command(&self.packet)
    }
}

/// `r` is the request with this report, or says that no board is connected.
pub open spec fn request_outcome(
    r: Result<CommandRequest, BoardError>,
    connection: Option<ConnectionType>,
    packet: Seq<u8>,
    expected_cmd: u8,
) -> bool {
    match connection {
        Some(c) => r matches Ok(q) && q.connection == c && q.packet@ == packet && q.expected_cmd
            == expected_cmd,
        None => error::fails_with(r, "设备未连接"@),
    }
}

/// A request on a connection.
pub fn request(connection: Option<ConnectionType>, packet: [u8; 64], expected_cmd: u8) -> (r: Result<
    CommandRequest,
    BoardError,
>)
    ensures
        request_outcome(r, connection, packet@, expected_cmd),
{
    match connection {
        Some(c) => Ok(CommandRequest { connection: c, packet, expected_cmd }),
        None => Err(other_error("设备未连接")),
    }
}

/// The reply to a command.
pub enum CommandReply {
    /// A report buffer and the number of bytes read into it.
    Usb([u8; 64], usize),
    /// A packet of the event characteristic.
    Gatt(Vec<u8>),
}

impl CommandReply {
    /// The length lies within the buffer.
    pub open spec fn inv(&self) -> bool {
        self matches CommandReply::Usb(_, len) ==> len <= 64
    }

    /// The reply as it is on both transports: command, length, then the rest.
    pub open spec fn body(&self) -> Seq<u8> {
        match *self {
            CommandReply::Usb(buf, len) => bytes::without_report_id(buf@.subrange(0, len as int)),
            CommandReply::Gatt(b) => b@,
        }
    }

    /// The reply came as an input report, or over GATT, which has none.
    pub open spec fn is_input(&self) -> bool {
        self matches CommandReply::Usb(buf, len) ==> len > 0 && buf@[0] == REPORT_ID_INPUT
    }
}

/// The value that a reply carries, or the error of its transport.
pub open spec fn replied<T>(
    found: Option<T>,
    reply: CommandReply,
    usb_text: Seq<char>,
    gatt_text: Seq<char>,
) -> Result<T, Seq<char>> {
    match found {
        Some(v) => Ok(v),
        None => Err(
            if reply is Usb {
                usb_text
            } else {
                gatt_text
            },
        ),
    }
}

fn read_bytes(buf: &[u8; 64], len: usize) -> (r: &[u8])
    requires
        len <= 64,
    ensures
        r@ == buf@.subrange(0, len as int),
{
    let all: &[u8] = buf.as_slice();
    &all[0..len]
}

/// `r` is what the reply says of the device, or why it says nothing.
pub open spec fn device_info_reply_outcome(r: Result<DeviceInfo, BoardError>, reply: CommandReply) -> bool {
    match reply {
        CommandReply::Usb(buf, len) => if len < 24 {
            error::fails_with(r, "设备信息响应长度不足: "@ + text::dec_text(len as nat))
        } else if buf@[1] != CMD_GET_DEVICE_INFO {
            error::fails_with(r, "响应 CMD 不匹配: 0x"@ + parse::byte_text(buf@[1]))
        } else if buf@[3] != 0 {
            error::fails_with(r, "查询失败: result=0x"@ + parse::byte_text(buf@[3]))
        } else {
            r matches Ok(info) && info@ == parse::device_info_at(buf@, 4, ConnectionType::Usb)
        },
        CommandReply::Gatt(b) => parse::gatt_device_info_outcome(r, b@, ConnectionType::Ble),
    }
}

/// Device information in a reply.
pub fn device_info_reply(reply: &CommandReply) -> (r: Result<DeviceInfo, BoardError>)
    requires
        reply.inv(),
    ensures
        device_info_reply_outcome(r, *reply),
{
    match reply {
        CommandReply::Usb(buf, len) => {
            if *len < 24 {
                return Err(other_error_dec("设备信息响应长度不足: ", *len as u64));
            }
            if buf[1] != CMD_GET_DEVICE_INFO {
                return Err(other_error_hex("响应 CMD 不匹配: 0x", buf[1]));
            }
            if buf[3] != 0x00 {
                return Err(other_error_hex("查询失败: result=0x", buf[3]));
            }
            parse_device_info_from_buf(buf, 4, ConnectionType::Usb)
        },
        CommandReply::Gatt(b) => parse_device_info_from_gatt(b.as_slice(), ConnectionType::Ble),
    }
}

/// `r` is the key configuration in the reply, or why there is none.
pub open spec fn key_config_outcome(r: Result<KeyConfig, BoardError>, reply: CommandReply) -> bool {
    match reply {
        CommandReply::Usb(buf, len) => if len < 64 {
            error::fails_with(r, "按键配置响应长度不足: "@ + text::dec_text(len as nat))
        } else if buf@[3] != 0 {
            error::fails_with(r, "读取失败: result=0x"@ + parse::byte_text(buf@[3]))
        } else {
            r matches Ok(config) && config.keys@ == protocol_hid::config_of_bytes(
                buf@.subrange(4, 64),
            )
        },
        CommandReply::Gatt(b) => if b@.len() < 63 {
            error::fails_with(r, "按键配置数据长度不足: "@ + text::dec_text(b@.len()))
        } else if b@[2] != 0 {
            error::fails_with(r, "读取失败: result=0x"@ + parse::byte_text(b@[2]))
        } else {
            r matches Ok(config) && config.keys@ == protocol_hid::config_of_bytes(
                b@.subrange(3, 63),
            )
        },
    }
}

fn config_from(data: &[u8]) -> (r: KeyConfig)
    requires
        data@.len() == 60,
    ensures
        r.keys@ == protocol_hid::config_of_bytes(data@),
{
    let mut key_data: [u8; 60] = [0; 60];
    let mut i: usize = 0;
    while i < 60
        invariant
            i <= 60,
            data@.len() == 60,
            forall|k: int| 0 <= k < i ==> #[trigger] key_data@[k] == data@[k],
        decreases 60 - i,
    {
        key_data[i] = data[i];
        i = i + 1;
    }
    assert(key_data@ =~= data@);
    KeyConfig::from_bytes(&key_data)
}

/// Key configuration in a reply.
pub fn key_config_reply(reply: &CommandReply) -> (r: Result<KeyConfig, BoardError>)
    requires
        reply.inv(),
    ensures
        key_config_outcome(r, *reply),
{
    match reply {
        CommandReply::Usb(buf, len) => {
            if *len < 64 {
                return Err(other_error_dec("按键配置响应长度不足: ", *len as u64));
            }
            if buf[3] != 0x00 {
                return Err(other_error_hex("读取失败: result=0x", buf[3]));
            }
            let all: &[u8] = buf.as_slice();
            Ok(config_from(&all[4..64]))
        },
        CommandReply::Gatt(b) => {
            let all: &[u8] = b.as_slice();
            if all.len() < 63 {
                return Err(other_error_dec("按键配置数据长度不足: ", all.len() as u64));
            }
            if all[2] != 0x00 {
                return Err(other_error_hex("读取失败: result=0x", all[2]));
            }
            Ok(config_from(&all[3..63]))
        },
    }
}

/// What the reply to a write of the key configuration says.
pub open spec fn key_config_written(reply: CommandReply) -> Result<(), Seq<char>> {
    match reply {
        CommandReply::Usb(buf, len) => if len < 4 {
            Err("写入响应长度不足: "@ + text::dec_text(len as nat))
        } else if buf@[3] != 0 {
            Err("写入失败: result=0x"@ + parse::byte_text(buf@[3]))
        } else {
            Ok(())
        },
        CommandReply::Gatt(b) => if b@.len() < 3 {
            Err("写入响应长度不足"@)
        } else if b@[2] != 0 {
            Err("写入失败: result=0x"@ + parse::byte_text(b@[2]))
        } else {
            Ok(())
        },
    }
}

/// Acknowledgement of a write of the key configuration.
pub fn key_config_written_reply(reply: &CommandReply) -> (r: Result<(), BoardError>)
    requires
        reply.inv(),
    ensures
        error::outcome(r, key_config_written(*reply)),
{
    match reply {
        CommandReply::Usb(buf, len) => {
            if *len < 4 {
                return Err(other_error_dec("写入响应长度不足: ", *len as u64));
            }
            if buf[3] != 0x00 {
                return Err(other_error_hex("写入失败: result=0x", buf[3]));
            }
            Ok(())
        },
        CommandReply::Gatt(b) => {
            if b.len() < 3 {
                return Err(other_error("写入响应长度不足"));
            }
            if b[2] != 0x00 {
                return Err(other_error_hex("写入失败: result=0x", b[2]));
            }
            Ok(())
        },
    }
}

/// Silent-record switch in a reply.
pub fn silent_record_reply(reply: &CommandReply, expected_cmd: u8) -> (r: Result<bool, BoardError>)
    requires
        reply.inv(),
    ensures
        error::outcome(
            r,
            replied(
                protocol_hid::switch_reply(reply.body(), expected_cmd),
                *reply,
                "静默录音响应无效或命令失败"@,
                "静默录音 GATT 响应无效或命令失败"@,
            ),
        ),
{
    match reply {
        CommandReply::Usb(buf, len) => match parse_silent_record_hid_response(
            read_bytes(buf, *len),
            expected_cmd,
        ) {
            Some(v) => Ok(v),
            None => Err(other_error("静默录音响应无效或命令失败")),
        },
        CommandReply::Gatt(b) => match parse_silent_record_gatt_response(
            b.as_slice(),
            expected_cmd,
        ) {
            Some(v) => Ok(v),
            None => Err(other_error("静默录音 GATT 响应无效或命令失败")),
        },
    }
}

/// The raw bytes of a reply, with the report id over USB.
pub open spec fn raw_reply(reply: CommandReply) -> Seq<u8> {
    match reply {
        CommandReply::Usb(buf, len) => buf@.subrange(0, len as int),
        CommandReply::Gatt(b) => b@,
    }
}

/// Acknowledgement of a factory key test request in a reply.
pub fn factory_key_test_reply(reply: &CommandReply, session: u16) -> (r: Result<
    FactoryKeyControlAck,
    BoardError,
>)
    requires
        reply.inv(),
    ensures
        error::protocol_outcome(r, protocol_hid::factory_ack(raw_reply(*reply), session)),
{
    match reply {
        CommandReply::Usb(buf, len) => parse_factory_key_control_ack(
            read_bytes(buf, *len),
            session,
        ),
        CommandReply::Gatt(b) => parse_factory_key_control_ack(b.as_slice(), session),
    }
}

/// Work mode in a reply.
pub fn work_mode_reply(reply: &CommandReply) -> (r: Result<WorkMode, BoardError>)
    requires
        reply.inv(),
    ensures
        error::outcome(
            r,
            replied(
                protocol_hid::work_mode_reply(reply.body()),
                *reply,
                "工作模式响应无效或命令失败"@,
                "工作模式 GATT 响应无效或命令失败"@,
            ),
        ),
{
    match reply {
        CommandReply::Usb(buf, len) => match parse_work_mode_hid_response(read_bytes(buf, *len)) {
            Some(v) => Ok(v),
            None => Err(other_error("工作模式响应无效或命令失败")),
        },
        CommandReply::Gatt(b) => match parse_work_mode_gatt_response(b.as_slice()) {
            Some(v) => Ok(v),
            None => Err(other_error("工作模式 GATT 响应无效或命令失败")),
        },
    }
}

/// Sleep timeouts in a reply.
pub fn sleep_timeout_reply(reply: &CommandReply, expected_cmd: u8) -> (r: Result<
    SleepTimeout,
    BoardError,
>)
    requires
        reply.inv(),
    ensures
        error::outcome(
            r,
            replied(
                protocol_hid::sleep_timeout_reply(reply.body(), expected_cmd),
                *reply,
                "软休眠超时响应无效或命令失败"@,
                "软休眠超时 GATT 响应无效或命令失败"@,
            ),
        ),
{
    match reply {
        CommandReply::Usb(buf, len) => match parse_sleep_timeout_hid_response(
            read_bytes(buf, *len),
            expected_cmd,
        ) {
            Some(v) => Ok(v),
            None => Err(other_error("软休眠超时响应无效或命令失败")),
        },
        CommandReply::Gatt(b) => match parse_sleep_timeout_gatt_response(
            b.as_slice(),
            expected_cmd,
        ) {
            Some(v) => Ok(v),
            None => Err(other_error("软休眠超时 GATT 响应无效或命令失败")),
        },
    }
}

/// Application-online switch in a reply.
pub fn app_online_reply(reply: &CommandReply, expected_cmd: u8) -> (r: Result<bool, BoardError>)
    requires
        reply.inv(),
    ensures
        error::outcome(
            r,
            replied(
                protocol_hid::switch_reply(reply.body(), expected_cmd),
                *reply,
                "App 在线状态响应无效或命令失败"@,
                "App 在线状态 GATT 响应无效或命令失败"@,
            ),
        ),
{
    match reply {
        CommandReply::Usb(buf, len) => match parse_app_online_hid_response(
            read_bytes(buf, *len),
            expected_cmd,
        ) {
            Some(v) => Ok(v),
            None => Err(other_error("App 在线状态响应无效或命令失败")),
        },
        CommandReply::Gatt(b) => match parse_app_online_gatt_response(b.as_slice(), expected_cmd) {
            Some(v) => Ok(v),
            None => Err(other_error("App 在线状态 GATT 响应无效或命令失败")),
        },
    }
}

/// `r` is the text of the web address bytes, or the error of the transport.
pub open spec fn open_url_outcome(
    r: Result<String, BoardError>,
    found: Option<Seq<u8>>,
    reply: CommandReply,
) -> bool {
    match found {
        Some(b) => r matches Ok(s) && s@ == text::utf8_lossy_text(b) && (vstd::utf8::valid_utf8(b)
            ==> s@ == vstd::utf8::decode_utf8(b)),
        None => error::fails_with(
            r,
            if reply is Usb {
                "开网页 URL 响应无效或命令失败"@
            } else {
                "开网页 URL GATT 响应无效或命令失败"@
            },
        ),
    }
}

/// Web address in a reply.
pub fn open_url_reply(reply: &CommandReply, expected_cmd: u8) -> (r: Result<String, BoardError>)
    requires
        reply.inv(),
    ensures
        open_url_outcome(r, protocol_hid::url_reply(reply.body(), expected_cmd), *reply),
{
    match reply {
        CommandReply::Usb(buf, len) => match parse_open_url_hid_response(
            read_bytes(buf, *len),
            expected_cmd,
        ) {
            Some(v) => Ok(v),
            None => Err(other_error("开网页 URL 响应无效或命令失败")),
        },
        CommandReply::Gatt(b) => match parse_open_url_gatt_response(b.as_slice(), expected_cmd) {
            Some(v) => Ok(v),
            None => Err(other_error("开网页 URL GATT 响应无效或命令失败")),
        },
    }
}

/// Audio capabilities that a reply announces.
pub open spec fn capabilities_in(reply: CommandReply) -> Option<AudioCapabilities> {
    if reply.is_input() {
        protocol_hid::capabilities_reply(reply.body())
    } else {
        None
    }
}

/// Audio capabilities in a reply.
pub fn audio_capabilities_in(reply: &CommandReply) -> (r: Option<AudioCapabilities>)
    requires
        reply.inv(),
    ensures
        r == capabilities_in(*reply),
{
    match reply {
        CommandReply::Usb(buf, len) => parse_audio_capabilities_hid_response(read_bytes(buf, *len)),
        CommandReply::Gatt(b) => parse_audio_capabilities_gatt_response(b.as_slice()),
    }
}

/// Lease state that a reply announces.
pub open spec fn stream_state_in(reply: CommandReply) -> Option<AudioStreamState> {
    if reply.is_input() {
        protocol_hid::stream_reply(reply.body())
    } else {
        None
    }
}

/// Lease state in a reply.
pub fn audio_stream_state_in(reply: &CommandReply) -> (r: Option<AudioStreamState>)
    requires
        reply.inv(),
    ensures
        r == stream_state_in(*reply),
{
    match reply {
        CommandReply::Usb(buf, len) => parse_audio_stream_hid_response(read_bytes(buf, *len)),
        CommandReply::Gatt(b) => parse_audio_stream_gatt_response(b.as_slice()),
    }
}

/// The first `n` bytes in hexadecimal, separated by blanks.
pub open spec fn hex_bytes(data: Seq<u8>, n: int) -> Seq<char>
    decreases n,
{
    if n <= 0 {
        Seq::empty()
    } else if n == 1 {
        parse::byte_text(data[0])
    } else {
        hex_bytes(data, n - 1) + " "@ + parse::byte_text(data[n - 1])
    }
}

/// What a log line shows of a packet: at most its first 16 bytes, and how long it is if there are
/// more.
pub open spec fn hex_prefix(data: Seq<u8>) -> Seq<char> {
    if data.len() <= HEX_PREFIX {
        hex_bytes(data, data.len() as int)
    } else {
        hex_bytes(data, HEX_PREFIX as int) + " … (共 "@ + text::dec_text(data.len()) + " 字节)"@
    }
}

/// What a log line shows of a packet.
pub fn fmt_hex_prefix(data: &[u8]) -> (r: String)
    ensures
        r@ == hex_prefix(data@),
{
    let shown: usize = if data.len() <= HEX_PREFIX {
        data.len()
    } else {
        HEX_PREFIX
    };
    let mut out: String = String::new();
    assert(out@ =~= hex_bytes(data@, 0));
    let mut i: usize = 0;
    while i < shown
        invariant
            i <= shown <= data@.len(),
            out@ == hex_bytes(data@, i as int),
        decreases shown - i,
    {
        let ghost before = out@;
        if i > 0 {
            out.append(" ");
        }
        text::append_hex(&mut out, data[i] as u64, 2);
        proof {
            if i == 0 {
                assert(out@ =~= parse::byte_text(data@[0]));
            } else {
                assert(out@ =~= before + " "@ + parse::byte_text(data@[i as int]));
            }
        }
        i = i + 1;
    }
    if data.len() > HEX_PREFIX {
        out.append(" … (共 ");
        text::append_dec(&mut out, data.len() as u64);
        out.append(" 字节)");
    }
    out
}

/// What a log line shows of the bytes that were read into a buffer.
pub fn fmt_hex_prefix_len(data: &[u8], len: usize) -> (r: String)
    ensures
        r@ == hex_prefix(
            data@.subrange(
                0,
                if len <= data@.len() {
                    len as int
                } else {
                    data@.len() as int
                },
            ),
        ),
{
    let end: usize = if len <= data.len() {
        len
    } else {
        data.len()
    };
    fmt_hex_prefix(&data[0..end])
}

/// Outcome of sending a blob request: the reply, nothing when the board does not answer, or the
/// text of a transport error.
pub type Exchange = Result<Option<CommandReply>, String>;

/// Outcome of a blob request over USB: an empty read is a board that does not answer.
pub fn exchange_usb(result: Result<([u8; 64], usize), String>) -> (r: Exchange)
    ensures
        match result {
            Ok(read) => if read.1 == 0 {
                r == Ok::<Option<CommandReply>, String>(None)
            } else {
                r == Ok::<Option<CommandReply>, String>(Some(CommandReply::Usb(read.0, read.1)))
            },
            Err(e) => r == Err::<Option<CommandReply>, String>(e),
        },
{
    match result {
        Ok((buf, len)) => {
            if len == 0 {
                Ok(None)
            } else {
                Ok(Some(CommandReply::Usb(buf, len)))
            }
        },
        Err(e) => Err(e),
    }
}

/// Outcome of a blob request over GATT: a timeout is a board that does not answer.
pub fn exchange_gatt(result: Result<Vec<u8>, String>) -> (r: Exchange)
    ensures
        match result {
            Ok(b) => r == Ok::<Option<CommandReply>, String>(Some(CommandReply::Gatt(b))),
            Err(e) => if text::contains_text(e@, "超时"@) {
                r == Ok::<Option<CommandReply>, String>(None)
            } else {
                r == Err::<Option<CommandReply>, String>(e)
            },
        },
{
    match result {
        Ok(b) => Ok(Some(CommandReply::Gatt(b))),
        Err(e) => {
            if text::text_contains(e.as_str(), "超时") {
                Ok(None)
            } else {
                Err(e)
            }
        },
    }
}

/// What an exchange says of a blob chunk.
pub open spec fn chunk_outcome(exchange: Exchange) -> Result<Option<(u16, u16, Seq<u8>)>, Seq<char>> {
    match exchange {
        Err(e) => Err(e@),
        Ok(None) => Ok(None),
        Ok(Some(reply)) => match bindings_blob::blob_read_reply(reply.body()) {
            Some(p) => Ok(Some(p)),
            None => Err("blob 读应答无效或命令失败"@),
        },
    }
}

/// The chunk that an exchange gave.
pub fn read_chunk_reply(exchange: Exchange) -> (r: ChunkReply)
    requires
        exchange matches Ok(Some(reply)) ==> reply.inv(),
    ensures
        bindings_blob::chunk_reply(r) == chunk_outcome(exchange),
{
    let reply: CommandReply = match exchange {
        Err(e) => {
            return Err(e);
        },
        Ok(None) => {
            return Ok(None);
        },
        Ok(Some(reply)) => reply,
    };
    let parsed: Option<(u16, u16, &[u8])> = match &reply {
        CommandReply::Usb(buf, len) => parse_blob_read_hid_response(read_bytes(buf, *len)),
        CommandReply::Gatt(b) => parse_blob_read_gatt_response(b.as_slice()),
    };
    match parsed {
        Some((offset, total, chunk)) => Ok(Some((offset, total, bytes::to_vec(chunk)))),
        None => Err("blob 读应答无效或命令失败".to_string()),
    }
}

/// What an exchange says of a write or a commit; an unreadable reply gives the text `invalid`.
pub open spec fn ack_outcome(exchange: Exchange, invalid: Seq<char>) -> Result<
    Option<BlobWriteAck>,
    Seq<char>,
> {
    match exchange {
        Err(e) => Err(e@),
        Ok(None) => Ok(None),
        Ok(Some(reply)) => match bindings_blob::blob_write_reply(reply.body()) {
            Some(a) => Ok(Some(a)),
            None => Err(invalid),
        },
    }
}

fn ack_reply(exchange: Exchange, invalid: &str) -> (r: AckReply)
    requires
        exchange matches Ok(Some(reply)) ==> reply.inv(),
    ensures
        bindings_blob::ack_reply(r) == ack_outcome(exchange, invalid@),
{
    let reply: CommandReply = match exchange {
        Err(e) => {
            return Err(e);
        },
        Ok(None) => {
            return Ok(None);
        },
        Ok(Some(reply)) => reply,
    };
    let parsed: Option<BlobWriteAck> = match &reply {
        CommandReply::Usb(buf, len) => parse_blob_write_ack_hid_response(read_bytes(buf, *len)),
        CommandReply::Gatt(b) => parse_blob_write_ack_gatt_response(b.as_slice()),
    };
    match parsed {
        Some(a) => Ok(Some(a)),
        None => Err(invalid.to_string()),
    }
}

/// The acknowledgement of a chunk that an exchange gave.
pub fn write_chunk_reply(exchange: Exchange) -> (r: AckReply)
    requires
        exchange matches Ok(Some(reply)) ==> reply.inv(),
    ensures
        bindings_blob::ack_reply(r) == ack_outcome(exchange, "blob 写应答无效"@),
{
    ack_reply(exchange, "blob 写应答无效")
}

/// The acknowledgement of a commit that an exchange gave.
pub fn commit_reply(exchange: Exchange) -> (r: AckReply)
    requires
        exchange matches Ok(Some(reply)) ==> reply.inv(),
    ensures
        bindings_blob::ack_reply(r) == ack_outcome(exchange, "blob commit 应答无效"@),
{
    ack_reply(exchange, "blob commit 应答无效")
}

/// A reply reads the same over both transports: what counts is the body, which the report id only
/// precedes.
pub proof fn law_replies_read_the_same_over_both_transports(buf: [u8; 64], len: usize, packet: Vec<u8>)
    requires
        1 <= len <= 64,
        packet@ == buf@.subrange(1, len as int),
    ensures
        CommandReply::Usb(buf, len).body() == CommandReply::Gatt(packet).body(),
{
    let read = buf@.subrange(0, len as int);
    assert(read.subrange(1, read.len() as int) =~= packet@);
}

/// A GATT command that times out is, to a blob session, a board that does not answer.
pub proof fn law_a_gatt_timeout_is_no_answer(cmd: u8, timeout_ms: u64)
    ensures
        text::contains_text(gatt_client::timeout_text(cmd, timeout_ms), "超时"@),
{
    let head = "[GATT] CMD=0x"@ + text::hex_text(cmd as nat, 2);
    let whole = gatt_client::timeout_text(cmd, timeout_ms);
    reveal_strlit(" 响应超时 (");
    reveal_strlit("超时");
    let at = head.len() as int + 3;
    assert(whole.subrange(at, at + 2) =~= "超时"@);
}

/// A request carries the packet and the command that it was made from, on the connection there
/// is; without one there is no request.
pub proof fn law_a_request_needs_a_connection(
    r: Result<CommandRequest, BoardError>,
    c: ConnectionType,
    packet: Seq<u8>,
    cmd: u8,
)
    ensures
        request_outcome(r, Some(c), packet, cmd) <==> (r matches Ok(q) && q.connection == c
            && q.packet@ == packet && q.expected_cmd == cmd),
        request_outcome(r, None, packet, cmd) <==> (r matches Err(BoardError::Other(m)) && m@
            == "设备未连接"@),
{
}

/// Byte `i` of a report that was read is byte `i - 1` of the reply, and nothing behind the bytes
/// that were read belongs to it; a GATT packet is the reply as it stands. The raw reply keeps the
/// report id.
pub proof fn law_a_reply_is_what_was_read(buf: [u8; 64], len: usize, packet: Vec<u8>)
    requires
        1 <= len <= 64,
    ensures
        CommandReply::Usb(buf, len).body().len() == len - 1,
        forall|i: int|
            1 <= i < len ==> (#[trigger] buf@[i]) == CommandReply::Usb(buf, len).body()[i - 1],
        CommandReply::Usb(buf, 0).body() == Seq::<u8>::empty(),
        CommandReply::Gatt(packet).body() == packet@,
        raw_reply(CommandReply::Usb(buf, len)).len() == len,
        forall|i: int|
            0 <= i < len ==> (#[trigger] buf@[i]) == raw_reply(CommandReply::Usb(buf, len))[i],
        raw_reply(CommandReply::Gatt(packet)) == packet@,
{
}

/// What was found in a reply is the result; where nothing was, the text tells the transport.
pub proof fn law_a_found_value_is_the_result<T>(
    found: T,
    buf: [u8; 64],
    len: usize,
    packet: Vec<u8>,
    usb: Seq<char>,
    gatt: Seq<char>,
)
    ensures
        replied(Some(found), CommandReply::Usb(buf, len), usb, gatt) == Ok::<T, Seq<char>>(found),
        replied(Some(found), CommandReply::Gatt(packet), usb, gatt) == Ok::<T, Seq<char>>(found),
        replied(None::<T>, CommandReply::Usb(buf, len), usb, gatt) == Err::<T, Seq<char>>(usb),
        replied(None::<T>, CommandReply::Gatt(packet), usb, gatt) == Err::<T, Seq<char>>(gatt),
{
}

/// A device-information reply over USB has at least 24 bytes, names its command and reports no
/// failure; then, and only then, it is read.
pub proof fn law_a_device_information_reply_is_read_like_this(
    r: Result<DeviceInfo, BoardError>,
    buf: [u8; 64],
    len: usize,
)
    requires
        len <= 64,
        device_info_reply_outcome(r, CommandReply::Usb(buf, len)),
    ensures
        r is Ok <==> len >= 24 && buf@[1] == 0x13 && buf@[3] == 0,
        r matches Ok(info) ==> info@ == parse::device_info_at(buf@, 4, ConnectionType::Usb),
        r matches Err(e) ==> e is Other,
{
}

/// A device-information reply over GATT is read under the same conditions, one byte earlier.
pub proof fn law_a_device_information_packet_is_read_like_this(
    r: Result<DeviceInfo, BoardError>,
    packet: Vec<u8>,
)
    requires
        device_info_reply_outcome(r, CommandReply::Gatt(packet)),
    ensures
        r is Ok <==> packet@.len() >= 23 && packet@[0] == 0x13 && packet@[2] == 0,
        r matches Ok(info) ==> info@ == parse::device_info_at(packet@, 3, ConnectionType::Ble),
        r matches Err(e) ==> e is Other,
{
}

/// A key-configuration reply is read when it is complete and reports no failure. Key `k` is made
/// of the three bytes from position `4 + 3 k` of a report, one earlier in a packet.
pub proof fn law_a_key_configuration_reply_is_read_like_this(
    usb: Result<KeyConfig, BoardError>,
    buf: [u8; 64],
    len: usize,
    gatt: Result<KeyConfig, BoardError>,
    packet: Vec<u8>,
)
    requires
        len <= 64,
        key_config_outcome(usb, CommandReply::Usb(buf, len)),
        key_config_outcome(gatt, CommandReply::Gatt(packet)),
    ensures
        usb is Ok <==> len == 64 && buf@[3] == 0,
        usb matches Ok(config) ==> forall|k: int| #![trigger config.keys@[k]]
            0 <= k < 20 ==> config.keys@[k].key_class == buf@[4 + 3 * k]
                && config.keys@[k].key_value_l == buf@[5 + 3 * k] && config.keys@[k].key_value_h
                == buf@[6 + 3 * k],
        gatt is Ok <==> packet@.len() >= 63 && packet@[2] == 0,
        gatt matches Ok(config) ==> forall|k: int| #![trigger config.keys@[k]]
            0 <= k < 20 ==> config.keys@[k].key_class == packet@[3 + 3 * k]
                && config.keys@[k].key_value_l == packet@[4 + 3 * k]
                && config.keys@[k].key_value_h == packet@[5 + 3 * k],
{
}

/// A write of the key configuration succeeded exactly when its reply is long enough to carry a
/// result and that result is zero; otherwise the text tells the result or the length.
pub proof fn law_a_write_succeeded_iff_its_result_is_zero(
    buf: [u8; 64],
    len: usize,
    packet: Vec<u8>,
)
    requires
        len <= 64,
    ensures
        key_config_written(CommandReply::Usb(buf, len)) is Ok <==> len >= 4 && buf@[3] == 0,
        key_config_written(CommandReply::Gatt(packet)) is Ok <==> packet@.len() >= 3 && packet@[2]
            == 0,
        len >= 4 && buf@[3] != 0 ==> key_config_written(CommandReply::Usb(buf, len)) == Err::<
            (),
            Seq<char>,
        >("写入失败: result=0x"@ + text::hex_text(buf@[3] as nat, 2)),
        packet@.len() >= 3 && packet@[2] != 0 ==> key_config_written(CommandReply::Gatt(packet))
            == Err::<(), Seq<char>>("写入失败: result=0x"@ + text::hex_text(packet@[2] as nat, 2)),
{
}

/// Audio replies over USB count only in input reports; over GATT there is no report id to look at.
pub proof fn law_audio_replies_come_in_input_reports(buf: [u8; 64], len: usize, packet: Vec<u8>)
    requires
        len <= 64,
    ensures
        len == 0 || buf@[0] != 0x0A ==> capabilities_in(CommandReply::Usb(buf, len)) is None
            && stream_state_in(CommandReply::Usb(buf, len)) is None,
        len > 0 && buf@[0] == 0x0A ==> capabilities_in(CommandReply::Usb(buf, len))
            == protocol_hid::capabilities_reply(buf@.subrange(1, len as int)) && stream_state_in(
            CommandReply::Usb(buf, len),
        ) == protocol_hid::stream_reply(buf@.subrange(1, len as int)),
        capabilities_in(CommandReply::Gatt(packet)) == protocol_hid::capabilities_reply(packet@),
        stream_state_in(CommandReply::Gatt(packet)) == protocol_hid::stream_reply(packet@),
{
    if len > 0 {
        let read = buf@.subrange(0, len as int);
        assert(read.subrange(1, read.len() as int) =~= buf@.subrange(1, len as int));
    }
}

/// A web address is told by its bytes; without one the text tells the transport.
pub proof fn law_a_web_address_is_the_text_of_its_bytes(
    r: Result<String, BoardError>,
    found: Seq<u8>,
    buf: [u8; 64],
    len: usize,
    packet: Vec<u8>,
)
    ensures
        open_url_outcome(r, Some(found), CommandReply::Gatt(packet)) || open_url_outcome(
            r,
            Some(found),
            CommandReply::Usb(buf, len),
        ) ==> (r matches Ok(s) && (vstd::utf8::valid_utf8(found) ==> s@ == vstd::utf8::decode_utf8(
            found,
        ))),
        open_url_outcome(r, None, CommandReply::Usb(buf, len)) ==> (r matches Err(
            BoardError::Other(m),
        ) && m@ == "开网页 URL 响应无效或命令失败"@),
        open_url_outcome(r, None, CommandReply::Gatt(packet)) ==> (r matches Err(
            BoardError::Other(m),
        ) && m@ == "开网页 URL GATT 响应无效或命令失败"@),
{
}

/// Byte `i` of a packet is shown at place `3 i` of the line, as its two digits; blanks stand
/// between the bytes, and a packet of up to 16 bytes is shown whole.
pub proof fn law_a_short_packet_is_shown_whole(data: Seq<u8>, i: int)
    requires
        0 <= i < data.len() <= 16,
    ensures
        hex_prefix(data).len() == 3 * data.len() - 1,
        hex_prefix(data).subrange(3 * i, 3 * i + 2) == text::hex_text(data[i] as nat, 2),
        i > 0 ==> hex_prefix(data)[3 * i - 1] == ' ',
{
    lemma_hex_bytes(data, data.len() as int, i);
}

/// A longer packet is shown by its first 16 bytes and its length.
pub proof fn law_a_long_packet_is_shown_by_its_head_and_length(data: Seq<u8>)
    requires
        data.len() > 16,
    ensures
        hex_prefix(data) == hex_prefix(data.subrange(0, 16)) + " … (共 "@ + text::dec_text(
            data.len(),
        ) + " 字节)"@,
{
    lemma_hex_of_head(data, 16);
}

proof fn lemma_hex_of_head(data: Seq<u8>, n: int)
    requires
        0 <= n <= 16 < data.len(),
    ensures
        hex_bytes(data, n) == hex_bytes(data.subrange(0, 16), n),
    decreases n,
{
    if n > 0 {
        lemma_hex_of_head(data, n - 1);
    }
}

proof fn lemma_hex_bytes(data: Seq<u8>, n: int, i: int)
    requires
        0 <= i < n <= data.len(),
    ensures
        hex_bytes(data, n).len() == 3 * n - 1,
        hex_bytes(data, n).subrange(3 * i, 3 * i + 2) == text::hex_text(data[i] as nat, 2),
        i > 0 ==> hex_bytes(data, n)[3 * i - 1] == ' ',
    decreases n,
{
    reveal_strlit(" ");
    text::law_a_byte_is_two_digits(data[n - 1]);
    if n == 1 {
        assert(parse::byte_text(data[0]).subrange(0, 2) =~= parse::byte_text(data[0]));
    } else {
        let before = hex_bytes(data, n - 1);
        let whole = hex_bytes(data, n);
        if i < n - 1 {
            lemma_hex_bytes(data, n - 1, i);
            assert(whole.subrange(3 * i, 3 * i + 2) =~= before.subrange(3 * i, 3 * i + 2));
        } else {
            lemma_hex_bytes(data, n - 1, n - 2);
            assert(whole.subrange(3 * i, 3 * i + 2) =~= parse::byte_text(data[n - 1]));
        }
    }
}

/// A failed exchange keeps its text, a silent board gives nothing, and a reply gives the chunk or
/// the acknowledgement in its body or, where there is none, the text for an unreadable one.
pub proof fn law_an_exchange_is_its_failure_its_silence_or_its_reply(
    failure: String,
    buf: [u8; 64],
    len: usize,
    packet: Vec<u8>,
    invalid: Seq<char>,
)
    requires
        1 <= len <= 64,
    ensures
        chunk_outcome(Err(failure)) == Err::<Option<(u16, u16, Seq<u8>)>, Seq<char>>(failure@),
        ack_outcome(Err(failure), invalid) == Err::<Option<BlobWriteAck>, Seq<char>>(failure@),
        chunk_outcome(Ok(None)) == Ok::<Option<(u16, u16, Seq<u8>)>, Seq<char>>(None),
        ack_outcome(Ok(None), invalid) == Ok::<Option<BlobWriteAck>, Seq<char>>(None),
        chunk_outcome(Ok(Some(CommandReply::Gatt(packet)))) == (match bindings_blob::blob_read_reply(
            packet@,
        ) {
            Some(p) => Ok::<Option<(u16, u16, Seq<u8>)>, Seq<char>>(Some(p)),
            None => Err("blob 读应答无效或命令失败"@),
        }),
        ack_outcome(Ok(Some(CommandReply::Gatt(packet))), invalid) == (
        match bindings_blob::blob_write_reply(packet@) {
            Some(a) => Ok::<Option<BlobWriteAck>, Seq<char>>(Some(a)),
            None => Err(invalid),
        }),
        packet@ == buf@.subrange(1, len as int) ==> chunk_outcome(
            Ok(Some(CommandReply::Usb(buf, len))),
        ) == chunk_outcome(Ok(Some(CommandReply::Gatt(packet)))) && ack_outcome(
            Ok(Some(CommandReply::Usb(buf, len))),
            invalid,
        ) == ack_outcome(Ok(Some(CommandReply::Gatt(packet))), invalid),
{
    if packet@ == buf@.subrange(1, len as int) {
        law_replies_read_the_same_over_both_transports(buf, len, packet);
    }
}

} // verus!
