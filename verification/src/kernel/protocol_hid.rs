//! HID protocol: identifiers, command packets, key configuration and reply parsers.
//!
//! A command is a 64-byte report `[report id][cmd][len][data...]`, zero-filled at the end. A HID
//! reply has the same form; a GATT reply is the same without the report id.

use vstd::prelude::*;
use super::audio::{
    AudioCapabilities, AudioStreamAction, AudioStreamResult, AudioStreamScope, AudioStreamState,
    AudioTransport, EncodedAudioPacket, PacketView, AUDIO_PROTOCOL_VERSION,
};
use super::bytes;
use super::bytes::{high_byte, low_byte, packet_of, u16_from_le, u32_from_le};
use super::error;
use super::error::{protocol_error, protocol_error_dec, BoardError};
use super::event::FactoryKeyEvent;
use super::text;
use super::types::{ConnectionType, SleepTimeout};

verus! {

/// USB vendor id.
pub const VID: u16 = 0x363C;

/// USB product id.
pub const PID_USB: u16 = 0xED20;

/// BLE product id, the same as over USB.
pub const PID_BLE: u16 = 0xED20;

/// The product id over USB.
pub const PID: u16 = 0xED20;

pub const REPORT_ID_INPUT: u8 = 0x0A;

pub const REPORT_ID_OUTPUT: u8 = 0x0B;

pub const REPORT_ID_KEY_EVENT: u8 = 0x02;

pub const REPORT_ID_AUDIO: u8 = 0xB1;

pub const AUDIO_ENVELOPE_VERSION: u8 = 1;

pub const AUDIO_FLAG_DATA: u8 = 0x01;

pub const AUDIO_FLAG_DISCONTINUITY: u8 = 0x02;

pub const CMD_GET_KEY_SETTING: u8 = 0x15;

pub const CMD_SET_KEY_SETTING: u8 = 0x16;

pub const CMD_STATUS: u8 = 0x12;

pub const CMD_GET_DEVICE_INFO: u8 = 0x13;

pub const CMD_AUDIO_DATA: u8 = 0x01;

pub const CMD_WORK_MODE_DATA: u8 = 0xC9;

pub const CMD_AI_SHUTDOWN: u8 = 0x5E;

/// The firmware announces that it will disconnect.
pub const CMD_DEVICE_DISCONNECT: u8 = 0x60;

pub const CMD_GET_SILENT_RECORD: u8 = 0x61;

pub const CMD_SET_SILENT_RECORD: u8 = 0x62;

pub const CMD_GET_SLEEP_TIMEOUT: u8 = 0x63;

pub const CMD_SET_SLEEP_TIMEOUT: u8 = 0x64;

pub const CMD_AI_APP_ONLINE_NOTIFY: u8 = 0x65;

pub const CMD_AI_GET_APP_ONLINE: u8 = 0x66;

pub const CMD_AI_GET_OPEN_URL: u8 = 0x67;

pub const CMD_AI_SET_OPEN_URL: u8 = 0x68;

pub const CMD_AI_READ_BINDINGS_BLOB: u8 = 0x69;

pub const CMD_AI_WRITE_BINDINGS_BLOB: u8 = 0x6A;

pub const CMD_AI_FACTORY_KEY_TEST_CONTROL: u8 = 0x6C;

pub const CMD_AI_FACTORY_KEY_EVENT: u8 = 0x6D;

pub const CMD_AI_GET_AUDIO_CAPABILITIES: u8 = 0x6E;

pub const CMD_AI_AUDIO_STREAM_CONTROL: u8 = 0x6F;

pub const FACTORY_KEY_TEST_PROTOCOL_VERSION: u8 = 0x01;

pub const FACTORY_KEY_TEST_INPUT_COUNT: u8 = 12;

/// Consumer code of the AI voice key in the factory configuration.
pub const AI_VOICE_MEDIA_CODE: u16 = 0x0F04;

/// Consumer code that the firmware sends for a key of class `AiVoice`.
pub const AI_VOICE_MARK_CODE: u16 = 0x0F99;

pub const PACKET_SIZE: usize = 64;

/// Twenty keys of three bytes.
pub const KEY_DATA_LEN: usize = 60;

pub const KEY_COUNT: usize = 20;

/// Keys that the board really has.
pub const ACTIVE_KEY_COUNT: usize = 12;

pub const SAMPLE_RATE: u32 = 16000;

pub const MSBC_FRAME_SIZE: usize = 57;

pub const DECODED_SAMPLES_PER_FRAME: usize = 120;

pub const MSBC_FLAG_OFFSET: usize = 1;

pub const MSBC_LEN_OFFSET: usize = 2;

pub const MSBC_DATA_OFFSET: usize = 3;

pub const MSBC_DATA_LEN: usize = 57;

pub const USAGE_PAGE_KEYBOARD: u16 = 0x0001;

pub const USAGE_PAGE_CONSUMER: u16 = 0x000C;

pub const USAGE_PAGE_CONFIG: u16 = 0xFFA0;

pub const USAGE_PAGE_AUDIO: u16 = 0xFFAA;

/// Bytes of a blob chunk at most.
pub const MAX_BLOB_CHUNK: usize = 56;

/// Tells whether a product id is the board's.
pub fn is_target_pid(pid: u16) -> (r: bool)
    ensures
        r == (pid == PID_USB || pid == PID_BLE),
{
    pid == PID_USB || pid == PID_BLE
}

/// The product id for a kind of connection.
pub fn target_pid(conn_type: ConnectionType) -> (r: u16)
    ensures
        r == (match conn_type {
            ConnectionType::Usb => PID_USB,
            ConnectionType::Ble => PID_BLE,
        }),
{
    match conn_type {
        ConnectionType::Usb => PID_USB,
        ConnectionType::Ble => PID_BLE,
    }
}

/// The consumer code stands for the AI voice key.
pub open spec fn is_ai_voice_code(code: u16) -> bool {
    code == AI_VOICE_MEDIA_CODE || code == AI_VOICE_MARK_CODE
}

/// Tells whether a consumer code stands for the AI voice key.
pub fn is_ai_voice_consumer_code(code: u16) -> (r: bool)
    ensures
        r == is_ai_voice_code(code),
{
    code == AI_VOICE_MEDIA_CODE || code == AI_VOICE_MARK_CODE
}

// ---------------------------------------------------------------- keys

/// What a key does. Only some classes apply to this board; the others are kept so that every
/// configuration can be read.
#[derive(Debug, Clone, Copy, PartialEq, Eq, Structural)]
pub enum KeyClass {
    Default,
    MouseKey,
    MouseDpi,
    MouseTilt,
    MouseFireKey,
    MouseShortcutKey,
    Macro,
    SwitchReportRate,
    SwitchProfile,
    Wheel,
    Media,
    Keyboard,
    LockY,
    LockX,
    AiVoice,
    Disable,
}

impl KeyClass {
    /// The byte of the class.
    pub open spec fn code(&self) -> u8 {
        match *self {
            KeyClass::Default => 0x00,
            KeyClass::MouseKey => 0x01,
            KeyClass::MouseDpi => 0x02,
            KeyClass::MouseTilt => 0x03,
            KeyClass::MouseFireKey => 0x04,
            KeyClass::MouseShortcutKey => 0x05,
            KeyClass::Macro => 0x06,
            KeyClass::SwitchReportRate => 0x07,
            KeyClass::SwitchProfile => 0x08,
            KeyClass::Wheel => 0x09,
            KeyClass::Media => 0x0A,
            KeyClass::Keyboard => 0x0B,
            KeyClass::LockY => 0x0C,
            KeyClass::LockX => 0x0D,
            KeyClass::AiVoice => 0x0E,
            KeyClass::Disable => 0xFF,
        }
    }

    /// The byte of the class.
    pub fn to_u8(&self) -> (r: u8)
        ensures
            r == self.code(),
    {
        match self {
            KeyClass::Default => 0x00,
            KeyClass::MouseKey => 0x01,
            KeyClass::MouseDpi => 0x02,
            KeyClass::MouseTilt => 0x03,
            KeyClass::MouseFireKey => 0x04,
            KeyClass::MouseShortcutKey => 0x05,
            KeyClass::Macro => 0x06,
            KeyClass::SwitchReportRate => 0x07,
            KeyClass::SwitchProfile => 0x08,
            KeyClass::Wheel => 0x09,
            KeyClass::Media => 0x0A,
            KeyClass::Keyboard => 0x0B,
            KeyClass::LockY => 0x0C,
            KeyClass::LockX => 0x0D,
            KeyClass::AiVoice => 0x0E,
            KeyClass::Disable => 0xFF,
        }
    }

    /// The class of a byte: the one whose byte it is, if any.
    pub fn from_u8(value: u8) -> (r: Option<Self>)
        ensures
            r matches Some(c) ==> c.code() == value,
            r is None ==> forall|c: KeyClass| c.code() != value,
    {
        match value {
            0x00 => Some(KeyClass::Default),
            0x01 => Some(KeyClass::MouseKey),
            0x02 => Some(KeyClass::MouseDpi),
            0x03 => Some(KeyClass::MouseTilt),
            0x04 => Some(KeyClass::MouseFireKey),
            0x05 => Some(KeyClass::MouseShortcutKey),
            0x06 => Some(KeyClass::Macro),
            0x07 => Some(KeyClass::SwitchReportRate),
            0x08 => Some(KeyClass::SwitchProfile),
            0x09 => Some(KeyClass::Wheel),
            0x0A => Some(KeyClass::Media),
            0x0B => Some(KeyClass::Keyboard),
            0x0C => Some(KeyClass::LockY),
            0x0D => Some(KeyClass::LockX),
            0x0E => Some(KeyClass::AiVoice),
            0xFF => Some(KeyClass::Disable),
            _ => None,
        }
    }

    /// Name shown for the class.
    pub open spec fn label(&self) -> Seq<char> {
        match *self {
            KeyClass::Default => "默认"@,
            KeyClass::MouseKey => "鼠标按键"@,
            KeyClass::MouseDpi => "DPI切换"@,
            KeyClass::MouseTilt => "鼠标滚轮倾斜"@,
            KeyClass::MouseFireKey => "火力键"@,
            KeyClass::MouseShortcutKey => "快捷键"@,
            KeyClass::Macro => "宏"@,
            KeyClass::SwitchReportRate => "报告率切换"@,
            KeyClass::SwitchProfile => "配置切换"@,
            KeyClass::Wheel => "滚轮"@,
            KeyClass::Media => "多媒体键"@,
            KeyClass::Keyboard => "键盘按键"@,
            KeyClass::LockX => "锁定X轴"@,
            KeyClass::LockY => "锁定Y轴"@,
            KeyClass::AiVoice => "AI语音"@,
            KeyClass::Disable => "禁用"@,
        }
    }

    /// Name shown for the class.
    pub fn display_name(&self) -> (r: &'static str)
        ensures
            r@ == self.label(),
    {
        match self {
            KeyClass::Default => "默认",
            KeyClass::MouseKey => "鼠标按键",
            KeyClass::MouseDpi => "DPI切换",
            KeyClass::MouseTilt => "鼠标滚轮倾斜",
            KeyClass::MouseFireKey => "火力键",
            KeyClass::MouseShortcutKey => "快捷键",
            KeyClass::Macro => "宏",
            KeyClass::SwitchReportRate => "报告率切换",
            KeyClass::SwitchProfile => "配置切换",
            KeyClass::Wheel => "滚轮",
            KeyClass::Media => "多媒体键",
            KeyClass::Keyboard => "键盘按键",
            KeyClass::LockX => "锁定X轴",
            KeyClass::LockY => "锁定Y轴",
            KeyClass::AiVoice => "AI语音",
            KeyClass::Disable => "禁用",
        }
    }
}

/// Different classes have different bytes.
pub proof fn law_key_class_codes_are_distinct(a: KeyClass, b: KeyClass)
    ensures
        a.code() == b.code() ==> a == b,
{
}

/// Configuration of one key: three bytes.
#[derive(Debug, Clone, Copy, PartialEq, Eq, Structural)]
pub struct KeyInfo {
    pub key_class: u8,
    pub key_value_l: u8,
    pub key_value_h: u8,
}

impl KeyInfo {
    /// The 16-bit key value.
    pub open spec fn value(&self) -> u16 {
        bytes::le16(self.key_value_l, self.key_value_h)
    }

    /// The three bytes.
    pub open spec fn bytes(&self) -> Seq<u8> {
        seq![self.key_class, self.key_value_l, self.key_value_h]
    }

    pub fn new(key_class: u8, key_value_l: u8, key_value_h: u8) -> (r: Self)
        ensures
            r == (KeyInfo { key_class, key_value_l, key_value_h }),
    {
        KeyInfo { key_class, key_value_l, key_value_h }
    }

    /// A disabled key.
    pub fn disabled() -> (r: Self)
        ensures
            r == (KeyInfo { key_class: KeyClass::Disable.code(), key_value_l: 0, key_value_h: 0 }),
    {
        KeyInfo { key_class: KeyClass::Disable.to_u8(), key_value_l: 0x00, key_value_h: 0x00 }
    }

    /// The 16-bit key value.
    pub fn key_value(&self) -> (r: u16)
        ensures
            r == self.value(),
    {
        u16_from_le(self.key_value_l, self.key_value_h)
    }

    /// Sets the 16-bit key value and leaves the class alone.
    pub fn set_key_value(&mut self, value: u16)
        ensures
            final(self).value() == value,
            final(self).key_class == old(self).key_class,
    {
        self.key_value_l = low_byte(value);
        self.key_value_h = high_byte(value);
    }

    /// Reads the three bytes.
    pub fn from_bytes(data: [u8; 3]) -> (r: Self)
        ensures
            r.bytes() == data@,
    {
        let r = KeyInfo { key_class: data[0], key_value_l: data[1], key_value_h: data[2] };
        assert(r.bytes() =~= data@);
        r
    }

    /// Writes the three bytes.
    pub fn to_bytes(self) -> (r: [u8; 3])
        ensures
            r@ == self.bytes(),
    {
        let r: [u8; 3] = [self.key_class, self.key_value_l, self.key_value_h];
        assert(r@ =~= self.bytes());
        r
    }

    /// The class of the key, if its byte stands for one.
    pub fn get_class(&self) -> (r: Option<KeyClass>)
        ensures
            r matches Some(c) ==> c.code() == self.key_class,
            r is None ==> forall|c: KeyClass| c.code() != self.key_class,
    {
        KeyClass::from_u8(self.key_class)
    }
}

/// Name of the key at a position.
pub open spec fn key_name(index: usize) -> Seq<char> {
    if index == 0 {
        "音量A相(KEY0)"@
    } else if index == 1 {
        "音量B相(KEY1)"@
    } else if index == 2 {
        "音量按压(KEY2)"@
    } else if index == 3 {
        "Tab键(KEY3)"@
    } else if index == 4 {
        "New键(KEY4)"@
    } else if index == 5 {
        "Esc键(KEY5)"@
    } else if index == 6 {
        "AI语音(KEY6)"@
    } else if index == 7 {
        "Action键(KEY7)"@
    } else if index == 8 {
        "Enter键(KEY8)"@
    } else if index == 9 {
        "YOLO拨杆(KEY9)"@
    } else if index == 10 {
        "PLAN拨杆(KEY10)"@
    } else if index == 11 {
        "CHAT拨杆(KEY11)"@
    } else {
        "未知"@
    }
}

/// Name of the key at a position.
pub fn get_key_name(index: usize) -> (r: &'static str)
    ensures
        r@ == key_name(index),
{
    match index {
        0 => "音量A相(KEY0)",
        1 => "音量B相(KEY1)",
        2 => "音量按压(KEY2)",
        3 => "Tab键(KEY3)",
        4 => "New键(KEY4)",
        5 => "Esc键(KEY5)",
        6 => "AI语音(KEY6)",
        7 => "Action键(KEY7)",
        8 => "Enter键(KEY8)",
        9 => "YOLO拨杆(KEY9)",
        10 => "PLAN拨杆(KEY10)",
        11 => "CHAT拨杆(KEY11)",
        _ => "未知",
    }
}

/// Consumer code of the key at a position in the factory configuration: the knob phases and its
/// press come after the six plain keys, the levers last.
pub open spec fn default_key_value(index: usize) -> u16 {
    if index <= 2 {
        (0x0F07 + index) as u16
    } else if index <= 8 {
        (0x0F01 + index - 3) as u16
    } else if index <= 11 {
        (0x0F0A + index - 9) as u16
    } else {
        0
    }
}

/// Consumer code of the key at a position in the factory configuration.
pub fn get_default_key_value(index: usize) -> (r: u16)
    ensures
        r == default_key_value(index),
{
    match index {
        0 => 0x0F07,
        1 => 0x0F08,
        2 => 0x0F09,
        3 => 0x0F01,
        4 => 0x0F02,
        5 => 0x0F03,
        6 => 0x0F04,
        7 => 0x0F05,
        8 => 0x0F06,
        9 => 0x0F0A,
        10 => 0x0F0B,
        11 => 0x0F0C,
        _ => 0x0000,
    }
}

/// Position of the key with a consumer code.
pub open spec fn key_index_of_value(value: u16) -> Option<usize> {
    if 0x0F01 <= value <= 0x0F06 {
        Some((value - 0x0F01 + 3) as usize)
    } else if 0x0F07 <= value <= 0x0F09 {
        Some((value - 0x0F07) as usize)
    } else if 0x0F0A <= value <= 0x0F0C {
        Some((value - 0x0F0A + 9) as usize)
    } else {
        None
    }
}

/// Position of the key with a consumer code.
pub fn find_key_index_by_value(value: u16) -> (r: Option<usize>)
    ensures
        r == key_index_of_value(value),
{
    match value {
        0x0F01 => Some(3),
        0x0F02 => Some(4),
        0x0F03 => Some(5),
        0x0F04 => Some(6),
        0x0F05 => Some(7),
        0x0F06 => Some(8),
        0x0F07 => Some(0),
        0x0F08 => Some(1),
        0x0F09 => Some(2),
        0x0F0A => Some(9),
        0x0F0B => Some(10),
        0x0F0C => Some(11),
        _ => None,
    }
}

/// The factory code of each of the twelve keys leads back to the key, and no other code leads to
/// a key.
pub proof fn law_default_key_values_identify_keys(index: usize, value: u16)
    ensures
        index < ACTIVE_KEY_COUNT ==> key_index_of_value(default_key_value(index)) == Some(index),
        key_index_of_value(value) == Some(index) <==> index < ACTIVE_KEY_COUNT
            && default_key_value(index) == value,
{
}

/// The position is a phase of the knob, which turns in pulses and is never held.
pub open spec fn is_knob_pulse(key_index: usize) -> bool {
    key_index <= 1
}

/// Tells whether a position is a phase of the knob.
pub fn is_knob_pulse_key_index(key_index: usize) -> (r: bool)
    ensures
        r == is_knob_pulse(key_index),
{
    key_index == 0 || key_index == 1
}

/// Mode value and mode name of a lever position.
pub open spec fn mode_of_key(key_index: usize) -> Option<(u8, Seq<char>)> {
    if key_index == 9 {
        Some((1u8, "YOLO"@))
    } else if key_index == 10 {
        Some((2u8, "PLAN"@))
    } else if key_index == 11 {
        Some((0u8, "CHAT"@))
    } else {
        None
    }
}

/// Mode value and mode name of a lever position.
pub fn key_index_to_mode(key_index: usize) -> (r: Option<(u8, &'static str)>)
    ensures
        match r {
            Some(m) => mode_of_key(key_index) == Some((m.0, m.1@)),
            None => mode_of_key(key_index) is None,
        },
{
    match key_index {
        9 => Some((1, "YOLO")),
        10 => Some((2, "PLAN")),
        11 => Some((0, "CHAT")),
        _ => None,
    }
}

/// Work mode, set by the lever.
#[derive(Debug, Clone, Copy, PartialEq, Eq, Structural)]
pub enum WorkMode {
    Chat,
    Yolo,
    Plan,
}

impl WorkMode {
    /// The mode that a byte stands for. Each mode has its number and its lever code, and `0x0F`
    /// counts as PLAN.
    pub open spec fn of_code(value: u8) -> Option<WorkMode> {
        if value == 0x00 || value == 0x0C {
            Some(WorkMode::Chat)
        } else if value == 0x01 || value == 0x0A {
            Some(WorkMode::Yolo)
        } else if value == 0x02 || value == 0x0B || value == 0x0F {
            Some(WorkMode::Plan)
        } else {
            None
        }
    }

    /// The mode that a byte stands for.
    pub fn from_u8(value: u8) -> (r: Option<Self>)
        ensures
            r == WorkMode::of_code(value),
    {
        match value {
            0x00 | 0x0C => Some(WorkMode::Chat),
            0x01 | 0x0A => Some(WorkMode::Yolo),
            0x02 | 0x0B | 0x0F => Some(WorkMode::Plan),
            _ => None,
        }
    }

    /// Name of the mode.
    pub open spec fn label(&self) -> Seq<char> {
        match *self {
            WorkMode::Chat => "CHAT"@,
            WorkMode::Yolo => "YOLO"@,
            WorkMode::Plan => "PLAN"@,
        }
    }

    /// Name of the mode.
    pub fn display_name(&self) -> (r: &'static str)
        ensures
            r@ == self.label(),
    {
        match self {
            WorkMode::Chat => "CHAT",
            WorkMode::Yolo => "YOLO",
            WorkMode::Plan => "PLAN",
        }
    }
}

/// Configuration of all twenty keys.
#[derive(Debug, Clone)]
pub struct KeyConfig {
    pub keys: [KeyInfo; 20],
}

/// The 60 bytes of a key configuration.
pub open spec fn config_bytes(keys: Seq<KeyInfo>) -> Seq<u8> {
    Seq::new(60, |i: int| keys[i / 3].bytes()[i % 3])
}

/// The key configuration that 60 bytes stand for.
pub open spec fn config_of_bytes(data: Seq<u8>) -> Seq<KeyInfo> {
    Seq::new(
        20,
        |i: int|
            KeyInfo {
                key_class: data[3 * i],
                key_value_l: data[3 * i + 1],
                key_value_h: data[3 * i + 2],
            },
    )
}

/// A key that answers as the AI voice key.
pub open spec fn is_ai_voice_key(key: KeyInfo) -> bool {
    ||| key.key_class == KeyClass::AiVoice.code()
    ||| key.key_class == KeyClass::Media.code() && is_ai_voice_code(key.value())
}

/// The key configuration from the factory: the twelve keys as media keys, the rest zero.
pub open spec fn default_keys() -> Seq<KeyInfo> {
    Seq::new(
        20,
        |i: int|
            if i < ACTIVE_KEY_COUNT {
                KeyInfo {
                    key_class: KeyClass::Media.code(),
                    key_value_l: (default_key_value(i as usize) % 256) as u8,
                    key_value_h: (default_key_value(i as usize) / 256) as u8,
                }
            } else {
                KeyInfo { key_class: 0, key_value_l: 0, key_value_h: 0 }
            },
    )
}

impl KeyConfig {
    /// All bytes zero.
    pub fn new() -> (r: Self)
        ensures
            r.keys@ == Seq::new(
                20,
                |i: int| KeyInfo { key_class: 0, key_value_l: 0, key_value_h: 0 },
            ),
    {
        let zero = KeyInfo::new(0, 0, 0);
        let r = KeyConfig { keys: [zero; 20] };
        assert(r.keys@ =~= Seq::new(
            20,
            |i: int| KeyInfo { key_class: 0, key_value_l: 0, key_value_h: 0 },
        ));
        r
    }

    /// Reads 60 bytes.
    pub fn from_bytes(data: &[u8; 60]) -> (r: Self)
        ensures
            r.keys@ == config_of_bytes(data@),
    {
        let zero = KeyInfo::new(0, 0, 0);
        let mut keys: [KeyInfo; 20] = [zero; 20];
        let mut i: usize = 0;
        while i < KEY_COUNT
            invariant
                i <= 20,
                forall|k: int| 0 <= k < i ==> #[trigger] keys@[k] == config_of_bytes(data@)[k],
            decreases 20 - i,
        {
            keys[i] = KeyInfo::new(data[3 * i], data[3 * i + 1], data[3 * i + 2]);
            i = i + 1;
        }
        assert(keys@ =~= config_of_bytes(data@));
        KeyConfig { keys }
    }

    /// Writes 60 bytes.
    pub fn to_bytes(&self) -> (r: [u8; 60])
        ensures
            r@ == config_bytes(self.keys@),
    {
        let mut data: [u8; 60] = [0; 60];
        let mut i: usize = 0;
        while i < KEY_COUNT
            invariant
                i <= 20,
                forall|k: int| 0 <= k < 3 * i ==> #[trigger] data@[k] == config_bytes(self.keys@)[k],
            decreases 20 - i,
        {
            let key = self.keys[i];
            data[3 * i] = key.key_class;
            data[3 * i + 1] = key.key_value_l;
            data[3 * i + 2] = key.key_value_h;
            proof {
                assert((3 * i) / 3 == i && (3 * i) % 3 == 0);
                assert((3 * i + 1) / 3 == i && (3 * i + 1) % 3 == 1);
                assert((3 * i + 2) / 3 == i && (3 * i + 2) % 3 == 2);
            }
            i = i + 1;
        }
        assert(data@ =~= config_bytes(self.keys@));
        data
    }

    /// The key at a position, if there is one.
    pub fn get_key(&self, index: usize) -> (r: Option<&KeyInfo>)
        ensures
            r == (if index < KEY_COUNT {
                Some(&self.keys@[index as int])
            } else {
                None
            }),
    {
        if index < KEY_COUNT {
            Some(&self.keys[index])
        } else {
            None
        }
    }

    /// Sets the key at a position; refuses a position that does not exist.
    pub fn set_key(&mut self, index: usize, key_info: KeyInfo) -> (r: bool)
        ensures
            r == (index < KEY_COUNT),
            final(self).keys@ == (if r {
                old(self).keys@.update(index as int, key_info)
            } else {
                old(self).keys@
            }),
    {
        if index < KEY_COUNT {
            self.keys[index] = key_info;
            true
        } else {
            false
        }
    }

    /// Disables the key at a position; refuses a position that does not exist.
    pub fn disable_key(&mut self, index: usize) -> (r: bool)
        ensures
            r == (index < KEY_COUNT),
            final(self).keys@ == (if r {
                old(self).keys@.update(
                    index as int,
                    KeyInfo { key_class: KeyClass::Disable.code(), key_value_l: 0, key_value_h: 0 },
                )
            } else {
                old(self).keys@
            }),
    {
        self.set_key(index, KeyInfo::disabled())
    }

    /// Zeroes the positions that the board does not have.
    pub fn clear_unused_keys(&mut self)
        ensures
            final(self).keys@ == Seq::new(
                20,
                |i: int|
                    if i < ACTIVE_KEY_COUNT {
                        old(self).keys@[i]
                    } else {
                        KeyInfo { key_class: 0, key_value_l: 0, key_value_h: 0 }
                    },
            ),
    {
        let ghost before = self.keys@;
        let mut i: usize = ACTIVE_KEY_COUNT;
        while i < KEY_COUNT
            invariant
                12 <= i <= 20,
                before.len() == 20,
                forall|k: int|
                    0 <= k < 20 ==> #[trigger] self.keys@[k] == (if 12 <= k < i {
                        KeyInfo { key_class: 0, key_value_l: 0, key_value_h: 0 }
                    } else {
                        before[k]
                    }),
            decreases 20 - i,
        {
            self.keys[i] = KeyInfo::new(0x00, 0x00, 0x00);
            i = i + 1;
        }
        assert(self.keys@ =~= Seq::new(
            20,
            |i: int|
                if i < ACTIVE_KEY_COUNT {
                    before[i]
                } else {
                    KeyInfo { key_class: 0, key_value_l: 0, key_value_h: 0 }
                },
        ));
    }
}

impl Default for KeyConfig {
    fn default() -> (r: Self)
        ensures
            r.keys@ == default_keys(),
    {
        let mut config = KeyConfig::new();
        let mut i: usize = 0;
        while i < ACTIVE_KEY_COUNT
            invariant
                i <= 12,
                forall|k: int| 0 <= k < i ==> #[trigger] config.keys@[k] == default_keys()[k],
                forall|k: int|
                    i <= k < 20 ==> #[trigger] config.keys@[k] == (KeyInfo {
                        key_class: 0,
                        key_value_l: 0,
                        key_value_h: 0,
                    }),
            decreases 12 - i,
        {
            let value: u16 = get_default_key_value(i);
            config.keys[i] = KeyInfo::new(KeyClass::Media.to_u8(), low_byte(value), high_byte(value));
            i = i + 1;
        }
        assert(config.keys@ =~= default_keys());
        config
    }
}

/// Tells whether one of the twelve keys answers as the AI voice key.
pub fn key_config_has_ai_voice(config: &KeyConfig) -> (r: bool)
    ensures
        r == exists|i: int| 0 <= i < ACTIVE_KEY_COUNT && is_ai_voice_key(#[trigger] config.keys@[i]),
{
    let mut i: usize = 0;
    while i < ACTIVE_KEY_COUNT
        invariant
            i <= 12,
            forall|k: int| 0 <= k < i ==> !is_ai_voice_key(#[trigger] config.keys@[k]),
        decreases 12 - i,
    {
        let key = config.keys[i];
        if key.key_class == KeyClass::AiVoice.to_u8() || key.key_class == KeyClass::Media.to_u8()
            && is_ai_voice_consumer_code(key.key_value()) {
            assert(is_ai_voice_key(config.keys@[i as int]));
            return true;
        }
        i = i + 1;
    }
    false
}

/// A key configuration survives its byte form.
pub proof fn law_key_config_round_trip(keys: Seq<KeyInfo>)
    requires
        keys.len() == 20,
    ensures
        config_of_bytes(config_bytes(keys)) == keys,
{
    let data = config_bytes(keys);
    assert forall|i: int| 0 <= i < 20 implies #[trigger] config_of_bytes(data)[i] == keys[i] by {
        assert((3 * i) / 3 == i && (3 * i) % 3 == 0);
        assert((3 * i + 1) / 3 == i && (3 * i + 1) % 3 == 1);
        assert((3 * i + 2) / 3 == i && (3 * i + 2) % 3 == 2);
        assert(data[3 * i] == keys[i].bytes()[0]);
        assert(data[3 * i + 1] == keys[i].bytes()[1]);
        assert(data[3 * i + 2] == keys[i].bytes()[2]);
    }
    assert(config_of_bytes(data) =~= keys);
}

/// Sixty configuration bytes survive being read.
pub proof fn law_key_config_bytes_round_trip(data: Seq<u8>)
    requires
        data.len() == 60,
    ensures
        config_bytes(config_of_bytes(data)) == data,
{
    assert forall|i: int| 0 <= i < 60 implies #[trigger] config_bytes(config_of_bytes(data))[i]
        == data[i] by {
        let k = i / 3;
        assert(config_of_bytes(data)[k].bytes()[i % 3] == data[i]) by {
            assert(i == 3 * k + i % 3);
        }
    }
    assert(config_bytes(config_of_bytes(data)) =~= data);
}

// ---------------------------------------------------------------- command packets

/// A HID report taken apart.
#[derive(Debug, Clone)]
pub struct HidPacket {
    pub report_id: u8,
    pub cmd: u8,
    pub len: u8,
    pub data: [u8; 61],
}

/// A command report: the output report id, the command, the length and the data, then zeros.
pub open spec fn command(cmd: u8, len: u8, data: Seq<u8>) -> Seq<u8> {
    bytes::padded(seq![REPORT_ID_OUTPUT, cmd, len] + data, 64)
}

/// Bytes of data that a report holds behind its three header bytes.
pub const COMMAND_DATA_LEN: usize = 61;

/// As much of a web address, in UTF-8, as a report holds.
pub open spec fn open_url_data(url: Seq<char>) -> Seq<u8> {
    let text = vstd::utf8::encode_utf8(url);
    if text.len() <= COMMAND_DATA_LEN {
        text
    } else {
        text.take(COMMAND_DATA_LEN as int)
    }
}

/// The bytes that a switch is sent as.
pub open spec fn flag_byte(on: bool) -> u8 {
    if on {
        1
    } else {
        0
    }
}

fn flag_to_byte(on: bool) -> (r: u8)
    ensures
        r == flag_byte(on),
{
    if on {
        1
    } else {
        0
    }
}

/// Bit of a vendor transport in a stream-control request; the other transports have none.
pub open spec fn transport_mask(transport: AudioTransport) -> Option<u8> {
    match transport {
        AudioTransport::UsbVendorHid => Some(0x01),
        AudioTransport::BleGatt => Some(0x02),
        AudioTransport::UsbUac => None,
        AudioTransport::System => None,
    }
}

fn build(cmd: u8, len: u8, data: &[u8]) -> (r: [u8; 64])
    requires
        data@.len() <= 61,
    ensures
        r@ == command(cmd, len, data@),
{
    let mut prefix: Vec<u8> = Vec::with_capacity(64);
    prefix.push(REPORT_ID_OUTPUT);
    prefix.push(cmd);
    prefix.push(len);
    bytes::append_bytes(&mut prefix, data);
    assert(prefix@ =~= seq![REPORT_ID_OUTPUT, cmd, len] + data@);
    packet_of(prefix.as_slice())
}

impl HidPacket {
    pub fn new(report_id: u8, cmd: u8, len: u8, data: [u8; 61]) -> (r: Self)
        ensures
            r == (HidPacket { report_id, cmd, len, data }),
    {
        HidPacket { report_id, cmd, len, data }
    }

    /// Asks for the key configuration.
    pub fn get_key_config() -> (r: [u8; 64])
        ensures
            r@ == command(CMD_GET_KEY_SETTING, 0, Seq::empty()),
    {
        let data: [u8; 0] = [];
        assert(data@ =~= Seq::<u8>::empty());
        build(CMD_GET_KEY_SETTING, 0, &data)
    }

    /// Asks for the device information, battery included.
    pub fn get_device_info() -> (r: [u8; 64])
        ensures
            r@ == command(CMD_GET_DEVICE_INFO, 2, Seq::empty()),
    {
        let data: [u8; 0] = [];
        assert(data@ =~= Seq::<u8>::empty());
        build(CMD_GET_DEVICE_INFO, 2, &data)
    }

    /// Asks for the audio capabilities.
    pub fn get_audio_capabilities() -> (r: [u8; 64])
        ensures
            r@ == command(CMD_AI_GET_AUDIO_CAPABILITIES, 0, Seq::empty()),
    {
        let data: [u8; 0] = [];
        assert(data@ =~= Seq::<u8>::empty());
        build(CMD_AI_GET_AUDIO_CAPABILITIES, 0, &data)
    }

    /// Takes, renews or gives back a stream lease. Only the vendor transports have one.
    pub fn audio_stream_control(
        action: AudioStreamAction,
        transport: AudioTransport,
        scope: AudioStreamScope,
        lease_id: u32,
        ttl_ms: u16,
    ) -> (r: Option<[u8; 64]>)
        ensures
            r is Some <==> transport_mask(transport) is Some,
            r matches Some(p) ==> p@ == command(
                CMD_AI_AUDIO_STREAM_CONTROL,
                10,
                seq![
                    action.code_spec(),
                    transport_mask(transport).unwrap(),
                    scope.code_spec(),
                    AUDIO_PROTOCOL_VERSION,
                ] + bytes::le32_bytes(lease_id) + bytes::le16_bytes(ttl_ms),
            ),
    {
        let mask: u8 = match transport {
            AudioTransport::UsbVendorHid => 0x01,
            AudioTransport::BleGatt => 0x02,
            AudioTransport::UsbUac => {
                return None;
            },
            AudioTransport::System => {
                return None;
            },
        };
        let data: [u8; 10] = [
            action.code(),
            mask,
            scope.code(),
            AUDIO_PROTOCOL_VERSION,
            (lease_id % 256) as u8,
            (lease_id / 256 % 256) as u8,
            (lease_id / 65536 % 256) as u8,
            (lease_id / 16777216) as u8,
            low_byte(ttl_ms),
            high_byte(ttl_ms),
        ];
        assert(data@ =~= seq![action.code_spec(), mask, scope.code_spec(), AUDIO_PROTOCOL_VERSION]
            + bytes::le32_bytes(lease_id) + bytes::le16_bytes(ttl_ms));
        Some(build(CMD_AI_AUDIO_STREAM_CONTROL, 10, &data))
    }

    /// Writes the key configuration.
    pub fn set_key_config(key_data: &[u8; 60]) -> (r: [u8; 64])
        ensures
            r@ == command(CMD_SET_KEY_SETTING, 60, key_data@),
    {
        build(CMD_SET_KEY_SETTING, 60, key_data)
    }

    /// Asks for the silent-record switch.
    pub fn get_silent_record() -> (r: [u8; 64])
        ensures
            r@ == command(CMD_GET_SILENT_RECORD, 0, Seq::empty()),
    {
        let data: [u8; 0] = [];
        assert(data@ =~= Seq::<u8>::empty());
        build(CMD_GET_SILENT_RECORD, 0, &data)
    }

    /// Asks for the work mode: the status command with the work-mode sub-command.
    pub fn get_work_mode() -> (r: [u8; 64])
        ensures
            r@ == command(CMD_STATUS, 4, seq![CMD_WORK_MODE_DATA]),
    {
        let data: [u8; 1] = [CMD_WORK_MODE_DATA];
        assert(data@ =~= seq![CMD_WORK_MODE_DATA]);
        build(CMD_STATUS, 4, &data)
    }

    /// Sets the silent-record switch.
    pub fn set_silent_record(enable: bool) -> (r: [u8; 64])
        ensures
            r@ == command(CMD_SET_SILENT_RECORD, 1, seq![flag_byte(enable)]),
    {
        let data: [u8; 1] = [flag_to_byte(enable)];
        assert(data@ =~= seq![flag_byte(enable)]);
        build(CMD_SET_SILENT_RECORD, 1, &data)
    }

    /// Asks for the sleep timeouts.
    pub fn get_sleep_timeout() -> (r: [u8; 64])
        ensures
            r@ == command(CMD_GET_SLEEP_TIMEOUT, 0, Seq::empty()),
    {
        let data: [u8; 0] = [];
        assert(data@ =~= Seq::<u8>::empty());
        build(CMD_GET_SLEEP_TIMEOUT, 0, &data)
    }

    /// Sets the sleep timeouts.
    pub fn set_sleep_timeout(timeout: SleepTimeout) -> (r: [u8; 64])
        ensures
            r@ == command(
                CMD_SET_SLEEP_TIMEOUT,
                4,
                bytes::le16_bytes(timeout.disconnected) + bytes::le16_bytes(timeout.connected),
            ),
    {
        let data: [u8; 4] = [
            low_byte(timeout.disconnected),
            high_byte(timeout.disconnected),
            low_byte(timeout.connected),
            high_byte(timeout.connected),
        ];
        assert(data@ =~= bytes::le16_bytes(timeout.disconnected) + bytes::le16_bytes(
            timeout.connected,
        ));
        build(CMD_SET_SLEEP_TIMEOUT, 4, &data)
    }

    /// Tells the board whether the host application runs.
    pub fn app_online_notify(online: bool) -> (r: [u8; 64])
        ensures
            r@ == command(CMD_AI_APP_ONLINE_NOTIFY, 1, seq![flag_byte(online)]),
    {
        let data: [u8; 1] = [flag_to_byte(online)];
        assert(data@ =~= seq![flag_byte(online)]);
        build(CMD_AI_APP_ONLINE_NOTIFY, 1, &data)
    }

    /// Asks whether the board takes the host application for running.
    pub fn get_app_online() -> (r: [u8; 64])
        ensures
            r@ == command(CMD_AI_GET_APP_ONLINE, 0, Seq::empty()),
    {
        let data: [u8; 0] = [];
        assert(data@ =~= Seq::<u8>::empty());
        build(CMD_AI_GET_APP_ONLINE, 0, &data)
    }

    /// Asks for the offline web address.
    pub fn get_open_url() -> (r: [u8; 64])
        ensures
            r@ == command(CMD_AI_GET_OPEN_URL, 0, Seq::empty()),
    {
        let data: [u8; 0] = [];
        assert(data@ =~= Seq::<u8>::empty());
        build(CMD_AI_GET_OPEN_URL, 0, &data)
    }

    /// Sets the offline web address. The report holds its first 61 bytes, the rest of a longer one
    /// is left out, and what a shorter one leaves free is zero. The length byte always announces
    /// 64.
    pub fn set_open_url(url: &str) -> (r: [u8; 64])
        ensures
            r@ == command(CMD_AI_SET_OPEN_URL, 0x40, open_url_data(url@)),
            r@[0] == REPORT_ID_OUTPUT && r@[1] == CMD_AI_SET_OPEN_URL && r@[2] == 0x40,
            forall|i: int|
                3 <= i < 64 ==> #[trigger] r@[i] == (if i - 3 < vstd::utf8::encode_utf8(
                    url@,
                ).len() {
                    vstd::utf8::encode_utf8(url@)[i - 3]
                } else {
                    0u8
                }),
    {
        let text: &[u8] = url.as_bytes();
        let copy_len: usize = if text.len() < COMMAND_DATA_LEN {
            text.len()
        } else {
            COMMAND_DATA_LEN
        };
        let data: &[u8] = &text[0..copy_len];
        assert(data@ =~= open_url_data(url@));
        build(CMD_AI_SET_OPEN_URL, 0x40, data)
    }

    /// Enters, renews or leaves the factory key test. Session 0 is refused.
    pub fn factory_key_test_control(enable: bool, session: u16) -> (r: Result<
        [u8; 64],
        BoardError,
    >)
        ensures
            session == 0 ==> (r matches Err(BoardError::Protocol(m)) && m@
                == "工厂按键测试 session 不能为 0"@),
            session != 0 ==> (r matches Ok(p) && p@ == command(
                CMD_AI_FACTORY_KEY_TEST_CONTROL,
                4,
                seq![flag_byte(enable), FACTORY_KEY_TEST_PROTOCOL_VERSION] + bytes::le16_bytes(session),
            )),
    {
        if session == 0 {
            return Err(protocol_error("工厂按键测试 session 不能为 0"));
        }
        let data: [u8; 4] = [
            flag_to_byte(enable),
            FACTORY_KEY_TEST_PROTOCOL_VERSION,
            low_byte(session),
            high_byte(session),
        ];
        assert(data@ =~= seq![flag_byte(enable), FACTORY_KEY_TEST_PROTOCOL_VERSION]
            + bytes::le16_bytes(session));
        Ok(build(CMD_AI_FACTORY_KEY_TEST_CONTROL, 4, &data))
    }

    /// Switches the board off, keeping (1) or clearing (2) its pairing.
    pub fn shutdown(keep_pair: bool) -> (r: [u8; 64])
        ensures
            r@ == command(CMD_AI_SHUTDOWN, 1, seq![if keep_pair { 1u8 } else { 2u8 }]),
    {
        let data: [u8; 1] = [if keep_pair { 1 } else { 2 }];
        assert(data@ =~= seq![if keep_pair { 1u8 } else { 2u8 }]);
        build(CMD_AI_SHUTDOWN, 1, &data)
    }

    /// Takes a report of at least four bytes apart; data beyond 61 bytes is dropped, missing data
    /// is zero.
    pub fn from_bytes(data: &[u8]) -> (r: Option<Self>)
        ensures
            r is Some <==> data@.len() >= 4,
            r matches Some(p) ==> p.report_id == data@[0] && p.cmd == data@[1] && p.len == data@[2]
                && p.data@ == bytes::padded(data@.subrange(3, data@.len() as int), 61),
    {
        if data.len() < 4 {
            return None;
        }
        let mut packet_data: [u8; 61] = [0; 61];
        let available: usize = data.len() - 3;
        let copy_len: usize = if available < 61 { available } else { 61 };
        let mut i: usize = 0;
        while i < copy_len
            invariant
                i <= copy_len <= 61,
                copy_len + 3 <= data@.len(),
                forall|k: int|
                    0 <= k < 61 ==> #[trigger] packet_data@[k] == (if k < i { data@[k + 3] } else { 0u8 }),
            decreases copy_len - i,
        {
            packet_data[i] = data[i + 3];
            i = i + 1;
        }
        assert(packet_data@ =~= bytes::padded(data@.subrange(3, data@.len() as int), 61));
        Some(HidPacket { report_id: data[0], cmd: data[1], len: data[2], data: packet_data })
    }

    /// Tells whether a reply reports success.
    pub fn is_success(&self) -> (r: bool)
        ensures
            r == (self.data@[0] == 0),
    {
        self.data[0] == 0x00
    }
}

/// Asks for the blob chunk at an offset.
pub fn read_bindings_blob_packet(offset: u16) -> (r: [u8; 64])
    ensures
        r@ == command(CMD_AI_READ_BINDINGS_BLOB, 2, bytes::le16_bytes(offset)),
{
    let data: [u8; 2] = [low_byte(offset), high_byte(offset)];
    assert(data@ =~= bytes::le16_bytes(offset));
    build(CMD_AI_READ_BINDINGS_BLOB, 2, &data)
}

/// Writes the blob chunk at an offset.
pub fn write_bindings_blob_packet(offset: u16, chunk: &[u8]) -> (r: [u8; 64])
    requires
        chunk@.len() <= MAX_BLOB_CHUNK,
    ensures
        r@ == command(
            CMD_AI_WRITE_BINDINGS_BLOB,
            (2 + chunk@.len()) as u8,
            bytes::le16_bytes(offset) + chunk@,
        ),
{
    let mut data: Vec<u8> = Vec::with_capacity(58);
    data.push(low_byte(offset));
    data.push(high_byte(offset));
    bytes::append_bytes(&mut data, chunk);
    assert(data@ =~= bytes::le16_bytes(offset) + chunk@);
    build(CMD_AI_WRITE_BINDINGS_BLOB, (2 + chunk.len()) as u8, data.as_slice())
}

/// Commits the blob chunks written before.
pub fn commit_bindings_blob_packet(total_len: u16, crc16: u16) -> (r: [u8; 64])
    ensures
        r@ == command(
            CMD_AI_WRITE_BINDINGS_BLOB,
            6,
            seq![0xFFu8, 0xFFu8] + bytes::le16_bytes(total_len) + bytes::le16_bytes(crc16),
        ),
{
    let data: [u8; 6] = [
        0xFF,
        0xFF,
        low_byte(total_len),
        high_byte(total_len),
        low_byte(crc16),
        high_byte(crc16),
    ];
    assert(data@ =~= seq![0xFFu8, 0xFFu8] + bytes::le16_bytes(total_len) + bytes::le16_bytes(crc16));
    build(CMD_AI_WRITE_BINDINGS_BLOB, 6, &data)
}

// ---------------------------------------------------------------- factory key test

/// Answer to a factory key test request.
#[derive(Debug, Clone, Copy, PartialEq, Eq, Structural)]
pub enum FactoryKeyControlResult {
    Success,
    UnsupportedVersion,
    Busy,
    SessionMismatch,
    InvalidRequest,
}

impl FactoryKeyControlResult {
    /// The answer that a byte stands for, or the text of the refusal.
    pub open spec fn of_code(value: u8) -> Result<FactoryKeyControlResult, Seq<char>> {
        if value == 0 {
            Ok(FactoryKeyControlResult::Success)
        } else if value == 1 {
            Ok(FactoryKeyControlResult::UnsupportedVersion)
        } else if value == 2 {
            Ok(FactoryKeyControlResult::Busy)
        } else if value == 3 {
            Ok(FactoryKeyControlResult::SessionMismatch)
        } else if value == 4 {
            Ok(FactoryKeyControlResult::InvalidRequest)
        } else {
            Err("未知工厂按键测试结果: "@ + text::dec_text(value as nat))
        }
    }

    /// The answer that a byte stands for.
    pub fn from_u8(value: u8) -> (r: Result<Self, BoardError>)
        ensures
            error::protocol_outcome(r, FactoryKeyControlResult::of_code(value)),
    {
        match value {
            0 => Ok(FactoryKeyControlResult::Success),
            1 => Ok(FactoryKeyControlResult::UnsupportedVersion),
            2 => Ok(FactoryKeyControlResult::Busy),
            3 => Ok(FactoryKeyControlResult::SessionMismatch),
            4 => Ok(FactoryKeyControlResult::InvalidRequest),
            _ => Err(protocol_error_dec("未知工厂按键测试结果: ", value as u64)),
        }
    }
}

/// Acknowledgement of a factory key test request.
#[derive(Debug, Clone, Copy, PartialEq, Eq, Structural)]
pub struct FactoryKeyControlAck {
    pub result: FactoryKeyControlResult,
    pub enabled: bool,
    pub session: u16,
}

/// A factory packet without the report id that the USB form carries in front.
pub open spec fn factory_body(data: Seq<u8>) -> Seq<u8> {
    if data.len() > 0 && data[0] == REPORT_ID_INPUT {
        data.subrange(1, data.len() as int)
    } else {
        data
    }
}

/// First byte of a packet, zero for an empty one.
pub open spec fn first_or_zero(data: Seq<u8>) -> u8 {
    if data.len() > 0 {
        data[0]
    } else {
        0
    }
}

/// Text for a packet with another command.
pub open spec fn factory_cmd_text(expected: u8, actual: u8) -> Seq<char> {
    "工厂测试 CMD 不匹配: expected=0x"@ + text::hex_text(expected as nat, 2) + " actual=0x"@
        + text::hex_text(actual as nat, 2)
}

/// Outcome of reading a control acknowledgement for `expected_session`.
pub open spec fn factory_ack(data: Seq<u8>, expected_session: u16) -> Result<
    FactoryKeyControlAck,
    Seq<char>,
> {
    let p = factory_body(data);
    if p.len() == 0 || p[0] != CMD_AI_FACTORY_KEY_TEST_CONTROL {
        Err(factory_cmd_text(CMD_AI_FACTORY_KEY_TEST_CONTROL, first_or_zero(p)))
    } else if p.len() < 7 || p[1] != 0x05 {
        Err("工厂测试控制 ACK 长度无效"@)
    } else if p[3] != FACTORY_KEY_TEST_PROTOCOL_VERSION {
        Err("工厂测试协议版本不匹配: "@ + text::dec_text(p[3] as nat))
    } else if p[4] > 1 {
        Err("工厂测试 ACK enabled 无效"@)
    } else if bytes::le16(p[5], p[6]) != expected_session {
        Err(
            "工厂测试 ACK session 不匹配: expected=0x"@ + text::hex_text(expected_session as nat, 4)
                + " actual=0x"@ + text::hex_text(bytes::le16(p[5], p[6]) as nat, 4),
        )
    } else {
        match FactoryKeyControlResult::of_code(p[2]) {
            Ok(result) => Ok(
                FactoryKeyControlAck { result, enabled: p[4] != 0, session: expected_session },
            ),
            Err(t) => Err(t),
        }
    }
}

/// Outcome of reading a physical-input event, for one session or for any but 0.
pub open spec fn factory_event(data: Seq<u8>, expected_session: Option<u16>) -> Result<
    FactoryKeyEvent,
    Seq<char>,
> {
    let p = factory_body(data);
    let session = bytes::le16(p[3], p[4]);
    if p.len() == 0 || p[0] != CMD_AI_FACTORY_KEY_EVENT {
        Err(factory_cmd_text(CMD_AI_FACTORY_KEY_EVENT, first_or_zero(p)))
    } else if p.len() < 8 || p[1] != 0x06 {
        Err("工厂物理按键事件长度无效"@)
    } else if p[2] != FACTORY_KEY_TEST_PROTOCOL_VERSION {
        Err("工厂物理按键协议版本不匹配: "@ + text::dec_text(p[2] as nat))
    } else if session == 0 || (expected_session is Some && expected_session != Some(session)) {
        Err("工厂物理按键 session 无效: 0x"@ + text::hex_text(session as nat, 4))
    } else if p[5] >= FACTORY_KEY_TEST_INPUT_COUNT {
        Err("工厂物理按键索引越界: "@ + text::dec_text(p[5] as nat))
    } else if p[6] > 1 {
        Err("工厂物理按键 pressed 无效"@)
    } else {
        Ok(
            FactoryKeyEvent {
                session,
                input_index: p[5],
                pressed: p[6] != 0,
                sequence: p[7],
            },
        )
    }
}

fn factory_packet_without_report_id(data: &[u8], expected_cmd: u8) -> (r: Result<&[u8], BoardError>)
    ensures
        ({
            let p = factory_body(data@);
            if p.len() == 0 || p[0] != expected_cmd {
                r matches Err(BoardError::Protocol(m)) && m@ == factory_cmd_text(
                    expected_cmd,
                    first_or_zero(p),
                )
            } else {
                r matches Ok(q) && q@ == p
            }
        }),
{
    let packet: &[u8] = if data.len() > 0 && data[0] == REPORT_ID_INPUT {
        &data[1..data.len()]
    } else {
        data
    };
    assert(packet@ == factory_body(data@));
    if packet.len() == 0 || packet[0] != expected_cmd {
        let actual: u8 = if packet.len() > 0 { packet[0] } else { 0 };
        let mut out: String = "工厂测试 CMD 不匹配: expected=0x".to_string();
        text::append_hex(&mut out, expected_cmd as u64, 2);
        out.append(" actual=0x");
        text::append_hex(&mut out, actual as u64, 2);
        return Err(BoardError::Protocol(out));
    }
    Ok(packet)
}

/// Reads the acknowledgement of a factory key test request, in its USB or GATT form.
pub fn parse_factory_key_control_ack(data: &[u8], expected_session: u16) -> (r: Result<
    FactoryKeyControlAck,
    BoardError,
>)
    ensures
        error::protocol_outcome(r, factory_ack(data@, expected_session)),
{
    let packet: &[u8] = match factory_packet_without_report_id(
        data,
        CMD_AI_FACTORY_KEY_TEST_CONTROL,
    ) {
        Ok(p) => p,
        Err(e) => {
            return Err(e);
        },
    };
    if packet.len() < 7 || packet[1] != 0x05 {
        return Err(protocol_error("工厂测试控制 ACK 长度无效"));
    }
    if packet[3] != FACTORY_KEY_TEST_PROTOCOL_VERSION {
        return Err(protocol_error_dec("工厂测试协议版本不匹配: ", packet[3] as u64));
    }
    if packet[4] > 1 {
        return Err(protocol_error("工厂测试 ACK enabled 无效"));
    }
    let session: u16 = u16_from_le(packet[5], packet[6]);
    if session != expected_session {
        let mut out: String = "工厂测试 ACK session 不匹配: expected=0x".to_string();
        text::append_hex(&mut out, expected_session as u64, 4);
        out.append(" actual=0x");
        text::append_hex(&mut out, session as u64, 4);
        return Err(BoardError::Protocol(out));
    }
    match FactoryKeyControlResult::from_u8(packet[2]) {
        Ok(result) => Ok(FactoryKeyControlAck { result, enabled: packet[4] != 0, session }),
        Err(e) => Err(e),
    }
}

fn parse_factory_key_event_inner(data: &[u8], expected_session: Option<u16>) -> (r: Result<
    FactoryKeyEvent,
    BoardError,
>)
    ensures
        error::protocol_outcome(r, factory_event(data@, expected_session)),
{
    let packet: &[u8] = match factory_packet_without_report_id(data, CMD_AI_FACTORY_KEY_EVENT) {
        Ok(p) => p,
        Err(e) => {
            return Err(e);
        },
    };
    if packet.len() < 8 || packet[1] != 0x06 {
        return Err(protocol_error("工厂物理按键事件长度无效"));
    }
    if packet[2] != FACTORY_KEY_TEST_PROTOCOL_VERSION {
        return Err(protocol_error_dec("工厂物理按键协议版本不匹配: ", packet[2] as u64));
    }
    let session: u16 = u16_from_le(packet[3], packet[4]);
    let foreign: bool = match expected_session {
        Some(expected) => expected != session,
        None => false,
    };
    if session == 0 || foreign {
        let mut out: String = "工厂物理按键 session 无效: 0x".to_string();
        text::append_hex(&mut out, session as u64, 4);
        return Err(BoardError::Protocol(out));
    }
    if packet[5] >= FACTORY_KEY_TEST_INPUT_COUNT {
        return Err(protocol_error_dec("工厂物理按键索引越界: ", packet[5] as u64));
    }
    if packet[6] > 1 {
        return Err(protocol_error("工厂物理按键 pressed 无效"));
    }
    Ok(
        FactoryKeyEvent {
            session,
            input_index: packet[5],
            pressed: packet[6] != 0,
            sequence: packet[7],
        },
    )
}

/// Reads a physical-input event of one session.
pub fn parse_factory_key_event(data: &[u8], expected_session: u16) -> (r: Result<
    FactoryKeyEvent,
    BoardError,
>)
    ensures
        error::protocol_outcome(r, factory_event(data@, Some(expected_session))),
{
    parse_factory_key_event_inner(data, Some(expected_session))
}

/// Reads a physical-input event of any session; the receiver tells sessions apart.
pub fn parse_factory_key_event_unscoped(data: &[u8]) -> (r: Result<FactoryKeyEvent, BoardError>)
    ensures
        error::protocol_outcome(r, factory_event(data@, None)),
{
    parse_factory_key_event_inner(data, None)
}

// ---------------------------------------------------------------- replies

/// A switch in the reply `[cmd, len, result, switch]`.
pub open spec fn switch_reply(body: Seq<u8>, cmd: u8) -> Option<bool> {
    if body.len() >= 4 && body[0] == cmd && body[1] >= 2 && body[2] == 0 {
        Some(body[3] != 0)
    } else {
        None
    }
}

/// Silent-record switch in a HID reply.
pub fn parse_silent_record_hid_response(response: &[u8], expected_cmd: u8) -> (r: Option<bool>)
    ensures
        r == switch_reply(bytes::without_report_id(response@), expected_cmd),
{
    if response.len() < 5 || response[1] != expected_cmd || response[2] < 2 || response[3] != 0 {
        return None;
    }
    Some(response[4] != 0)
}

/// Silent-record switch in a GATT reply.
pub fn parse_silent_record_gatt_response(response: &[u8], expected_cmd: u8) -> (r: Option<bool>)
    ensures
        r == switch_reply(response@, expected_cmd),
{
    if response.len() < 4 || response[0] != expected_cmd || response[1] < 2 || response[2] != 0 {
        return None;
    }
    Some(response[3] != 0)
}

/// Application-online switch in a HID reply.
pub fn parse_app_online_hid_response(response: &[u8], expected_cmd: u8) -> (r: Option<bool>)
    ensures
        r == switch_reply(bytes::without_report_id(response@), expected_cmd),
{
    if response.len() < 5 || response[1] != expected_cmd || response[2] < 2 || response[3] != 0 {
        return None;
    }
    Some(response[4] != 0)
}

/// Application-online switch in a GATT reply.
pub fn parse_app_online_gatt_response(response: &[u8], expected_cmd: u8) -> (r: Option<bool>)
    ensures
        r == switch_reply(response@, expected_cmd),
{
    if response.len() < 4 || response[0] != expected_cmd || response[1] < 2 || response[2] != 0 {
        return None;
    }
    Some(response[3] != 0)
}

/// Capabilities in the reply `[0x6E, 13, 0, protocol, bits u32, envelope, usb max, ble max,
/// default ttl u16, max ttl u16]`.
pub open spec fn capabilities_reply(body: Seq<u8>) -> Option<AudioCapabilities> {
    if body.len() >= 15 && body[0] == CMD_AI_GET_AUDIO_CAPABILITIES && body[1] == 13 && body[2]
        == 0 {
        Some(
            AudioCapabilities::of_bits(
                body[3],
                bytes::le32(body[4], body[5], body[6], body[7]),
                body[8],
                body[9],
                body[10],
                bytes::le16(body[11], body[12]),
                bytes::le16(body[13], body[14]),
            ),
        )
    } else {
        None
    }
}

/// Audio capabilities in a HID reply.
pub fn parse_audio_capabilities_hid_response(response: &[u8]) -> (r: Option<AudioCapabilities>)
    ensures
        r == (if response@.len() > 0 && response@[0] == REPORT_ID_INPUT {
            capabilities_reply(bytes::without_report_id(response@))
        } else {
            None
        }),
{
    if response.len() < 16 || response[0] != REPORT_ID_INPUT || response[1]
        != CMD_AI_GET_AUDIO_CAPABILITIES || response[2] != 13 || response[3] != 0 {
        return None;
    }
    parse_audio_capabilities_payload(&response[4..16])
}

/// Audio capabilities in a GATT reply.
pub fn parse_audio_capabilities_gatt_response(response: &[u8]) -> (r: Option<AudioCapabilities>)
    ensures
        r == capabilities_reply(response@),
{
    if response.len() < 15 || response[0] != CMD_AI_GET_AUDIO_CAPABILITIES || response[1] != 13
        || response[2] != 0 {
        return None;
    }
    parse_audio_capabilities_payload(&response[3..15])
}

fn parse_audio_capabilities_payload(payload: &[u8]) -> (r: Option<AudioCapabilities>)
    ensures
        r == (if payload@.len() < 12 {
            None
        } else {
            Some(
                AudioCapabilities::of_bits(
                    payload@[0],
                    bytes::le32(payload@[1], payload@[2], payload@[3], payload@[4]),
                    payload@[5],
                    payload@[6],
                    payload@[7],
                    bytes::le16(payload@[8], payload@[9]),
                    bytes::le16(payload@[10], payload@[11]),
                ),
            )
        }),
{
    if payload.len() < 12 {
        return None;
    }
    let bits: u32 = u32_from_le(payload[1], payload[2], payload[3], payload[4]);
    Some(
        AudioCapabilities::from_bits(
            payload[0],
            bits,
            payload[5],
            payload[6],
            payload[7],
            u16_from_le(payload[8], payload[9]),
            u16_from_le(payload[10], payload[11]),
        ),
    )
}

/// Transport that a byte of a stream reply names; the outer `None` marks an unknown byte.
pub open spec fn reply_transport(b: u8) -> Option<Option<AudioTransport>> {
    if b == 0 {
        Some(None)
    } else if b == 1 {
        Some(Some(AudioTransport::UsbVendorHid))
    } else if b == 2 {
        Some(Some(AudioTransport::BleGatt))
    } else {
        None
    }
}

/// Scope that a byte of a stream reply names; the outer `None` marks an unknown byte.
pub open spec fn reply_scope(b: u8) -> Option<Option<AudioStreamScope>> {
    if b == 0 {
        Some(None)
    } else if b == 1 {
        Some(Some(AudioStreamScope::Session))
    } else if b == 2 {
        Some(Some(AudioStreamScope::Timeline))
    } else {
        None
    }
}

/// Lease state in the reply `[0x6F, 10, result, version, transport, scope, lease u32, ttl u16]`.
pub open spec fn stream_reply(body: Seq<u8>) -> Option<AudioStreamState> {
    if body.len() >= 12 && body[0] == CMD_AI_AUDIO_STREAM_CONTROL && body[1] == 10 {
        match (AudioStreamResult::of_code(body[2]), reply_transport(body[4]), reply_scope(body[5])) {
            (Some(result), Some(active_transport), Some(scope)) => Some(
                AudioStreamState {
                    result,
                    protocol_version: body[3],
                    active_transport,
                    scope,
                    lease_id: bytes::le32(body[6], body[7], body[8], body[9]),
                    ttl_ms: bytes::le16(body[10], body[11]),
                },
            ),
            _ => None,
        }
    } else {
        None
    }
}

/// Lease state in a HID reply.
pub fn parse_audio_stream_hid_response(response: &[u8]) -> (r: Option<AudioStreamState>)
    ensures
        r == (if response@.len() > 0 && response@[0] == REPORT_ID_INPUT {
            stream_reply(bytes::without_report_id(response@))
        } else {
            None
        }),
{
    if response.len() < 13 || response[0] != REPORT_ID_INPUT || response[1]
        != CMD_AI_AUDIO_STREAM_CONTROL || response[2] != 10 {
        return None;
    }
    parse_audio_stream_payload(response[3], &response[4..13])
}

/// Lease state in a GATT reply.
pub fn parse_audio_stream_gatt_response(response: &[u8]) -> (r: Option<AudioStreamState>)
    ensures
        r == stream_reply(response@),
{
    if response.len() < 12 || response[0] != CMD_AI_AUDIO_STREAM_CONTROL || response[1] != 10 {
        return None;
    }
    parse_audio_stream_payload(response[2], &response[3..12])
}

fn parse_audio_stream_payload(result: u8, payload: &[u8]) -> (r: Option<AudioStreamState>)
    requires
        payload@.len() == 9,
    ensures
        r == stream_reply(seq![CMD_AI_AUDIO_STREAM_CONTROL, 10u8, result] + payload@),
{
    let result: AudioStreamResult = match AudioStreamResult::try_from(result) {
        Ok(v) => v,
        Err(_) => {
            return None;
        },
    };
    let active_transport: Option<AudioTransport> = match payload[1] {
        0 => None,
        1 => Some(AudioTransport::UsbVendorHid),
        2 => Some(AudioTransport::BleGatt),
        _ => {
            return None;
        },
    };
    let scope: Option<AudioStreamScope> = match payload[2] {
        0 => None,
        1 => Some(AudioStreamScope::Session),
        2 => Some(AudioStreamScope::Timeline),
        _ => {
            return None;
        },
    };
    Some(
        AudioStreamState {
            result,
            protocol_version: payload[0],
            active_transport,
            scope,
            lease_id: u32_from_le(payload[3], payload[4], payload[5], payload[6]),
            ttl_ms: u16_from_le(payload[7], payload[8]),
        },
    )
}

/// What a report that was read is, to a host that waits for the reply to a command. Audio and
/// commands share one HID interface, so replies have to be picked out of the audio stream.
#[derive(Debug, Clone, Copy, PartialEq, Eq, Structural)]
pub enum CommandReportKind {
    /// The reply to the command.
    Match,
    /// The reply to another command.
    OtherCommand,
    /// No command reply at all.
    NotCommand,
}

/// Sorts a report that was read while waiting for the reply to `expected_cmd`.
pub fn classify_command_report(report: &[u8], expected_cmd: u8) -> (r: CommandReportKind)
    ensures
        r == (if report@.len() < 2 || report@[0] != REPORT_ID_INPUT {
            CommandReportKind::NotCommand
        } else if report@[1] == expected_cmd {
            CommandReportKind::Match
        } else {
            CommandReportKind::OtherCommand
        }),
{
    if report.len() < 2 || report[0] != REPORT_ID_INPUT {
        return CommandReportKind::NotCommand;
    }
    if report[1] == expected_cmd {
        CommandReportKind::Match
    } else {
        CommandReportKind::OtherCommand
    }
}

/// The flag byte of an audio envelope: audio data, perhaps after a break, and nothing else.
pub open spec fn audio_flags_ok(flags: u8) -> bool {
    flags == AUDIO_FLAG_DATA || flags == AUDIO_FLAG_DATA + AUDIO_FLAG_DISCONTINUITY
}

/// Tells whether an envelope's flag byte announces audio data and nothing unknown.
pub fn are_audio_flags_ok(flags: u8) -> (r: bool)
    ensures
        r == audio_flags_ok(flags),
{
    assert((flags & 0x01 == 0 || flags & !(0x01u8 | 0x02u8) != 0) <==> !(flags == 1 || flags == 3))
        by (bit_vector);
    !(flags & AUDIO_FLAG_DATA == 0 || flags & !(AUDIO_FLAG_DATA | AUDIO_FLAG_DISCONTINUITY) != 0)
}

/// Audio packet in a USB report `[0xB1, version, flags, sequence u16, length, payload]`.
pub open spec fn usb_audio_packet(report: Seq<u8>) -> Option<PacketView> {
    if report.len() == PACKET_SIZE && report[0] == REPORT_ID_AUDIO && report[1]
        == AUDIO_ENVELOPE_VERSION && audio_flags_ok(report[2]) && report[5] == MSBC_FRAME_SIZE {
        Some(
            PacketView {
                payload: report.subrange(6, 6 + report[5]),
                transport: AudioTransport::UsbVendorHid,
                sequence: Some(bytes::le16(report[3], report[4])),
                device_discontinuity: report[2] == AUDIO_FLAG_DATA + AUDIO_FLAG_DISCONTINUITY,
            },
        )
    } else {
        None
    }
}

/// Audio packet in a USB report; exactly one frame fits.
pub fn parse_usb_audio_report(report: &[u8]) -> (r: Option<EncodedAudioPacket<'_>>)
    ensures
        match r {
            Some(p) => usb_audio_packet(report@) == Some(p@),
            None => usb_audio_packet(report@) is None,
        },
{
    if report.len() != PACKET_SIZE || report[0] != REPORT_ID_AUDIO || report[1]
        != AUDIO_ENVELOPE_VERSION || !are_audio_flags_ok(report[2]) {
        return None;
    }
    let payload_len: usize = report[5] as usize;
    if payload_len == 0 || payload_len > MSBC_FRAME_SIZE || payload_len % MSBC_FRAME_SIZE != 0 {
        return None;
    }
    Some(
        EncodedAudioPacket {
            payload: &report[6..6 + payload_len],
            transport: AudioTransport::UsbVendorHid,
            sequence: Some(u16_from_le(report[3], report[4])),
            device_discontinuity: report[2] == AUDIO_FLAG_DATA + AUDIO_FLAG_DISCONTINUITY,
        },
    )
}

/// Work mode in the reply `[0x12, len, 0xC9, mode]`. The status command carries several replies,
/// so the sub-command has to match too.
pub open spec fn work_mode_reply(body: Seq<u8>) -> Option<WorkMode> {
    if body.len() >= 4 && body[0] == CMD_STATUS && body[2] == CMD_WORK_MODE_DATA {
        WorkMode::of_code(body[3])
    } else {
        None
    }
}

/// Work mode in a HID reply.
pub fn parse_work_mode_hid_response(response: &[u8]) -> (r: Option<WorkMode>)
    ensures
        r == work_mode_reply(bytes::without_report_id(response@)),
{
    if response.len() < 5 || response[1] != CMD_STATUS || response[3] != CMD_WORK_MODE_DATA {
        return None;
    }
    WorkMode::from_u8(response[4])
}

/// Work mode in a GATT reply.
pub fn parse_work_mode_gatt_response(response: &[u8]) -> (r: Option<WorkMode>)
    ensures
        r == work_mode_reply(response@),
{
    if response.len() < 4 || response[0] != CMD_STATUS || response[2] != CMD_WORK_MODE_DATA {
        return None;
    }
    WorkMode::from_u8(response[3])
}

/// Sleep timeouts in the reply `[cmd, len, result, disconnected u16, connected u16]`.
pub open spec fn sleep_timeout_reply(body: Seq<u8>, cmd: u8) -> Option<SleepTimeout> {
    if body.len() >= 7 && body[0] == cmd && body[1] >= 5 && body[2] == 0 {
        Some(
            SleepTimeout {
                disconnected: bytes::le16(body[3], body[4]),
                connected: bytes::le16(body[5], body[6]),
            },
        )
    } else {
        None
    }
}

/// Sleep timeouts in a HID reply.
pub fn parse_sleep_timeout_hid_response(response: &[u8], expected_cmd: u8) -> (r: Option<
    SleepTimeout,
>)
    ensures
        r == sleep_timeout_reply(bytes::without_report_id(response@), expected_cmd),
{
    if response.len() < 8 || response[1] != expected_cmd || response[2] < 5 || response[3] != 0 {
        return None;
    }
    let disconnected: u16 = u16_from_le(response[4], response[5]);
    let connected: u16 = u16_from_le(response[6], response[7]);
    Some(SleepTimeout::new(disconnected, connected))
}

/// Sleep timeouts in a GATT reply.
pub fn parse_sleep_timeout_gatt_response(response: &[u8], expected_cmd: u8) -> (r: Option<
    SleepTimeout,
>)
    ensures
        r == sleep_timeout_reply(response@, expected_cmd),
{
    if response.len() < 7 || response[0] != expected_cmd || response[1] < 5 || response[2] != 0 {
        return None;
    }
    let disconnected: u16 = u16_from_le(response[3], response[4]);
    let connected: u16 = u16_from_le(response[5], response[6]);
    Some(SleepTimeout::new(disconnected, connected))
}

/// Number of bytes of `b` before the first zero, from position `from` on.
pub open spec fn nul_position(b: Seq<u8>, from: int) -> int
    decreases b.len() - from,
{
    if from >= b.len() || b[from] == 0 {
        from
    } else {
        nul_position(b, from + 1)
    }
}

/// The bytes of `b` before the first zero.
pub open spec fn until_nul(b: Seq<u8>) -> Seq<u8> {
    b.subrange(0, nul_position(b, 0))
}

/// Bytes of the web address in the reply `[cmd, len, result, address...]`.
pub open spec fn url_reply(body: Seq<u8>, cmd: u8) -> Option<Seq<u8>> {
    if body.len() >= 4 && body[0] == cmd && body[2] == 0 {
        Some(until_nul(body.subrange(3, body.len() as int)))
    } else {
        None
    }
}

/// Bytes before the first zero.
pub fn bytes_until_nul(b: &[u8]) -> (r: &[u8])
    ensures
        r@ == until_nul(b@),
{
    let mut end: usize = 0;
    while end < b.len() && b[end] != 0
        invariant
            end <= b@.len(),
            nul_position(b@, 0) == nul_position(b@, end as int),
        decreases b@.len() - end,
    {
        end = end + 1;
    }
    &b[0..end]
}

/// Bytes of the web address in a GATT reply.
pub fn open_url_bytes(response: &[u8], expected_cmd: u8) -> (r: Option<&[u8]>)
    ensures
        match r {
            Some(b) => url_reply(response@, expected_cmd) == Some(b@),
            None => url_reply(response@, expected_cmd) is None,
        },
{
    if response.len() < 4 || response[0] != expected_cmd || response[2] != 0 {
        return None;
    }
    Some(bytes_until_nul(&response[3..response.len()]))
}

/// Web address in a HID reply.
pub fn parse_open_url_hid_response(response: &[u8], expected_cmd: u8) -> (r: Option<String>)
    ensures
        match url_reply(bytes::without_report_id(response@), expected_cmd) {
            Some(b) => r matches Some(s) && s@ == text::utf8_lossy_text(b) && (
            vstd::utf8::valid_utf8(b) ==> s@ == vstd::utf8::decode_utf8(b)),
            None => r is None,
        },
{
    if response.len() < 5 {
        return None;
    }
    match open_url_bytes(&response[1..response.len()], expected_cmd) {
        Some(b) => Some(text::text_from_utf8_lossy(b)),
        None => None,
    }
}

/// Web address in a GATT reply.
pub fn parse_open_url_gatt_response(response: &[u8], expected_cmd: u8) -> (r: Option<String>)
    ensures
        match url_reply(response@, expected_cmd) {
            Some(b) => r matches Some(s) && s@ == text::utf8_lossy_text(b) && (
            vstd::utf8::valid_utf8(b) ==> s@ == vstd::utf8::decode_utf8(b)),
            None => r is None,
        },
{
    match open_url_bytes(response, expected_cmd) {
        Some(b) => Some(text::text_from_utf8_lossy(b)),
        None => None,
    }
}

// ---------------------------------------------------------------- laws of the formats

/// A command report is [0x0B, command, length, data], filled up with zeros to 64 bytes.
pub proof fn law_a_command_is_laid_out_like_this(cmd: u8, len: u8, data: Seq<u8>)
    requires
        data.len() <= 61,
    ensures
        ({
            let r = command(cmd, len, data);
            &&& r.len() == 64
            &&& r[0] == 0x0B && r[1] == cmd && r[2] == len
            &&& r.subrange(3, 3 + data.len() as int) == data
            &&& forall|i: int| 3 + data.len() <= i < 64 ==> #[trigger] r[i] == 0
        }),
{
    assert(command(cmd, len, data).subrange(3, 3 + data.len() as int) =~= data);
}

/// A key configuration stores its keys one after another, from the first, three bytes each: the
/// class, then the value with the low byte first.
pub proof fn law_a_key_configuration_is_laid_out_like_this(keys: Seq<KeyInfo>, data: Seq<u8>, i: int)
    requires
        keys.len() == 20,
        data.len() == 60,
        0 <= i < 20,
    ensures
        config_bytes(keys).len() == 60,
        config_bytes(keys)[3 * i] == keys[i].key_class,
        config_bytes(keys)[3 * i + 1] == keys[i].key_value_l,
        config_bytes(keys)[3 * i + 2] == keys[i].key_value_h,
        config_of_bytes(data).len() == 20,
        config_of_bytes(data)[i].key_class == data[3 * i],
        config_of_bytes(data)[i].key_value_l == data[3 * i + 1],
        config_of_bytes(data)[i].key_value_h == data[3 * i + 2],
        keys[i].value() == keys[i].key_value_l + 256 * keys[i].key_value_h,
{
    assert((3 * i) / 3 == i && (3 * i) % 3 == 0);
    assert((3 * i + 1) / 3 == i && (3 * i + 1) % 3 == 1);
    assert((3 * i + 2) / 3 == i && (3 * i + 2) % 3 == 2);
}

/// In the factory configuration every one of the twelve keys is a media key whose code leads back
/// to it, the positions behind them are zero, and the key at position 6 is the voice key.
pub proof fn law_the_factory_configuration_names_every_key(i: int)
    requires
        0 <= i < 20,
    ensures
        default_keys().len() == 20,
        i < 12 ==> default_keys()[i].key_class == 0x0A && key_index_of_value(
            default_keys()[i].value(),
        ) == Some(i as usize),
        i >= 12 ==> default_keys()[i] == (KeyInfo { key_class: 0, key_value_l: 0, key_value_h: 0 }),
        is_ai_voice_key(default_keys()[i]) <==> i == 6,
{
}

/// The consumer codes of the keys: 0x0F01 to 0x0F06 are the keys 3 to 8, 0x0F07 to 0x0F09 the knob
/// and its press, 0x0F0A to 0x0F0C the lever; no other code is a key.
pub proof fn law_consumer_codes_stand_for_keys(value: u16)
    ensures
        key_index_of_value(value) == (if value == 0x0F01 {
            Some(3usize)
        } else if value == 0x0F02 {
            Some(4usize)
        } else if value == 0x0F03 {
            Some(5usize)
        } else if value == 0x0F04 {
            Some(6usize)
        } else if value == 0x0F05 {
            Some(7usize)
        } else if value == 0x0F06 {
            Some(8usize)
        } else if value == 0x0F07 {
            Some(0usize)
        } else if value == 0x0F08 {
            Some(1usize)
        } else if value == 0x0F09 {
            Some(2usize)
        } else if value == 0x0F0A {
            Some(9usize)
        } else if value == 0x0F0B {
            Some(10usize)
        } else if value == 0x0F0C {
            Some(11usize)
        } else {
            None
        }),
        is_ai_voice_code(value) <==> value == 0x0F04 || value == 0x0F99,
{
}

/// Which positions are knob phases and which the lever, with the lever's modes.
pub proof fn law_positions_have_these_meanings(k: usize)
    ensures
        is_knob_pulse(k) <==> k == 0 || k == 1,
        mode_of_key(9) == Some((1u8, "YOLO"@)),
        mode_of_key(10) == Some((2u8, "PLAN"@)),
        mode_of_key(11) == Some((0u8, "CHAT"@)),
        k < 9 || k > 11 ==> mode_of_key(k) is None,
        WorkMode::Chat.label() == "CHAT"@ && WorkMode::Yolo.label() == "YOLO"@
            && WorkMode::Plan.label() == "PLAN"@,
{
}

/// A key answers as the voice key when its class says so, or when it is a media key with one of
/// the voice codes.
pub proof fn law_a_voice_key_says_so(key: KeyInfo)
    ensures
        is_ai_voice_key(key) <==> key.key_class == 0x0E || key.key_class == 0x0A && (
        key.key_value_l == 0x04 && key.key_value_h == 0x0F || key.key_value_l == 0x99
            && key.key_value_h == 0x0F),
{
}

/// A switch is answered by [command, at least 2, 0, switch].
pub proof fn law_a_switch_reply_is_read_like_this(body: Seq<u8>, cmd: u8)
    ensures
        switch_reply(body, cmd) is Some <==> body.len() >= 4 && body[0] == cmd && body[1] >= 2
            && body[2] == 0,
        switch_reply(body, cmd) matches Some(on) ==> on == (body[3] != 0),
{
}

/// Capabilities are answered by [0x6E, 13, 0] and twelve bytes: protocol, four bytes of feature
/// bits, envelope, the rooms over USB and BLE, and the default and longest lease.
pub proof fn law_a_capability_reply_is_read_like_this(body: Seq<u8>)
    ensures
        capabilities_reply(body) is Some <==> body.len() >= 15 && body[0] == 0x6E && body[1] == 13
            && body[2] == 0,
        capabilities_reply(body) matches Some(c) ==> {
            let bits = (body[4] + 256 * body[5] + 65536 * body[6] + 16777216 * body[7]) as u32;
            &&& c.protocol_version == body[3]
            &&& c.usb_vendor_hid_msbc_v1 == (bits & 1 != 0)
            &&& c.ble_gatt_msbc_v1 == (bits & 2 != 0)
            &&& c.stream_control_v1 == (bits & 4 != 0)
            &&& c.packet_sequence_v1 == (bits & 8 != 0)
            &&& c.envelope_version == body[8]
            &&& c.usb_max_payload == body[9]
            &&& c.ble_max_payload == body[10]
            &&& c.default_ttl_ms == body[11] + 256 * body[12]
            &&& c.max_ttl_ms == body[13] + 256 * body[14]
        },
{
}

/// A lease is answered by [0x6F, 10, result, version, transport, scope, lease, time to live], and
/// only known results, transports and scopes are taken.
pub proof fn law_a_stream_reply_is_read_like_this(body: Seq<u8>)
    ensures
        stream_reply(body) is Some <==> body.len() >= 12 && body[0] == 0x6F && body[1] == 10
            && body[2] <= 5 && body[4] <= 2 && body[5] <= 2,
        stream_reply(body) matches Some(s) ==> {
            &&& Some(s.result) == AudioStreamResult::of_code(body[2])
            &&& s.protocol_version == body[3]
            &&& s.active_transport == (if body[4] == 0 {
                None
            } else if body[4] == 1 {
                Some(AudioTransport::UsbVendorHid)
            } else {
                Some(AudioTransport::BleGatt)
            })
            &&& s.scope == (if body[5] == 0 {
                None
            } else if body[5] == 1 {
                Some(AudioStreamScope::Session)
            } else {
                Some(AudioStreamScope::Timeline)
            })
            &&& s.lease_id == body[6] + 256 * body[7] + 65536 * body[8] + 16777216 * body[9]
            &&& s.ttl_ms == body[10] + 256 * body[11]
        },
        transport_mask(AudioTransport::UsbVendorHid) == Some(1u8),
        transport_mask(AudioTransport::BleGatt) == Some(2u8),
        transport_mask(AudioTransport::UsbUac) is None,
        transport_mask(AudioTransport::System) is None,
{
}

/// A USB audio report gives back its one frame, its number and its break mark; whatever is not
/// exactly such a report gives nothing.
pub proof fn law_a_usb_audio_report_gives_back_its_frame(report: Seq<u8>)
    ensures
        usb_audio_packet(report) is Some <==> report.len() == 64 && report[0] == 0xB1 && report[1]
            == 1 && (report[2] == 1 || report[2] == 3) && report[5] == 57,
        usb_audio_packet(report) matches Some(p) ==> p.payload == report.subrange(6, 63)
            && p.transport == AudioTransport::UsbVendorHid && p.sequence == Some(
            (report[3] + 256 * report[4]) as u16,
        ) && p.device_discontinuity == (report[2] == 3),
{
}

/// The work mode is answered by [0x12, length, 0xC9, mode]; each mode has its codes.
pub proof fn law_a_work_mode_reply_is_read_like_this(body: Seq<u8>)
    ensures
        ({
            let shaped = body.len() >= 4 && body[0] == 0x12 && body[2] == 0xC9;
            let m = body[3];
            &&& work_mode_reply(body) == Some(WorkMode::Chat) <==> shaped && (m == 0 || m == 0x0C)
            &&& work_mode_reply(body) == Some(WorkMode::Yolo) <==> shaped && (m == 1 || m == 0x0A)
            &&& work_mode_reply(body) == Some(WorkMode::Plan) <==> shaped && (m == 2 || m == 0x0B
                || m == 0x0F)
        }),
{
}

/// Sleep timeouts are answered by [command, at least 5, 0, disconnected, connected], and what was
/// set is what an answer with the same bytes gives back.
pub proof fn law_a_sleep_timeout_reply_is_read_like_this(body: Seq<u8>, cmd: u8, timeout: SleepTimeout)
    ensures
        sleep_timeout_reply(body, cmd) is Some <==> body.len() >= 7 && body[0] == cmd && body[1] >= 5
            && body[2] == 0,
        sleep_timeout_reply(body, cmd) matches Some(t) ==> t.disconnected == body[3] + 256 * body[4]
            && t.connected == body[5] + 256 * body[6],
        sleep_timeout_reply(
            seq![cmd, 5u8, 0u8] + bytes::le16_bytes(timeout.disconnected) + bytes::le16_bytes(
                timeout.connected,
            ),
            cmd,
        ) == Some(timeout),
{
}

/// The bytes before the first zero: none of them is zero, and they end at a zero or at the end.
pub proof fn law_text_ends_at_the_first_zero(b: Seq<u8>)
    ensures
        ({
            let t = until_nul(b);
            &&& t.len() <= b.len()
            &&& t == b.subrange(0, t.len() as int)
            &&& forall|i: int| 0 <= i < t.len() ==> #[trigger] t[i] != 0
            &&& t.len() == b.len() || b[t.len() as int] == 0
        }),
{
    lemma_nul_position(b, 0);
}

proof fn lemma_nul_position(b: Seq<u8>, from: int)
    requires
        0 <= from <= b.len(),
    ensures
        from <= nul_position(b, from) <= b.len(),
        forall|i: int| from <= i < nul_position(b, from) ==> #[trigger] b[i] != 0,
        nul_position(b, from) == b.len() || b[nul_position(b, from)] == 0,
    decreases b.len() - from,
{
    if from < b.len() && b[from] != 0 {
        lemma_nul_position(b, from + 1);
    }
}

/// A web address is answered by [command, length, 0, address, zero...]: an address without a zero
/// comes back whole, with or without a zero and more behind it.
pub proof fn law_a_web_address_reply_gives_back_the_address(
    cmd: u8,
    len: u8,
    address: Seq<u8>,
    behind: Seq<u8>,
    failure: u8,
)
    requires
        forall|i: int| 0 <= i < address.len() ==> #[trigger] address[i] != 0,
        failure != 0,
    ensures
        url_reply(seq![cmd, len, 0u8] + address + (seq![0u8] + behind), cmd) == Some(address),
        address.len() > 0 ==> url_reply(seq![cmd, len, 0u8] + address, cmd) == Some(address),
        url_reply(seq![cmd, len, failure] + address, cmd) is None,
{
    let body = seq![cmd, len, 0u8] + address + (seq![0u8] + behind);
    let rest = body.subrange(3, body.len() as int);
    assert(rest =~= address + (seq![0u8] + behind));
    law_text_ends_at_the_first_zero(rest);
    assert(rest[address.len() as int] == 0);
    let t = until_nul(rest);
    if t.len() > address.len() {
        assert(t[address.len() as int] == rest[address.len() as int]);
    }
    if t.len() < address.len() {
        assert(rest[t.len() as int] == address[t.len() as int]);
    }
    assert(t =~= address);
    let short = seq![cmd, len, 0u8] + address;
    let tail = short.subrange(3, short.len() as int);
    assert(tail =~= address);
    law_text_ends_at_the_first_zero(tail);
    let u = until_nul(tail);
    if u.len() < address.len() {
        assert(tail[u.len() as int] == address[u.len() as int]);
    }
    assert(u =~= address);
}

/// An acknowledgement of the factory key test is [0x6C, 5, result, 1, enabled, session], with or
/// without the report id in front, and is taken only for the session that asked.
pub proof fn law_a_factory_acknowledgement_is_read_like_this(p: Seq<u8>, session: u16)
    requires
        p.len() == 0 || p[0] != 0x0A,
    ensures
        factory_ack(seq![0x0Au8] + p, session) == factory_ack(p, session),
        factory_ack(p, session) is Ok <==> p.len() >= 7 && p[0] == 0x6C && p[1] == 5 && p[2] <= 4
            && p[3] == 1 && p[4] <= 1 && p[5] + 256 * p[6] == session,
        factory_ack(p, session) matches Ok(a) ==> {
            &&& a.enabled == (p[4] == 1)
            &&& a.session == session
            &&& p[2] == 0 ==> a.result == FactoryKeyControlResult::Success
            &&& p[2] == 1 ==> a.result == FactoryKeyControlResult::UnsupportedVersion
            &&& p[2] == 2 ==> a.result == FactoryKeyControlResult::Busy
            &&& p[2] == 3 ==> a.result == FactoryKeyControlResult::SessionMismatch
            &&& p[2] == 4 ==> a.result == FactoryKeyControlResult::InvalidRequest
        },
{
    assert((seq![0x0Au8] + p).subrange(1, 1 + p.len() as int) =~= p);
}

/// A factory key event is [0x6D, 6, 1, session, input, pressed, sequence], with or without the
/// report id in front: one of twelve inputs, of a session that is not 0 and, where one is expected,
/// of that one.
pub proof fn law_a_factory_event_is_read_like_this(p: Seq<u8>, expected: Option<u16>)
    requires
        p.len() == 0 || p[0] != 0x0A,
    ensures
        factory_event(seq![0x0Au8] + p, expected) == factory_event(p, expected),
        factory_event(p, expected) is Ok <==> p.len() >= 8 && p[0] == 0x6D && p[1] == 6 && p[2] == 1
            && p[3] + 256 * p[4] != 0 && (expected is None || expected == Some(
            (p[3] + 256 * p[4]) as u16,
        )) && p[5] < 12 && p[6] <= 1,
        factory_event(p, expected) matches Ok(e) ==> e.session == p[3] + 256 * p[4] && e.input_index
            == p[5] && e.pressed == (p[6] == 1) && e.sequence == p[7],
{
    assert((seq![0x0Au8] + p).subrange(1, 1 + p.len() as int) =~= p);
}

/// A switch is sent as one for on and zero for off.
pub proof fn law_a_switch_is_one_or_zero(on: bool)
    ensures
        flag_byte(on) == 1 <==> on,
        flag_byte(on) == 0 <==> !on,
{
}

/// A web address is sent from its beginning, as UTF-8, and cut behind 61 bytes.
pub proof fn law_a_web_address_is_cut_at_the_end(url: Seq<char>)
    ensures
        ({
            let whole = vstd::utf8::encode_utf8(url);
            let sent = open_url_data(url);
            &&& sent.len() == (if whole.len() <= 61 {
                whole.len()
            } else {
                61
            })
            &&& sent == whole.subrange(0, sent.len() as int)
        }),
{
    let whole = vstd::utf8::encode_utf8(url);
    assert(open_url_data(url) =~= whole.subrange(0, open_url_data(url).len() as int));
}

/// An audio envelope has the data flag, perhaps the mark of a break, and no other.
pub proof fn law_audio_flags_are_one_or_three(flags: u8)
    ensures
        audio_flags_ok(flags) <==> flags == 1 || flags == 3,
{
}

/// A factory packet reads the same with the report id in front and without it.
pub proof fn law_a_factory_packet_reads_the_same_on_both_transports(packet: Seq<u8>)
    requires
        packet.len() > 0,
        packet[0] != 0x0A,
    ensures
        factory_body(seq![0x0Au8] + packet) == packet,
        factory_body(packet) == packet,
{
    let whole = seq![0x0Au8] + packet;
    assert(whole.subrange(1, whole.len() as int) =~= packet);
}

/// A factory packet with another command is told with both commands, the expected one first; an
/// empty packet counts as command zero.
pub proof fn law_a_foreign_factory_command_is_told(data: Seq<u8>, expected: u8, actual: u8)
    ensures
        factory_cmd_text(expected, actual) == "工厂测试 CMD 不匹配: expected=0x"@ + text::hex_text(
            expected as nat,
            2,
        ) + " actual=0x"@ + text::hex_text(actual as nat, 2),
        data.len() > 0 ==> first_or_zero(data) == data[0],
        data.len() == 0 ==> first_or_zero(data) == 0,
{
}

} // verus!
