//! Errors of the library, split by where they come from.

use vstd::prelude::*;
use super::text;

verus! {

/// Anything that can go wrong between the host and the board.
#[derive(Debug, Clone)]
pub enum BoardError {
    /// A plain message.
    Msg(String),
    /// An error of another library, by its text.
    Other(String),
    /// A USB HID operation failed.
    Hid(String),
    /// A BLE GATT operation failed.
    Ble(String),
    /// An I/O operation failed.
    Io(String),
    /// No reply came in time.
    Timeout(String),
    /// A reply broke the protocol.
    Protocol(String),
    /// No board is connected.
    NotConnected,
    /// The device has not been started.
    NotStarted,
}

impl BoardError {
    /// A plain message.
    pub fn msg(s: String) -> (r: Self)
        ensures
            r == BoardError::Msg(s),
    {
        BoardError::Msg(s)
    }

    /// What `message` yields.
    pub open spec fn text(&self) -> Seq<char> {
        match *self {
            BoardError::Msg(s) => s@,
            BoardError::Other(s) => s@,
            BoardError::Hid(s) => "HID 错误: "@ + s@,
            BoardError::Ble(s) => "BLE 错误: "@ + s@,
            BoardError::Io(s) => s@,
            BoardError::Timeout(s) => "命令超时: "@ + s@,
            BoardError::Protocol(s) => "协议错误: "@ + s@,
            BoardError::NotConnected => "设备未连接"@,
            BoardError::NotStarted => "SDK 未启动"@,
        }
    }

    /// The text that is shown for the error.
    pub fn message(&self) -> (r: String)
        ensures
            r@ == self.text(),
    {
        match self {
            BoardError::Msg(s) => s.clone(),
            BoardError::Other(s) => s.clone(),
            BoardError::Hid(s) => labelled("HID 错误: ", s.as_str()),
            BoardError::Ble(s) => labelled("BLE 错误: ", s.as_str()),
            BoardError::Io(s) => s.clone(),
            BoardError::Timeout(s) => labelled("命令超时: ", s.as_str()),
            BoardError::Protocol(s) => labelled("协议错误: ", s.as_str()),
            BoardError::NotConnected => "设备未连接".to_string(),
            BoardError::NotStarted => "SDK 未启动".to_string(),
        }
    }
}

fn labelled(label: &str, text: &str) -> (r: String)
    ensures
        r@ == label@ + text@,
{
    let mut out: String = label.to_string();
    out.append(text);
    out
}

/// `r` is the outcome `want`: the same value, or a protocol error with that text.
pub open spec fn protocol_outcome<T>(r: Result<T, BoardError>, want: Result<T, Seq<char>>) -> bool {
    match want {
        Ok(v) => r == Ok::<T, BoardError>(v),
        Err(t) => r matches Err(BoardError::Protocol(m)) && m@ == t,
    }
}

/// `r` is the outcome `want`, an error by its text.
pub open spec fn text_outcome<T>(r: Result<T, String>, want: Result<T, Seq<char>>) -> bool {
    match want {
        Ok(v) => r == Ok::<T, String>(v),
        Err(t) => r matches Err(m) && m@ == t,
    }
}

/// `r` fails with exactly the text `t`.
pub open spec fn fails_with<T>(r: Result<T, BoardError>, t: Seq<char>) -> bool {
    r matches Err(BoardError::Other(m)) && m@ == t
}

/// `r` is the outcome `want`: the same value, or an error with that text.
pub open spec fn outcome<T>(r: Result<T, BoardError>, want: Result<T, Seq<char>>) -> bool {
    match want {
        Ok(v) => r == Ok::<T, BoardError>(v),
        Err(t) => fails_with(r, t),
    }
}

/// An error with a fixed text.
pub fn other_error(text: &str) -> (r: BoardError)
    ensures
        r matches BoardError::Other(m) && m@ == text@,
{
    BoardError::Other(text.to_string())
}

/// An error whose text ends in a decimal number.
pub fn other_error_dec(label: &str, n: u64) -> (r: BoardError)
    ensures
        r matches BoardError::Other(m) && m@ == label@ + text::dec_text(n as nat),
{
    let mut out: String = label.to_string();
    text::append_dec(&mut out, n);
    BoardError::Other(out)
}

/// An error whose text ends in a byte, as two hexadecimal digits.
pub fn other_error_hex(label: &str, b: u8) -> (r: BoardError)
    ensures
        r matches BoardError::Other(m) && m@ == label@ + text::hex_text(b as nat, 2),
{
    let mut out: String = label.to_string();
    text::append_hex(&mut out, b as u64, 2);
    BoardError::Other(out)
}

/// A protocol error with a fixed text.
pub fn protocol_error(text: &str) -> (r: BoardError)
    ensures
        r matches BoardError::Protocol(m) && m@ == text@,
{
    BoardError::Protocol(text.to_string())
}

/// A protocol error whose text ends in a decimal number.
pub fn protocol_error_dec(label: &str, n: u64) -> (r: BoardError)
    ensures
        r matches BoardError::Protocol(m) && m@ == label@ + text::dec_text(n as nat),
{
    let mut out: String = label.to_string();
    text::append_dec(&mut out, n);
    BoardError::Protocol(out)
}

/// An outcome is the expected value itself, or an error of the expected sort with exactly the
/// expected text; no other result counts as that outcome.
pub proof fn law_an_outcome_is_its_value_or_its_text<T>(
    r: Result<T, BoardError>,
    t: Result<T, String>,
    v: T,
    text: Seq<char>,
)
    ensures
        outcome(r, Ok(v)) <==> r == Ok::<T, BoardError>(v),
        protocol_outcome(r, Ok(v)) <==> r == Ok::<T, BoardError>(v),
        text_outcome(t, Ok(v)) <==> t == Ok::<T, String>(v),
        outcome(r, Err(text)) <==> (r matches Err(BoardError::Other(m)) && m@ == text),
        fails_with(r, text) <==> (r matches Err(BoardError::Other(m)) && m@ == text),
        protocol_outcome(r, Err(text)) <==> (r matches Err(BoardError::Protocol(m)) && m@ == text),
        text_outcome(t, Err(text)) <==> (t matches Err(m) && m@ == text),
{
}

/// The text of an error is its own message; the errors of a transport, of the protocol and of the
/// clock put their sort in front of it.
pub proof fn law_an_error_shows_its_message(message: String)
    ensures
        BoardError::Msg(message).text() == message@,
        BoardError::Other(message).text() == message@,
        BoardError::Io(message).text() == message@,
        BoardError::Hid(message).text() == "HID 错误: "@ + message@,
        BoardError::Ble(message).text() == "BLE 错误: "@ + message@,
        BoardError::Timeout(message).text() == "命令超时: "@ + message@,
        BoardError::Protocol(message).text() == "协议错误: "@ + message@,
        BoardError::NotConnected.text() == "设备未连接"@,
        BoardError::NotStarted.text() == "SDK 未启动"@,
{
}

} // verus!
