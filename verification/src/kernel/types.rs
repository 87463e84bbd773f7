//! Types shared by every layer.

use vstd::prelude::*;
use super::text;

verus! {

/// How the board is connected.
#[derive(Debug, Clone, Copy, PartialEq, Eq, Structural)]
pub enum ConnectionType {
    /// USB cable.
    Usb,
    /// BLE link.
    Ble,
}

impl ConnectionType {
    /// Lower-case name: `usb` or `ble`.
    pub fn name(&self) -> (r: &'static str)
        ensures
            r@ == (match *self {
                ConnectionType::Usb => "usb"@,
                ConnectionType::Ble => "ble"@,
            }),
    {
        match self {
            ConnectionType::Usb => "usb",
            ConnectionType::Ble => "ble",
        }
    }
}

/// Idle timeouts before the board sleeps, in seconds. The firmware raises values below 30 to 30,
/// so the values that a SET reply echoes are the ones in force.
#[derive(Debug, Clone, Copy, PartialEq, Eq, Structural)]
pub struct SleepTimeout {
    /// Timeout while no host is connected (60 from the factory).
    pub disconnected: u16,
    /// Timeout while a host is connected (600 from the factory).
    pub connected: u16,
}

impl SleepTimeout {
    /// Both timeouts, in seconds.
    pub fn new(disconnected: u16, connected: u16) -> (r: Self)
        ensures
            r == (SleepTimeout { disconnected, connected }),
    {
        SleepTimeout { disconnected, connected }
    }
}

/// The lower-cased name holds one of the keywords of the board's audio endpoint. A bare `hid`
/// is no keyword: other devices carry it too.
pub open spec fn names_board_audio(name: Seq<char>) -> bool {
    let lower = text::lowercase_text(name);
    ||| text::contains_text(lower, "audio-hid"@)
    ||| text::contains_text(lower, "reai"@)
    ||| text::contains_text(lower, "vibe"@)
    ||| text::contains_text(lower, "ai vibe"@)
}

/// Tells whether an already lower-cased device name holds one of the audio keywords.
pub fn has_audio_keyword(lower: &str) -> (r: bool)
    ensures
        r == (text::contains_text(lower@, "audio-hid"@) || text::contains_text(lower@, "reai"@)
            || text::contains_text(lower@, "vibe"@) || text::contains_text(lower@, "ai vibe"@)),
{
    text::text_contains(lower, "audio-hid") || text::text_contains(lower, "reai")
        || text::text_contains(lower, "vibe") || text::text_contains(lower, "ai vibe")
}

/// Tells whether an audio device name belongs to the board's USB audio interface.
pub fn is_usb_audio_device_name(name: &str) -> (r: bool)
    ensures
        r == names_board_audio(name@),
{
    let lower: String = text::text_to_lowercase(name);
    has_audio_keyword(lower.as_str())
}

/// An audio device is the board's exactly when its lower-cased name holds one of the keywords.
pub proof fn law_board_audio_is_known_by_its_name(name: Seq<char>)
    ensures
        names_board_audio(name) <==> text::contains_text(text::lowercase_text(name), "audio-hid"@)
            || text::contains_text(text::lowercase_text(name), "reai"@) || text::contains_text(
            text::lowercase_text(name),
            "vibe"@,
        ) || text::contains_text(text::lowercase_text(name), "ai vibe"@),
{
}

} // verus!
