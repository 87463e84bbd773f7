//! Board-audio contracts shared by USB HID and BLE GATT.

use vstd::prelude::*;
use vstd::std_specs::convert::TryFromSpecImpl;
use super::msbc::MSBC_FRAME_SIZE;
use super::types::ConnectionType;

verus! {

pub const AUDIO_PROTOCOL_VERSION: u8 = 1;

pub const AUDIO_CAP_USB_VENDOR_HID_MSBC_V1: u32 = 0x01;

pub const AUDIO_CAP_BLE_GATT_MSBC_V1: u32 = 0x02;

pub const AUDIO_CAP_STREAM_CONTROL_V1: u32 = 0x04;

pub const AUDIO_CAP_PACKET_SEQUENCE_V1: u32 = 0x08;

/// Where audio comes from.
#[derive(Debug, Clone, Copy, PartialEq, Eq, Structural)]
pub enum AudioTransport {
    UsbVendorHid,
    BleGatt,
    /// USB Audio Class; opening it can need the microphone permission of the system.
    UsbUac,
    /// An input owned by the host, never opened by this library.
    System,
}

/// What the host asks for.
#[derive(Debug, Clone, Copy, PartialEq, Eq, Structural)]
pub enum AudioRouteRequest {
    BoardFirst,
    ExplicitUsbUac,
    ExplicitSystem,
}

/// Audio features that the board announces.
#[derive(Debug, Clone, Copy, PartialEq, Eq, Structural)]
pub struct AudioCapabilities {
    pub protocol_version: u8,
    pub usb_vendor_hid_msbc_v1: bool,
    pub ble_gatt_msbc_v1: bool,
    pub stream_control_v1: bool,
    pub packet_sequence_v1: bool,
    pub envelope_version: u8,
    pub usb_max_payload: u8,
    pub ble_max_payload: u8,
    pub default_ttl_ms: u16,
    pub max_ttl_ms: u16,
}

/// What is known of the board's audio features.
#[derive(Debug, Clone, Copy, PartialEq, Eq, Structural)]
pub enum AudioCapabilityState {
    /// Never asked on this connection.
    Unqueried,
    /// Asked, and no usable answer came.
    Unavailable,
    /// The board answered.
    Ready(AudioCapabilities),
}

impl Default for AudioCapabilities {
    fn default() -> (r: Self)
        ensures
            r == (AudioCapabilities {
                protocol_version: 0,
                usb_vendor_hid_msbc_v1: false,
                ble_gatt_msbc_v1: false,
                stream_control_v1: false,
                packet_sequence_v1: false,
                envelope_version: 0,
                usb_max_payload: 0,
                ble_max_payload: 0,
                default_ttl_ms: 0,
                max_ttl_ms: 0,
            }),
    {
        AudioCapabilities {
            protocol_version: 0,
            usb_vendor_hid_msbc_v1: false,
            ble_gatt_msbc_v1: false,
            stream_control_v1: false,
            packet_sequence_v1: false,
            envelope_version: 0,
            usb_max_payload: 0,
            ble_max_payload: 0,
            default_ttl_ms: 0,
            max_ttl_ms: 0,
        }
    }
}

impl AudioCapabilities {
    /// The capabilities that a reply announces: each feature is one bit of `bits`, and nothing is
    /// inferred from a version.
    pub open spec fn of_bits(
        protocol_version: u8,
        bits: u32,
        envelope_version: u8,
        usb_max_payload: u8,
        ble_max_payload: u8,
        default_ttl_ms: u16,
        max_ttl_ms: u16,
    ) -> Self {
        AudioCapabilities {
            protocol_version,
            usb_vendor_hid_msbc_v1: bits & AUDIO_CAP_USB_VENDOR_HID_MSBC_V1 != 0,
            ble_gatt_msbc_v1: bits & AUDIO_CAP_BLE_GATT_MSBC_V1 != 0,
            stream_control_v1: bits & AUDIO_CAP_STREAM_CONTROL_V1 != 0,
            packet_sequence_v1: bits & AUDIO_CAP_PACKET_SEQUENCE_V1 != 0,
            envelope_version,
            usb_max_payload,
            ble_max_payload,
            default_ttl_ms,
            max_ttl_ms,
        }
    }

    /// Reads the feature bits.
    pub fn from_bits(
        protocol_version: u8,
        bits: u32,
        envelope_version: u8,
        usb_max_payload: u8,
        ble_max_payload: u8,
        default_ttl_ms: u16,
        max_ttl_ms: u16,
    ) -> (r: Self)
        ensures
            r == AudioCapabilities::of_bits(
                protocol_version,
                bits,
                envelope_version,
                usb_max_payload,
                ble_max_payload,
                default_ttl_ms,
                max_ttl_ms,
            ),
    {
        AudioCapabilities {
            protocol_version,
            usb_vendor_hid_msbc_v1: bits & AUDIO_CAP_USB_VENDOR_HID_MSBC_V1 != 0,
            ble_gatt_msbc_v1: bits & AUDIO_CAP_BLE_GATT_MSBC_V1 != 0,
            stream_control_v1: bits & AUDIO_CAP_STREAM_CONTROL_V1 != 0,
            packet_sequence_v1: bits & AUDIO_CAP_PACKET_SEQUENCE_V1 != 0,
            envelope_version,
            usb_max_payload,
            ble_max_payload,
            default_ttl_ms,
            max_ttl_ms,
        }
    }

    /// Sequenced, lease-controlled audio in the known protocol and envelope versions.
    pub open spec fn speaks_v1(&self) -> bool {
        &&& self.protocol_version == AUDIO_PROTOCOL_VERSION
        &&& self.stream_control_v1
        &&& self.packet_sequence_v1
        &&& self.envelope_version == AUDIO_PROTOCOL_VERSION
    }

    /// The transport can be used: a vendor transport needs its feature bit and room for a frame.
    pub open spec fn can_use(&self, transport: AudioTransport) -> bool {
        match transport {
            AudioTransport::UsbVendorHid => self.speaks_v1() && self.usb_vendor_hid_msbc_v1
                && self.usb_max_payload >= MSBC_FRAME_SIZE,
            AudioTransport::BleGatt => self.speaks_v1() && self.ble_gatt_msbc_v1
                && self.ble_max_payload >= MSBC_FRAME_SIZE,
            AudioTransport::UsbUac => true,
            AudioTransport::System => true,
        }
    }

    /// Tells whether the transport can be used.
    pub fn supports(&self, transport: AudioTransport) -> (r: bool)
        ensures
            r == self.can_use(transport),
    {
        match transport {
            AudioTransport::UsbVendorHid => {
                self.protocol_version == AUDIO_PROTOCOL_VERSION && self.usb_vendor_hid_msbc_v1
                    && self.stream_control_v1 && self.packet_sequence_v1 && self.envelope_version
                    == AUDIO_PROTOCOL_VERSION && self.usb_max_payload as usize >= MSBC_FRAME_SIZE
            },
            AudioTransport::BleGatt => {
                self.protocol_version == AUDIO_PROTOCOL_VERSION && self.ble_gatt_msbc_v1
                    && self.stream_control_v1 && self.packet_sequence_v1 && self.envelope_version
                    == AUDIO_PROTOCOL_VERSION && self.ble_max_payload as usize >= MSBC_FRAME_SIZE
            },
            AudioTransport::UsbUac => true,
            AudioTransport::System => true,
        }
    }
}

/// The transport that a request resolves to.
pub open spec fn resolved_transport(
    request: AudioRouteRequest,
    connection: Option<ConnectionType>,
    capabilities: AudioCapabilities,
) -> Option<AudioTransport> {
    match request {
        AudioRouteRequest::BoardFirst => {
            if connection == Some(ConnectionType::Usb) && capabilities.can_use(
                AudioTransport::UsbVendorHid,
            ) {
                Some(AudioTransport::UsbVendorHid)
            } else if connection == Some(ConnectionType::Ble) && capabilities.can_use(
                AudioTransport::BleGatt,
            ) {
                Some(AudioTransport::BleGatt)
            } else {
                None
            }
        },
        AudioRouteRequest::ExplicitUsbUac => {
            if connection == Some(ConnectionType::Usb) {
                Some(AudioTransport::UsbUac)
            } else {
                None
            }
        },
        AudioRouteRequest::ExplicitSystem => Some(AudioTransport::System),
    }
}

/// Resolves a request. A board-first request never becomes an input of the host.
pub fn resolve_audio_transport(
    request: AudioRouteRequest,
    connection: Option<ConnectionType>,
    capabilities: &AudioCapabilities,
) -> (r: Option<AudioTransport>)
    ensures
        r == resolved_transport(request, connection, *capabilities),
        request == AudioRouteRequest::BoardFirst ==> r != Some(AudioTransport::UsbUac) && r != Some(
            AudioTransport::System,
        ),
{
    match request {
        AudioRouteRequest::BoardFirst => {
            match connection {
                Some(ConnectionType::Usb) => {
                    if capabilities.supports(AudioTransport::UsbVendorHid) {
                        Some(AudioTransport::UsbVendorHid)
                    } else {
                        None
                    }
                },
                Some(ConnectionType::Ble) => {
                    if capabilities.supports(AudioTransport::BleGatt) {
                        Some(AudioTransport::BleGatt)
                    } else {
                        None
                    }
                },
                None => None,
            }
        },
        AudioRouteRequest::ExplicitUsbUac => {
            if connection == Some(ConnectionType::Usb) {
                Some(AudioTransport::UsbUac)
            } else {
                None
            }
        },
        AudioRouteRequest::ExplicitSystem => Some(AudioTransport::System),
    }
}

/// How a packet number relates to the one before it.
#[derive(Debug, Clone, Copy, PartialEq, Eq, Structural)]
pub enum SequenceDisposition {
    First,
    Contiguous,
    Gap { missing: u16 },
    Duplicate,
    OutOfOrder,
}

/// Steps forward, modulo 2^16, from `last` to `sequence`.
pub open spec fn sequence_delta(last: u16, sequence: u16) -> int {
    (sequence - last) % 0x1_0000
}

/// Classification of `sequence` after `last`: half of the number circle is ahead, the other half
/// behind.
pub open spec fn disposition_after(last: Option<u16>, sequence: u16) -> SequenceDisposition {
    match last {
        None => SequenceDisposition::First,
        Some(last) => {
            let delta = sequence_delta(last, sequence);
            if delta == 0 {
                SequenceDisposition::Duplicate
            } else if delta == 1 {
                SequenceDisposition::Contiguous
            } else if delta <= 0x7FFF {
                SequenceDisposition::Gap { missing: (delta - 1) as u16 }
            } else {
                SequenceDisposition::OutOfOrder
            }
        },
    }
}

/// The packet moves the tracker forward and its audio is new.
pub open spec fn is_fresh(d: SequenceDisposition) -> bool {
    d != SequenceDisposition::Duplicate && d != SequenceDisposition::OutOfOrder
}

/// Follows packet numbers that wrap at 2^16.
#[derive(Debug, Clone)]
pub struct SequenceTracker {
    pub last: Option<u16>,
}

impl Default for SequenceTracker {
    fn default() -> (r: Self)
        ensures
            r.last is None,
    {
        SequenceTracker { last: None }
    }
}

impl SequenceTracker {
    /// Forgets the last number.
    pub fn reset(&mut self)
        ensures
            final(self).last is None,
    {
        self.last = None;
    }

    /// Classifies the next number. A duplicate or a late number leaves the tracker where it was.
    pub fn observe(&mut self, sequence: u16) -> (r: SequenceDisposition)
        ensures
            r == disposition_after(old(self).last, sequence),
            final(self).last == (if is_fresh(r) {
                Some(sequence)
            } else {
                old(self).last
            }),
    {
        match self.last {
            None => {
                self.last = Some(sequence);
                SequenceDisposition::First
            },
            Some(last) => {
                let delta: u16 = sequence.wrapping_sub(last);
                if delta == 0 {
                    SequenceDisposition::Duplicate
                } else if delta == 1 {
                    self.last = Some(sequence);
                    SequenceDisposition::Contiguous
                } else if delta <= 0x7FFF {
                    self.last = Some(sequence);
                    SequenceDisposition::Gap { missing: delta - 1 }
                } else {
                    SequenceDisposition::OutOfOrder
                }
            },
        }
    }
}

/// An encoded packet, parsed from a transport envelope.
#[derive(Debug, Clone, Copy)]
pub struct EncodedAudioPacket<'a> {
    pub payload: &'a [u8],
    pub transport: AudioTransport,
    pub sequence: Option<u16>,
    pub device_discontinuity: bool,
}

/// Mathematical form of an encoded packet.
pub struct PacketView {
    pub payload: Seq<u8>,
    pub transport: AudioTransport,
    pub sequence: Option<u16>,
    pub device_discontinuity: bool,
}

impl<'a> View for EncodedAudioPacket<'a> {
    type V = PacketView;

    open spec fn view(&self) -> PacketView {
        PacketView {
            payload: self.payload@,
            transport: self.transport,
            sequence: self.sequence,
            device_discontinuity: self.device_discontinuity,
        }
    }
}

/// A decoded 16 kHz mono frame, with what is known of lost audio before it.
#[derive(Debug, Clone)]
pub struct AudioFrame {
    pub pcm: Vec<i16>,
    pub sample_rate: u32,
    pub channels: u8,
    pub transport: AudioTransport,
    pub connection_epoch: u64,
    pub sequence: Option<u16>,
    /// Monotonic capture time, in nanoseconds.
    pub captured_at_ns: u64,
    pub device_discontinuity: bool,
    pub sequence_gap_frames: u16,
    pub local_drop_frames: u64,
}

/// Mathematical form of a decoded frame.
pub struct AudioFrameView {
    pub pcm: Seq<i16>,
    pub sample_rate: u32,
    pub channels: u8,
    pub transport: AudioTransport,
    pub connection_epoch: u64,
    pub sequence: Option<u16>,
    pub captured_at_ns: u64,
    pub device_discontinuity: bool,
    pub sequence_gap_frames: u16,
    pub local_drop_frames: u64,
}

impl View for AudioFrame {
    type V = AudioFrameView;

    open spec fn view(&self) -> AudioFrameView {
        AudioFrameView {
            pcm: self.pcm@,
            sample_rate: self.sample_rate,
            channels: self.channels,
            transport: self.transport,
            connection_epoch: self.connection_epoch,
            sequence: self.sequence,
            captured_at_ns: self.captured_at_ns,
            device_discontinuity: self.device_discontinuity,
            sequence_gap_frames: self.sequence_gap_frames,
            local_drop_frames: self.local_drop_frames,
        }
    }
}

impl AudioFrameView {
    /// Audio is missing before this frame.
    pub open spec fn is_discontinuous(&self) -> bool {
        self.device_discontinuity || self.sequence_gap_frames != 0 || self.local_drop_frames != 0
    }
}

impl AudioFrame {
    /// Tells whether audio is missing before this frame.
    pub fn discontinuity(&self) -> (r: bool)
        ensures
            r == self@.is_discontinuous(),
    {
        self.device_discontinuity || self.sequence_gap_frames != 0 || self.local_drop_frames != 0
    }
}

/// What a stream-control request does.
#[derive(Debug, Clone, Copy, PartialEq, Eq, Structural)]
pub enum AudioStreamAction {
    Stop,
    Start,
    Heartbeat,
}

impl AudioStreamAction {
    pub open spec fn code_spec(&self) -> u8 {
        match *self {
            AudioStreamAction::Stop => 0,
            AudioStreamAction::Start => 1,
            AudioStreamAction::Heartbeat => 2,
        }
    }

    /// The byte on the wire.
    pub fn code(&self) -> (r: u8)
        ensures
            r == self.code_spec(),
    {
        match self {
            AudioStreamAction::Stop => 0,
            AudioStreamAction::Start => 1,
            AudioStreamAction::Heartbeat => 2,
        }
    }
}

/// What a stream lease is for.
#[derive(Debug, Clone, Copy, PartialEq, Eq, Structural)]
pub enum AudioStreamScope {
    Session,
    Timeline,
}

impl AudioStreamScope {
    pub open spec fn code_spec(&self) -> u8 {
        match *self {
            AudioStreamScope::Session => 1,
            AudioStreamScope::Timeline => 2,
        }
    }

    /// The byte on the wire.
    pub fn code(&self) -> (r: u8)
        ensures
            r == self.code_spec(),
    {
        match self {
            AudioStreamScope::Session => 1,
            AudioStreamScope::Timeline => 2,
        }
    }
}

/// Answer to a stream-control request.
#[derive(Debug, Clone, Copy, PartialEq, Eq, Structural)]
pub enum AudioStreamResult {
    Success,
    UnsupportedVersion,
    Busy,
    LeaseMismatch,
    InvalidArgument,
    TransportUnavailable,
}

impl AudioStreamResult {
    /// The answer that a byte stands for.
    pub open spec fn of_code(value: u8) -> Option<AudioStreamResult> {
        if value == 0 {
            Some(AudioStreamResult::Success)
        } else if value == 1 {
            Some(AudioStreamResult::UnsupportedVersion)
        } else if value == 2 {
            Some(AudioStreamResult::Busy)
        } else if value == 3 {
            Some(AudioStreamResult::LeaseMismatch)
        } else if value == 4 {
            Some(AudioStreamResult::InvalidArgument)
        } else if value == 5 {
            Some(AudioStreamResult::TransportUnavailable)
        } else {
            None
        }
    }
}

impl TryFromSpecImpl<u8> for AudioStreamResult {
    open spec fn obeys_try_from_spec() -> bool {
        true
    }

    open spec fn try_from_spec(value: u8) -> Result<Self, ()> {
        match AudioStreamResult::of_code(value) {
            Some(r) => Ok(r),
            None => Err(()),
        }
    }
}

impl TryFrom<u8> for AudioStreamResult {
    type Error = ();

    fn try_from(value: u8) -> (r: Result<Self, Self::Error>) {
        match value {
            0 => Ok(AudioStreamResult::Success),
            1 => Ok(AudioStreamResult::UnsupportedVersion),
            2 => Ok(AudioStreamResult::Busy),
            3 => Ok(AudioStreamResult::LeaseMismatch),
            4 => Ok(AudioStreamResult::InvalidArgument),
            5 => Ok(AudioStreamResult::TransportUnavailable),
            _ => Err(()),
        }
    }
}

/// State of the stream lease, as the board acknowledges it.
#[derive(Debug, Clone, Copy, PartialEq, Eq, Structural)]
pub struct AudioStreamState {
    pub result: AudioStreamResult,
    pub protocol_version: u8,
    pub active_transport: Option<AudioTransport>,
    pub scope: Option<AudioStreamScope>,
    pub lease_id: u32,
    pub ttl_ms: u16,
}

impl AudioStreamState {
    /// The acknowledgement is the one that the request asks for: a start or heartbeat echoes the
    /// route and the lease with time left, a stop leaves nothing active.
    pub open spec fn acknowledges(
        &self,
        action: AudioStreamAction,
        transport: AudioTransport,
        scope: AudioStreamScope,
        lease_id: u32,
    ) -> bool {
        &&& self.result == AudioStreamResult::Success
        &&& self.protocol_version == AUDIO_PROTOCOL_VERSION
        &&& if action == AudioStreamAction::Stop {
            self.active_transport is None && self.scope is None && self.lease_id == 0
                && self.ttl_ms == 0
        } else {
            self.active_transport == Some(transport) && self.scope == Some(scope) && self.lease_id
                == lease_id && self.ttl_ms != 0
        }
    }

    /// Tells whether an acknowledgement belongs to exactly this request, so that a late reply to
    /// another one cannot take over the route.
    pub fn matches_request(
        &self,
        action: AudioStreamAction,
        transport: AudioTransport,
        scope: AudioStreamScope,
        lease_id: u32,
    ) -> (r: bool)
        ensures
            r == self.acknowledges(action, transport, scope, lease_id),
    {
        if self.result != AudioStreamResult::Success || self.protocol_version
            != AUDIO_PROTOCOL_VERSION {
            return false;
        }
        match action {
            AudioStreamAction::Start | AudioStreamAction::Heartbeat => {
                self.active_transport == Some(transport) && self.scope == Some(scope)
                    && self.lease_id == lease_id && self.ttl_ms != 0
            },
            AudioStreamAction::Stop => {
                self.active_transport.is_none() && self.scope.is_none() && self.lease_id == 0
                    && self.ttl_ms == 0
            },
        }
    }
}

/// After a reset the next number counts as the first, whatever it is.
pub proof fn law_reset_makes_the_next_packet_first(sequence: u16)
    ensures
        disposition_after(None, sequence) == SequenceDisposition::First,
{
}

/// The number after `last`, modulo 2^16, is contiguous; the same number is a duplicate; and a
/// number that skips `missing` packets reports exactly those.
pub proof fn law_sequence_wraps_at_the_top(last: u16, missing: u16)
    requires
        1 <= missing <= 0x7FFE,
    ensures
        disposition_after(Some(last), ((last + 1) % 0x1_0000) as u16)
            == SequenceDisposition::Contiguous,
        disposition_after(Some(last), last) == SequenceDisposition::Duplicate,
        disposition_after(Some(last), ((last + 1 + missing) % 0x1_0000) as u16)
            == (SequenceDisposition::Gap { missing }),
{
}

/// A request for the board's own audio stays on the board: it ends at the transport of the
/// connection that stands, if the board has it, and never at a host microphone.
pub proof fn law_board_first_stays_on_the_board(
    connection: Option<ConnectionType>,
    capabilities: AudioCapabilities,
)
    ensures
        match resolved_transport(AudioRouteRequest::BoardFirst, connection, capabilities) {
            Some(t) => capabilities.can_use(t) && (t == AudioTransport::UsbVendorHid && connection
                == Some(ConnectionType::Usb) || t == AudioTransport::BleGatt && connection == Some(
                ConnectionType::Ble,
            )),
            None => match connection {
                Some(ConnectionType::Usb) => !capabilities.can_use(AudioTransport::UsbVendorHid),
                Some(ConnectionType::Ble) => !capabilities.can_use(AudioTransport::BleGatt),
                None => true,
            },
        },
{
}

/// A start or heartbeat acknowledgement never passes for a stop, nor the other way round.
pub proof fn law_acknowledgements_do_not_mix(
    state: AudioStreamState,
    transport: AudioTransport,
    scope: AudioStreamScope,
    lease_id: u32,
)
    ensures
        !(state.acknowledges(AudioStreamAction::Start, transport, scope, lease_id)
            && state.acknowledges(AudioStreamAction::Stop, transport, scope, lease_id)),
        state.acknowledges(AudioStreamAction::Start, transport, scope, lease_id)
            == state.acknowledges(AudioStreamAction::Heartbeat, transport, scope, lease_id),
{
}

/// The packet number that follows `ahead` steps behind another one is contiguous, a gap of the
/// numbers in between, or, beyond half of the circle, late.
pub proof fn law_numbers_are_told_apart_by_their_distance(last: u16, ahead: int)
    requires
        0 <= ahead < 0x1_0000,
    ensures
        ({
            let d = disposition_after(Some(last), ((last + ahead) % 0x1_0000) as u16);
            &&& ahead == 0 ==> d == SequenceDisposition::Duplicate
            &&& ahead == 1 ==> d == SequenceDisposition::Contiguous
            &&& 2 <= ahead <= 0x7FFF ==> d == (SequenceDisposition::Gap {
                missing: (ahead - 1) as u16,
            })
            &&& ahead >= 0x8000 ==> d == SequenceDisposition::OutOfOrder
            &&& is_fresh(d) <==> 1 <= ahead <= 0x7FFF
        }),
        is_fresh(disposition_after(None, last)),
{
}

/// A vendor transport can be used exactly when its own feature bit, lease control and packet
/// numbers are announced, in protocol and envelope version 1, with room for a whole frame.
pub proof fn law_a_vendor_transport_needs_all_of_its_features(
    protocol: u8,
    bits: u32,
    envelope: u8,
    usb_room: u8,
    ble_room: u8,
    ttl: u16,
    max_ttl: u16,
)
    ensures
        ({
            let c = AudioCapabilities::of_bits(
                protocol,
                bits,
                envelope,
                usb_room,
                ble_room,
                ttl,
                max_ttl,
            );
            let base = protocol == 1 && envelope == 1 && bits & 4 != 0 && bits & 8 != 0;
            &&& c.can_use(AudioTransport::UsbVendorHid) <==> base && bits & 1 != 0 && usb_room >= 57
            &&& c.can_use(AudioTransport::BleGatt) <==> base && bits & 2 != 0 && ble_room >= 57
            &&& c.can_use(AudioTransport::UsbUac) && c.can_use(AudioTransport::System)
            &&& c.protocol_version == protocol && c.envelope_version == envelope
            &&& c.usb_max_payload == usb_room && c.ble_max_payload == ble_room
            &&& c.default_ttl_ms == ttl && c.max_ttl_ms == max_ttl
        }),
{
}

/// The explicit routes: USB audio class needs the cable, the system's own input needs nothing, and
/// neither asks for a capability.
pub proof fn law_explicit_routes_are_taken_at_their_word(
    connection: Option<ConnectionType>,
    capabilities: AudioCapabilities,
)
    ensures
        resolved_transport(AudioRouteRequest::ExplicitUsbUac, connection, capabilities) == (
        if connection == Some(ConnectionType::Usb) {
            Some(AudioTransport::UsbUac)
        } else {
            None
        }),
        resolved_transport(AudioRouteRequest::ExplicitSystem, connection, capabilities) == Some(
            AudioTransport::System,
        ),
{
}

/// An acknowledgement belongs to a request exactly when it reports success in version 1 and echoes
/// the route, the scope and the lease with time left, or, for a stop, leaves nothing behind.
pub proof fn law_an_acknowledgement_echoes_its_request(
    state: AudioStreamState,
    transport: AudioTransport,
    scope: AudioStreamScope,
    lease_id: u32,
)
    ensures
        ({
            let good = state.result == AudioStreamResult::Success && state.protocol_version == 1;
            let echoes = state.active_transport == Some(transport) && state.scope == Some(scope)
                && state.lease_id == lease_id && state.ttl_ms > 0;
            let nothing = state.active_transport is None && state.scope is None && state.lease_id
                == 0 && state.ttl_ms == 0;
            &&& state.acknowledges(AudioStreamAction::Start, transport, scope, lease_id) <==> good
                && echoes
            &&& state.acknowledges(AudioStreamAction::Heartbeat, transport, scope, lease_id)
                <==> good && echoes
            &&& state.acknowledges(AudioStreamAction::Stop, transport, scope, lease_id) <==> good
                && nothing
        }),
{
}

/// The bytes of actions and scopes on the wire, and of the answers to them.
pub proof fn law_stream_codes_are_these(value: u8)
    ensures
        AudioStreamAction::Stop.code_spec() == 0,
        AudioStreamAction::Start.code_spec() == 1,
        AudioStreamAction::Heartbeat.code_spec() == 2,
        AudioStreamScope::Session.code_spec() == 1,
        AudioStreamScope::Timeline.code_spec() == 2,
        AudioStreamResult::of_code(0) == Some(AudioStreamResult::Success),
        AudioStreamResult::of_code(1) == Some(AudioStreamResult::UnsupportedVersion),
        AudioStreamResult::of_code(2) == Some(AudioStreamResult::Busy),
        AudioStreamResult::of_code(3) == Some(AudioStreamResult::LeaseMismatch),
        AudioStreamResult::of_code(4) == Some(AudioStreamResult::InvalidArgument),
        AudioStreamResult::of_code(5) == Some(AudioStreamResult::TransportUnavailable),
        value > 5 ==> AudioStreamResult::of_code(value) is None,
{
}

} // verus!
