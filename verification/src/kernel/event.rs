//! Events that the library reports, and the mathematical form that contracts speak of.

use vstd::prelude::*;
use super::types::ConnectionType;

verus! {

/// Everything that the board reports to its user.
#[derive(Debug, Clone)]
pub enum BoardEvent {
    /// The board was connected or disconnected.
    Connection(ConnectionEvent),
    /// The reconnect state changed.
    Reconnect(ReconnectEvent),
    /// A key went down or up.
    KeyPress(KeyPressEvent),
    /// Two or more keys are down together.
    ComboKey(ComboKeyEvent),
    /// The AI voice key went down or up.
    AiVoiceKey(AiVoiceKeyEvent),
    /// The mode lever moved.
    ModeChange(ModeChangeEvent),
    /// A physical input of the factory test.
    FactoryKey(FactoryKeyEvent),
    /// Device information.
    DeviceInfo(DeviceInfo),
    /// A non-fatal error.
    Error(ErrorEvent),
}

/// A physical input reported before any key mapping.
#[derive(Debug, Clone, Copy, PartialEq, Eq, Structural)]
pub struct FactoryKeyEvent {
    pub session: u16,
    /// Position on the board, 0 to 11.
    pub input_index: u8,
    pub pressed: bool,
    pub sequence: u8,
}

/// A change of the connection.
#[derive(Debug, Clone, Copy, PartialEq, Eq, Structural)]
pub struct ConnectionEvent {
    pub connected: bool,
    pub connection_type: Option<ConnectionType>,
    pub reason: Option<DisconnectReason>,
}

/// Why a connection ended.
#[derive(Debug, Clone, Copy, PartialEq, Eq, Structural)]
pub enum DisconnectReason {
    /// The board vanished (unplugged, out of range).
    DeviceGone,
    /// The link changed over to the other kind.
    ConnectionTypeChanged(ConnectionType),
    /// The user asked for it.
    UserAction,
    /// The firmware announced it.
    DeviceDisconnect,
}

/// A step of the reconnect machinery.
#[derive(Debug, Clone)]
pub struct ReconnectEvent {
    pub state: ReconnectState,
    pub attempt: Option<u32>,
    pub message: Option<String>,
}

/// State of the reconnect machinery.
#[derive(Debug, Clone, Copy, PartialEq, Eq, Structural)]
pub enum ReconnectState {
    Idle,
    WaitingForDevice,
    Scanning,
    Connecting,
    Connected,
    /// BLE auto-connect is switched off.
    Suppressed,
}

/// A key went down or up.
#[derive(Debug, Clone)]
pub struct KeyPressEvent {
    /// Key position, 0 to 11.
    pub key_index: usize,
    pub key_name: String,
    pub key_value: u16,
    pub pressed: bool,
    pub source: KeySource,
}

/// Channel that reported a key.
#[derive(Debug, Clone, Copy, PartialEq, Eq, Structural)]
pub enum KeySource {
    /// Config interface, a bit mask.
    Config,
    /// Consumer interface, a usage code.
    Consumer,
    /// BLE GATT event channel.
    Gatt,
}

/// Two or more keys are down together.
#[derive(Debug, Clone)]
pub struct ComboKeyEvent {
    pub keys: Vec<usize>,
    pub key_names: Vec<String>,
    pub config_mask: Option<u8>,
}

/// The AI voice key went down or up.
#[derive(Debug, Clone, Copy, PartialEq, Eq, Structural)]
pub struct AiVoiceKeyEvent {
    pub pressed: bool,
}

/// The mode lever moved.
#[derive(Debug, Clone)]
pub struct ModeChangeEvent {
    /// `YOLO`, `PLAN` or `CHAT`.
    pub mode: String,
    pub mode_value: u8,
    pub source: ModeSource,
}

/// What made the mode change.
#[derive(Debug, Clone, Copy, PartialEq, Eq, Structural)]
pub enum ModeSource {
    /// The lever.
    Dial,
    /// Reported when the connection came up.
    Connection,
}

/// What the board says of itself.
#[derive(Debug, Clone)]
pub struct DeviceInfo {
    pub mode: u8,
    pub mac_address: String,
    pub receiver_version: String,
    pub firmware_version: String,
    pub battery_level: u8,
    pub battery_charging: bool,
    pub battery_full: bool,
    pub chip_id: String,
    pub connection_type: ConnectionType,
}

/// A non-fatal error.
#[derive(Debug, Clone)]
pub struct ErrorEvent {
    pub message: String,
    pub recoverable: bool,
}

/// Mathematical form of a key event.
pub struct KeyPressView {
    pub key_index: usize,
    pub key_name: Seq<char>,
    pub key_value: u16,
    pub pressed: bool,
    pub source: KeySource,
}

/// Mathematical form of `DeviceInfo`.
pub struct DeviceInfoView {
    pub mode: u8,
    pub mac_address: Seq<char>,
    pub receiver_version: Seq<char>,
    pub firmware_version: Seq<char>,
    pub battery_level: u8,
    pub battery_charging: bool,
    pub battery_full: bool,
    pub chip_id: Seq<char>,
    pub connection_type: ConnectionType,
}

/// Mathematical form of an event: texts as character sequences, lists as sequences.
pub enum EventView {
    Connection(ConnectionEvent),
    Reconnect { state: ReconnectState, attempt: Option<u32>, note: Option<Seq<char>> },
    KeyPress(KeyPressView),
    ComboKey { keys: Seq<usize>, key_names: Seq<Seq<char>>, config_mask: Option<u8> },
    AiVoiceKey(AiVoiceKeyEvent),
    ModeChange { mode: Seq<char>, mode_value: u8, source: ModeSource },
    FactoryKey(FactoryKeyEvent),
    DeviceInfo(DeviceInfoView),
    Error { message: Seq<char>, recoverable: bool },
}

impl View for KeyPressEvent {
    type V = KeyPressView;

    open spec fn view(&self) -> KeyPressView {
        KeyPressView {
            key_index: self.key_index,
            key_name: self.key_name@,
            key_value: self.key_value,
            pressed: self.pressed,
            source: self.source,
        }
    }
}

impl View for DeviceInfo {
    type V = DeviceInfoView;

    open spec fn view(&self) -> DeviceInfoView {
        DeviceInfoView {
            mode: self.mode,
            mac_address: self.mac_address@,
            receiver_version: self.receiver_version@,
            firmware_version: self.firmware_version@,
            battery_level: self.battery_level,
            battery_charging: self.battery_charging,
            battery_full: self.battery_full,
            chip_id: self.chip_id@,
            connection_type: self.connection_type,
        }
    }
}

/// The texts of a list of strings.
pub open spec fn texts(list: Seq<String>) -> Seq<Seq<char>> {
    Seq::new(list.len(), |i: int| list[i]@)
}

impl View for BoardEvent {
    type V = EventView;

    open spec fn view(&self) -> EventView {
        match *self {
            BoardEvent::Connection(e) => EventView::Connection(e),
            BoardEvent::Reconnect(e) => EventView::Reconnect {
                state: e.state,
                attempt: e.attempt,
                note: match e.message {
                    Some(m) => Some(m@),
                    None => None,
                },
            },
            BoardEvent::KeyPress(e) => EventView::KeyPress(e@),
            BoardEvent::ComboKey(e) => EventView::ComboKey {
                keys: e.keys@,
                key_names: texts(e.key_names@),
                config_mask: e.config_mask,
            },
            BoardEvent::AiVoiceKey(e) => EventView::AiVoiceKey(e),
            BoardEvent::ModeChange(e) => EventView::ModeChange {
                mode: e.mode@,
                mode_value: e.mode_value,
                source: e.source,
            },
            BoardEvent::FactoryKey(e) => EventView::FactoryKey(e),
            BoardEvent::DeviceInfo(e) => EventView::DeviceInfo(e@),
            BoardEvent::Error(e) => EventView::Error {
                message: e.message@,
                recoverable: e.recoverable,
            },
        }
    }
}

/// Mathematical form of a list of events.
pub open spec fn event_views(events: Seq<BoardEvent>) -> Seq<EventView> {
    Seq::new(events.len(), |i: int| events[i]@)
}

/// An event is seen as what it holds: every field of it, each text by its characters.
pub proof fn law_an_event_is_what_it_holds(
    r: ReconnectEvent,
    k: KeyPressEvent,
    c: ComboKeyEvent,
    m: ModeChangeEvent,
    d: DeviceInfo,
    e: ErrorEvent,
)
    ensures
        BoardEvent::Reconnect(r)@ matches EventView::Reconnect { state, attempt, note } && state
            == r.state && attempt == r.attempt && (note is Some <==> r.message is Some) && (
        r.message is Some ==> note->0 == r.message->0@),
        BoardEvent::KeyPress(k)@ matches EventView::KeyPress(p) && p.key_index == k.key_index
            && p.key_name == k.key_name@ && p.key_value == k.key_value && p.pressed == k.pressed
            && p.source == k.source,
        BoardEvent::ComboKey(c)@ matches EventView::ComboKey { keys, key_names, config_mask }
            && keys == c.keys@ && config_mask == c.config_mask && key_names.len()
            == c.key_names@.len() && forall|i: int|
            0 <= i < key_names.len() ==> #[trigger] key_names[i] == c.key_names@[i]@,
        BoardEvent::ModeChange(m)@ matches EventView::ModeChange { mode, mode_value, source }
            && mode == m.mode@ && mode_value == m.mode_value && source == m.source,
        BoardEvent::DeviceInfo(d)@ matches EventView::DeviceInfo(i) && i.mode == d.mode
            && i.mac_address == d.mac_address@ && i.receiver_version == d.receiver_version@
            && i.firmware_version == d.firmware_version@ && i.battery_level == d.battery_level
            && i.battery_charging == d.battery_charging && i.battery_full == d.battery_full
            && i.chip_id == d.chip_id@ && i.connection_type == d.connection_type,
        BoardEvent::Error(e)@ matches EventView::Error { message, recoverable } && message
            == e.message@ && recoverable == e.recoverable,
{
}

/// A list of events is seen event by event, in its order.
pub proof fn law_events_are_seen_one_by_one(events: Seq<BoardEvent>, i: int)
    requires
        0 <= i < events.len(),
    ensures
        event_views(events).len() == events.len(),
        event_views(events)[i] == events[i]@,
{
}

} // verus!
