//! State of the device as a whole: which board is connected, which audio route is open, and what
//! each request of the user asks of the transports.

use vstd::prelude::*;
use crate::kernel::audio::{
    AudioCapabilities, AudioCapabilityState, AudioStreamAction, AudioStreamResult,
    AudioStreamScope, AudioStreamState, AudioTransport,
};
use crate::kernel::bytes;
use crate::kernel::error;
use crate::kernel::error::{other_error, BoardError};
use crate::kernel::event::{
    BoardEvent, ConnectionEvent, DisconnectReason, EventView, ModeChangeEvent, ModeSource,
};
use crate::kernel::protocol_hid;
use crate::kernel::protocol_hid::{
    HidPacket, KeyConfig, WorkMode, CMD_AI_APP_ONLINE_NOTIFY, CMD_AI_AUDIO_STREAM_CONTROL,
    CMD_AI_FACTORY_KEY_TEST_CONTROL, CMD_AI_GET_APP_ONLINE, CMD_AI_GET_AUDIO_CAPABILITIES,
    CMD_AI_GET_OPEN_URL, CMD_AI_SET_OPEN_URL, CMD_AI_SHUTDOWN, CMD_GET_DEVICE_INFO,
    CMD_GET_KEY_SETTING, CMD_GET_SILENT_RECORD, CMD_GET_SLEEP_TIMEOUT, CMD_SET_KEY_SETTING,
    CMD_SET_SILENT_RECORD, CMD_SET_SLEEP_TIMEOUT, CMD_STATUS, CMD_WORK_MODE_DATA,
    FACTORY_KEY_TEST_PROTOCOL_VERSION,
};
use crate::kernel::types::{ConnectionType, SleepTimeout};
use crate::runtime::commands;
use crate::runtime::commands::{
    audio_capabilities_in, audio_stream_state_in, request, CommandReply, CommandRequest,
};
use crate::runtime::hotplug;
use crate::runtime::hotplug::HotplugConfig;

verus! {

/// Time between a BLE connection and the first command, in milliseconds: the notifications that
/// carry replies have to start first.
pub const BLE_SETTLE_MS: u64 = 500;

/// A thing to ask the board once it is connected. Each is tried once; failure is no harm.
#[derive(Debug, Clone, Copy, PartialEq, Eq, Structural)]
pub enum InitialQuery {
    /// Wait this many milliseconds first.
    Pause(u64),
    /// Read the device information, and report it.
    DeviceInfo,
    /// Read the work mode, and report it.
    WorkMode,
    /// Tell the board that the application runs.
    AppOnline,
}

/// What a change of the connection asks for.
pub struct ConnectionPlan {
    /// Stop the USB audio reader and capture.
    pub stop_usb_audio: bool,
    /// Switch BLE audio off.
    pub stop_ble_audio: bool,
    pub queries: Vec<InitialQuery>,
}

/// How an audio reader gets started.
pub enum ReaderPlan {
    /// It runs already.
    Running,
    /// Refused, and nothing was touched.
    Refused(BoardError),
    /// The old route was closed, but the new one cannot be opened.
    Failed(BoardError),
    /// Close the old route and start the USB reader for this connection.
    StartUsb { epoch: u64 },
    /// Close the old route and switch BLE audio on.
    StartBle,
}

/// What a stream-control reply leads to.
pub struct StreamOutcome {
    pub result: Result<AudioStreamState, BoardError>,
    /// Close the local route.
    pub stop_readers: bool,
}

/// Who gets the decoded audio.
#[derive(Debug, Clone, Copy, PartialEq, Eq, Structural)]
pub enum SinkChoice {
    Frames,
    Pcm,
    Counting,
}

/// The sink for frames where one is set, else the one for samples, else a counter.
pub fn build_audio_sink(has_frame_sink: bool, has_pcm_sink: bool) -> (r: SinkChoice)
    ensures
        r == (if has_frame_sink {
            SinkChoice::Frames
        } else if has_pcm_sink {
            SinkChoice::Pcm
        } else {
            SinkChoice::Counting
        }),
{
    if has_frame_sink {
        SinkChoice::Frames
    } else if has_pcm_sink {
        SinkChoice::Pcm
    } else {
        SinkChoice::Counting
    }
}

/// Capabilities of a board that announced none.
pub open spec fn no_capabilities() -> AudioCapabilities {
    AudioCapabilities {
        protocol_version: 0,
        usb_vendor_hid_msbc_v1: false,
        ble_gatt_msbc_v1: false,
        stream_control_v1: false,
        packet_sequence_v1: false,
        envelope_version: 0,
        usb_max_payload: 0,
        ble_max_payload: 0,
        default_ttl_ms: 0,
        max_ttl_ms: 0,
    }
}

/// The device.
pub struct BoardDeviceCore {
    hotplug_config: HotplugConfig,
    started: bool,
    connection: Option<ConnectionType>,
    ble_target: Option<String>,
    ble_auto_connect: bool,
    audio_capabilities: AudioCapabilities,
    capability_state: AudioCapabilityState,
    active_audio_transport: Option<AudioTransport>,
    audio_stream_state: Option<AudioStreamState>,
    audio_connection_epoch: u64,
    ble_audio_enabled: bool,
}

/// Mathematical form of the device.
pub struct CoreView {
    pub hotplug_config: HotplugConfig,
    pub started: bool,
    pub connection: Option<ConnectionType>,
    pub ble_target: Option<Seq<char>>,
    pub ble_auto_connect: bool,
    pub capabilities: AudioCapabilities,
    pub capability_state: AudioCapabilityState,
    pub active: Option<AudioTransport>,
    pub stream: Option<AudioStreamState>,
    pub epoch: u64,
    pub ble_audio: bool,
}

impl View for BoardDeviceCore {
    type V = CoreView;

    closed spec fn view(&self) -> CoreView {
        CoreView {
            hotplug_config: self.hotplug_config,
            started: self.started,
            connection: self.connection,
            ble_target: hotplug::text_of(self.ble_target),
            ble_auto_connect: self.ble_auto_connect,
            capabilities: self.audio_capabilities,
            capability_state: self.capability_state,
            active: self.active_audio_transport,
            stream: self.audio_stream_state,
            epoch: self.audio_connection_epoch,
            ble_audio: self.ble_audio_enabled,
        }
    }
}

/// A device that was opened with these intervals and not started. BLE is off until it is asked
/// for.
pub open spec fn opened(hotplug_config: HotplugConfig) -> CoreView {
    CoreView {
        hotplug_config,
        started: false,
        connection: None,
        ble_target: None,
        ble_auto_connect: false,
        capabilities: no_capabilities(),
        capability_state: AudioCapabilityState::Unqueried,
        active: None,
        stream: None,
        epoch: 0,
        ble_audio: false,
    }
}

/// The local audio route is closed.
pub open spec fn without_reader(c: CoreView) -> CoreView {
    CoreView { active: None, ble_audio: false, ..c }
}

/// Nothing is known of the board's audio.
pub open spec fn without_audio_state(c: CoreView) -> CoreView {
    CoreView {
        stream: None,
        capabilities: no_capabilities(),
        capability_state: AudioCapabilityState::Unqueried,
        ..c
    }
}

/// The device after its connection changed. A new connection gets a new epoch; losing or changing
/// one closes the audio route and forgets the lease and the capabilities.
pub open spec fn after_connection(c: CoreView, now: Option<ConnectionType>) -> CoreView {
    let changed = c.connection != now;
    let counted = CoreView {
        connection: now,
        epoch: if now is Some && changed {
            ((c.epoch + 1) % 0x1_0000_0000_0000_0000) as u64
        } else {
            c.epoch
        },
        ..c
    };
    let closed = if c.connection is Some && changed {
        without_audio_state(without_reader(counted))
    } else {
        counted
    };
    if now is None {
        without_audio_state(CoreView { active: None, ..closed })
    } else {
        closed
    }
}

/// What is asked of a board once it is connected.
pub open spec fn initial_queries(now: Option<ConnectionType>) -> Seq<InitialQuery> {
    match now {
        Some(ConnectionType::Usb) => seq![InitialQuery::WorkMode, InitialQuery::AppOnline],
        Some(ConnectionType::Ble) => seq![
            InitialQuery::Pause(BLE_SETTLE_MS),
            InitialQuery::DeviceInfo,
            InitialQuery::WorkMode,
            InitialQuery::AppOnline,
        ],
        None => Seq::empty(),
    }
}

/// The event for the work mode read when the board was connected.
pub fn initial_mode_event(mode: WorkMode) -> (r: BoardEvent)
    ensures
        r@ == (EventView::ModeChange {
            mode: mode.label(),
            mode_value: match mode {
                WorkMode::Chat => 0,
                WorkMode::Yolo => 1,
                WorkMode::Plan => 2,
            },
            source: ModeSource::Connection,
        }),
{
    let mode_value: u8 = match mode {
        WorkMode::Chat => 0,
        WorkMode::Yolo => 1,
        WorkMode::Plan => 2,
    };
    BoardEvent::ModeChange(
        ModeChangeEvent {
            mode: mode.display_name().to_string(),
            mode_value,
            source: ModeSource::Connection,
        },
    )
}

/// Name of a transport in messages.
pub open spec fn transport_label(transport: AudioTransport) -> Seq<char> {
    match transport {
        AudioTransport::UsbVendorHid => "UsbVendorHid"@,
        AudioTransport::BleGatt => "BleGatt"@,
        AudioTransport::UsbUac => "UsbUac"@,
        AudioTransport::System => "System"@,
    }
}

fn transport_name(transport: AudioTransport) -> (r: &'static str)
    ensures
        r@ == transport_label(transport),
{
    match transport {
        AudioTransport::UsbVendorHid => "UsbVendorHid",
        AudioTransport::BleGatt => "BleGatt",
        AudioTransport::UsbUac => "UsbUac",
        AudioTransport::System => "System",
    }
}

/// Name of a stream-control answer in messages.
pub open spec fn result_label(result: AudioStreamResult) -> Seq<char> {
    match result {
        AudioStreamResult::Success => "Ok"@,
        AudioStreamResult::UnsupportedVersion => "UnsupportedVersion"@,
        AudioStreamResult::Busy => "Busy"@,
        AudioStreamResult::LeaseMismatch => "LeaseMismatch"@,
        AudioStreamResult::InvalidArgument => "InvalidArgument"@,
        AudioStreamResult::TransportUnavailable => "TransportUnavailable"@,
    }
}

fn result_name(result: AudioStreamResult) -> (r: &'static str)
    ensures
        r@ == result_label(result),
{
    match result {
        AudioStreamResult::Success => "Ok",
        AudioStreamResult::UnsupportedVersion => "UnsupportedVersion",
        AudioStreamResult::Busy => "Busy",
        AudioStreamResult::LeaseMismatch => "LeaseMismatch",
        AudioStreamResult::InvalidArgument => "InvalidArgument",
        AudioStreamResult::TransportUnavailable => "TransportUnavailable",
    }
}

fn error_with(label: &str, middle: &str, tail: &str) -> (r: BoardError)
    ensures
        r matches BoardError::Other(m) && m@ == label@ + middle@ + tail@,
{
    let mut out: String = label.to_string();
    out.append(middle);
    out.append(tail);
    BoardError::Other(out)
}

/// Text of a transport that the board does not offer.
pub open spec fn unsupported_text(transport: AudioTransport) -> Seq<char> {
    "当前 capability 不支持 "@ + transport_label(transport) + ""@
}

/// Text of a reader that was asked for without a lease.
pub open spec fn no_lease_text(transport: AudioTransport) -> Seq<char> {
    "必须先为 "@ + transport_label(transport) + " 成功建立固件 audio stream lease"@
}

/// What a stream-control reply means: the lease state, or why the request failed.
pub open spec fn stream_control_result(
    reply: CommandReply,
    action: AudioStreamAction,
    transport: AudioTransport,
    scope: AudioStreamScope,
    lease_id: u32,
) -> Result<AudioStreamState, Seq<char>> {
    match commands::stream_state_in(reply) {
        None => Err("audio stream-control 响应无效"@),
        Some(state) => if state.result != AudioStreamResult::Success {
            Err("audio stream-control 被固件拒绝: "@ + result_label(state.result) + ""@)
        } else if !state.acknowledges(action, transport, scope, lease_id) {
            Err("audio stream-control 回包与请求 owner/scope/lease 不一致"@)
        } else {
            Ok(state)
        },
    }
}

/// The local route is to be closed after a stream-control reply: on a stop, and when the board
/// says that the lease is not ours.
pub open spec fn closes_route(
    reply: CommandReply,
    action: AudioStreamAction,
    transport: AudioTransport,
    scope: AudioStreamScope,
    lease_id: u32,
) -> bool {
    match commands::stream_state_in(reply) {
        None => false,
        Some(state) => if state.result == AudioStreamResult::LeaseMismatch {
            action != AudioStreamAction::Start
        } else {
            action == AudioStreamAction::Stop && state.acknowledges(
                action,
                transport,
                scope,
                lease_id,
            )
        },
    }
}

/// The device after a stream-control reply.
pub open spec fn after_stream_control(
    c: CoreView,
    reply: CommandReply,
    action: AudioStreamAction,
    transport: AudioTransport,
    scope: AudioStreamScope,
    lease_id: u32,
) -> CoreView {
    if closes_route(reply, action, transport, scope, lease_id) {
        CoreView { stream: None, ..without_reader(c) }
    } else {
        match stream_control_result(reply, action, transport, scope, lease_id) {
            Ok(state) => CoreView { stream: Some(state), ..c },
            Err(_) => c,
        }
    }
}

/// The reader of a transport runs already.
pub open spec fn reader_runs(c: CoreView, transport: AudioTransport, usb_reader_running: bool) -> bool {
    c.active == Some(transport) && (transport == AudioTransport::BleGatt || (transport
        == AudioTransport::UsbVendorHid && usb_reader_running))
}

/// Why a reader is refused before anything is touched.
pub open spec fn reader_refusal(c: CoreView, transport: AudioTransport) -> Option<Seq<char>> {
    if !c.capabilities.can_use(transport) {
        Some(unsupported_text(transport))
    } else if !(c.stream matches Some(s) && s.active_transport == Some(transport)) {
        Some(no_lease_text(transport))
    } else {
        None
    }
}

/// Why a reader cannot be opened once the old route is closed.
pub open spec fn reader_failure(c: CoreView, transport: AudioTransport, ble_ready: bool) -> Option<
    Seq<char>,
> {
    match transport {
        AudioTransport::UsbVendorHid => if c.connection != Some(ConnectionType::Usb) {
            Some("当前不是 USB 连接"@)
        } else {
            None
        },
        AudioTransport::BleGatt => if c.connection != Some(ConnectionType::Ble) {
            Some("当前不是 BLE 连接"@)
        } else if !ble_ready {
            Some("VendorGattClient 未就绪"@)
        } else {
            None
        },
        AudioTransport::UsbUac => Some("此方法只启动 Board Vendor transport"@),
        AudioTransport::System => Some("此方法只启动 Board Vendor transport"@),
    }
}

/// The device once a reader was asked for. A refusal leaves it as it was.
pub open spec fn after_reader_request(
    c: CoreView,
    transport: AudioTransport,
    usb_reader_running: bool,
    ble_ready: bool,
) -> CoreView {
    if reader_runs(c, transport, usb_reader_running) || reader_refusal(c, transport) is Some {
        c
    } else if reader_failure(c, transport, ble_ready) is Some || transport
        == AudioTransport::UsbVendorHid {
        without_reader(c)
    } else {
        CoreView { active: Some(transport), ble_audio: true, ..c }
    }
}

/// `r` is the plan for a reader.
pub open spec fn is_reader_plan(
    r: ReaderPlan,
    c: CoreView,
    transport: AudioTransport,
    usb_reader_running: bool,
    ble_ready: bool,
) -> bool {
    if reader_runs(c, transport, usb_reader_running) {
        r is Running
    } else {
        match reader_refusal(c, transport) {
            Some(t) => r matches ReaderPlan::Refused(BoardError::Other(m)) && m@ == t,
            None => match reader_failure(c, transport, ble_ready) {
                Some(t) => r matches ReaderPlan::Failed(BoardError::Other(m)) && m@ == t,
                None => if transport == AudioTransport::UsbVendorHid {
                    r matches ReaderPlan::StartUsb { epoch } && epoch == c.epoch
                } else {
                    r is StartBle
                },
            },
        }
    }
}

/// Why capture through the system is refused.
pub open spec fn uac_refusal(c: CoreView, has_pcm_sink: bool) -> Option<Seq<char>> {
    if c.connection != Some(ConnectionType::Usb) {
        Some("当前不是 USB 连接"@)
    } else if c.stream is Some {
        Some("Board audio lease 仍活跃，必须先显式 STOP 后才能打开 UAC"@)
    } else if !has_pcm_sink {
        Some("尚未设置 PcmSink"@)
    } else {
        None
    }
}

/// The result of a request that can only fail with a text.
pub open spec fn done_or(why: Option<Seq<char>>) -> Result<(), Seq<char>> {
    match why {
        Some(t) => Err(t),
        None => Ok(()),
    }
}

impl BoardDeviceCore {
    /// A device that was opened and not started. It keeps how often the manager is to look, and
    /// opening never fails.
    pub fn new(config: HotplugConfig) -> (r: Result<Self, BoardError>)
        ensures
            r matches Ok(device) && device@ == opened(config),
    {
        Ok(
            BoardDeviceCore {
                hotplug_config: config,
                started: false,
                connection: None,
                ble_target: None,
                ble_auto_connect: false,
                audio_capabilities: AudioCapabilities::default(),
                capability_state: AudioCapabilityState::Unqueried,
                active_audio_transport: None,
                audio_stream_state: None,
                audio_connection_epoch: 0,
                ble_audio_enabled: false,
            },
        )
    }

    /// How often the manager of this device is to look.
    pub fn hotplug_config(&self) -> (r: HotplugConfig)
        ensures
            r == self@.hotplug_config,
    {
        self.hotplug_config
    }

    /// Remembers a BLE board by its name, or forgets it.
    pub fn set_ble_target(&mut self, name: Option<String>)
        ensures
            final(self)@ == (CoreView { ble_target: hotplug::text_of(name), ..old(self)@ }),
    {
        self.ble_target = name;
    }

    /// The BLE board that is remembered.
    pub fn ble_target(&self) -> (r: Option<String>)
        ensures
            hotplug::text_of(r) == self@.ble_target,
    {
        match &self.ble_target {
            Some(t) => Some(t.clone()),
            None => None,
        }
    }

    /// Allows or forbids BLE.
    pub fn set_auto_reconnect(&mut self, on: bool)
        ensures
            final(self)@ == (CoreView { ble_auto_connect: on, ..old(self)@ }),
    {
        self.ble_auto_connect = on;
    }

    /// BLE is allowed.
    pub fn auto_reconnect(&self) -> (r: bool)
        ensures
            r == self@.ble_auto_connect,
    {
        self.ble_auto_connect
    }

    /// Asks for a BLE board by its name.
    pub fn connect_ble(&mut self, name: String)
        ensures
            final(self)@ == (CoreView {
                ble_target: Some(name@),
                ble_auto_connect: true,
                ..old(self)@
            }),
    {
        self.ble_target = Some(name);
        self.ble_auto_connect = true;
    }

    /// How the board is connected.
    pub fn connection(&self) -> (r: Option<ConnectionType>)
        ensures
            r == self@.connection,
    {
        self.connection
    }

    /// A board is connected.
    pub fn is_connected(&self) -> (r: bool)
        ensures
            r == (self@.connection is Some),
    {
        self.connection.is_some()
    }

    /// The audio features that the board announced last; none before it was asked.
    pub fn audio_capabilities(&self) -> (r: AudioCapabilities)
        ensures
            r == self@.capabilities,
    {
        self.audio_capabilities
    }

    /// What is known of the board's audio features.
    pub fn audio_capability_state(&self) -> (r: AudioCapabilityState)
        ensures
            r == self@.capability_state,
    {
        self.capability_state
    }

    /// The audio route that is open.
    pub fn active_audio_transport(&self) -> (r: Option<AudioTransport>)
        ensures
            r == self@.active,
    {
        self.active_audio_transport
    }

    /// Number of the current connection; audio frames carry it.
    pub fn connection_epoch(&self) -> (r: u64)
        ensures
            r == self@.epoch,
    {
        self.audio_connection_epoch
    }

    /// BLE audio is passed on.
    pub fn is_ble_audio_enabled(&self) -> (r: bool)
        ensures
            r == self@.ble_audio,
    {
        self.ble_audio_enabled
    }

    /// Starts the device; false when it was started already.
    pub fn start(&mut self) -> (r: bool)
        ensures
            r == !old(self)@.started,
            final(self)@ == (CoreView { started: true, ..old(self)@ }),
    {
        let fresh: bool = !self.started;
        self.started = true;
        fresh
    }

    /// Takes in a change of the connection. No audio input is ever opened here.
    pub fn on_connection_change(&mut self, now: Option<ConnectionType>) -> (r: ConnectionPlan)
        ensures
            final(self)@ == after_connection(old(self)@, now),
            r.stop_usb_audio == (now is None || (old(self)@.connection is Some
                && old(self)@.connection != now)),
            r.stop_ble_audio == (old(self)@.connection is Some && old(self)@.connection != now),
            r.queries@ == initial_queries(now),
    {
        let previous: Option<ConnectionType> = self.connection;
        let changed: bool = previous != now;
        self.connection = now;
        if now.is_some() && changed {
            self.audio_connection_epoch = self.audio_connection_epoch.wrapping_add(1);
        }
        let lost: bool = previous.is_some() && changed;
        if lost {
            self.stop_local_audio_reader();
            self.audio_stream_state = None;
            self.audio_capabilities = AudioCapabilities::default();
            self.capability_state = AudioCapabilityState::Unqueried;
        }
        let mut queries: Vec<InitialQuery> = Vec::new();
        match now {
            Some(ConnectionType::Usb) => {
                queries.push(InitialQuery::WorkMode);
                queries.push(InitialQuery::AppOnline);
            },
            Some(ConnectionType::Ble) => {
                queries.push(InitialQuery::Pause(BLE_SETTLE_MS));
                queries.push(InitialQuery::DeviceInfo);
                queries.push(InitialQuery::WorkMode);
                queries.push(InitialQuery::AppOnline);
            },
            None => {
                self.active_audio_transport = None;
                self.audio_stream_state = None;
                self.audio_capabilities = AudioCapabilities::default();
                self.capability_state = AudioCapabilityState::Unqueried;
            },
        }
        assert(queries@ =~= initial_queries(now));
        ConnectionPlan { stop_usb_audio: now.is_none() || lost, stop_ble_audio: lost, queries }
    }

    /// Stops the device; the USB audio reader and capture have to be stopped with it.
    pub fn shutdown(&mut self)
        ensures
            final(self)@ == (CoreView { started: false, active: None, stream: None, ..old(self)@ }),
    {
        self.started = false;
        self.active_audio_transport = None;
        self.audio_stream_state = None;
    }

    /// Ends the connection at the user's wish. A BLE link is dropped, not to come back by itself,
    /// and the event to report is returned; a cable has to be pulled.
    pub fn disconnect(&mut self) -> (r: Result<Option<BoardEvent>, BoardError>)
        ensures
            match old(self)@.connection {
                None => r == Ok::<Option<BoardEvent>, BoardError>(None) && final(self)@ == old(
                    self,
                )@,
                Some(ConnectionType::Usb) => error::fails_with(
                    r,
                    "USB 为物理连接，无法主动断开（请拔出线缆）"@,
                ) && final(self)@ == old(self)@,
                Some(ConnectionType::Ble) => (r matches Ok(Some(e)) && e@ == EventView::Connection(
                    ConnectionEvent {
                        connected: false,
                        connection_type: None,
                        reason: Some(DisconnectReason::UserAction),
                    },
                )) && final(self)@ == (CoreView {
                    ble_auto_connect: false,
                    ble_target: None,
                    connection: None,
                    ..old(self)@
                }),
            },
    {
        match self.connection {
            None => Ok(None),
            Some(ConnectionType::Usb) => Err(
                other_error("USB 为物理连接，无法主动断开（请拔出线缆）"),
            ),
            Some(ConnectionType::Ble) => {
                self.ble_auto_connect = false;
                self.ble_target = None;
                self.connection = None;
                Ok(
                    Some(
                        BoardEvent::Connection(
                            ConnectionEvent {
                                connected: false,
                                connection_type: None,
                                reason: Some(DisconnectReason::UserAction),
                            },
                        ),
                    ),
                )
            },
        }
    }

    /// Asks for the device information.
    pub fn read_device_info(&self) -> (r: Result<CommandRequest, BoardError>)
        ensures
            commands::request_outcome(
                r,
                self@.connection,
                protocol_hid::command(CMD_GET_DEVICE_INFO, 2, Seq::empty()),
                CMD_GET_DEVICE_INFO,
            ),
    {
        request(self.connection, HidPacket::get_device_info(), CMD_GET_DEVICE_INFO)
    }

    /// Asks for the key configuration.
    pub fn read_key_config(&self) -> (r: Result<CommandRequest, BoardError>)
        ensures
            commands::request_outcome(
                r,
                self@.connection,
                protocol_hid::command(CMD_GET_KEY_SETTING, 0, Seq::empty()),
                CMD_GET_KEY_SETTING,
            ),
    {
        request(self.connection, HidPacket::get_key_config(), CMD_GET_KEY_SETTING)
    }

    /// Writes the key configuration.
    pub fn write_key_config(&self, config: &KeyConfig) -> (r: Result<CommandRequest, BoardError>)
        ensures
            commands::request_outcome(
                r,
                self@.connection,
                protocol_hid::command(
                    CMD_SET_KEY_SETTING,
                    60,
                    protocol_hid::config_bytes(config.keys@),
                ),
                CMD_SET_KEY_SETTING,
            ),
    {
        request(self.connection, HidPacket::set_key_config(&config.to_bytes()), CMD_SET_KEY_SETTING)
    }

    /// Asks for the silent-record switch.
    pub fn get_silent_record(&self) -> (r: Result<CommandRequest, BoardError>)
        ensures
            commands::request_outcome(
                r,
                self@.connection,
                protocol_hid::command(CMD_GET_SILENT_RECORD, 0, Seq::empty()),
                CMD_GET_SILENT_RECORD,
            ),
    {
        request(self.connection, HidPacket::get_silent_record(), CMD_GET_SILENT_RECORD)
    }

    /// Sets the silent-record switch.
    pub fn set_silent_record(&self, enable: bool) -> (r: Result<CommandRequest, BoardError>)
        ensures
            commands::request_outcome(
                r,
                self@.connection,
                protocol_hid::command(
                    CMD_SET_SILENT_RECORD,
                    1,
                    seq![protocol_hid::flag_byte(enable)],
                ),
                CMD_SET_SILENT_RECORD,
            ),
    {
        request(self.connection, HidPacket::set_silent_record(enable), CMD_SET_SILENT_RECORD)
    }

    /// Enters, renews or leaves the factory key test. Session 0 is refused.
    pub fn set_factory_key_test(&self, enable: bool, session: u16) -> (r: Result<
        CommandRequest,
        BoardError,
    >)
        ensures
            if self@.connection is Some && session == 0 {
                r matches Err(BoardError::Protocol(m)) && m@ == "工厂按键测试 session 不能为 0"@
            } else {
                commands::request_outcome(
                    r,
                    self@.connection,
                    protocol_hid::command(
                        CMD_AI_FACTORY_KEY_TEST_CONTROL,
                        4,
                        seq![protocol_hid::flag_byte(enable), FACTORY_KEY_TEST_PROTOCOL_VERSION]
                            + bytes::le16_bytes(session),
                    ),
                    CMD_AI_FACTORY_KEY_TEST_CONTROL,
                )
            },
    {
        if self.connection.is_none() {
            return Err(other_error("设备未连接"));
        }
        match HidPacket::factory_key_test_control(enable, session) {
            Ok(packet) => request(self.connection, packet, CMD_AI_FACTORY_KEY_TEST_CONTROL),
            Err(e) => Err(e),
        }
    }

    /// Asks for the work mode.
    pub fn get_work_mode(&self) -> (r: Result<CommandRequest, BoardError>)
        ensures
            commands::request_outcome(
                r,
                self@.connection,
                protocol_hid::command(CMD_STATUS, 4, seq![CMD_WORK_MODE_DATA]),
                CMD_STATUS,
            ),
    {
        request(self.connection, HidPacket::get_work_mode(), CMD_STATUS)
    }

    /// Asks for the sleep timeouts.
    pub fn get_sleep_timeout(&self) -> (r: Result<CommandRequest, BoardError>)
        ensures
            commands::request_outcome(
                r,
                self@.connection,
                protocol_hid::command(CMD_GET_SLEEP_TIMEOUT, 0, Seq::empty()),
                CMD_GET_SLEEP_TIMEOUT,
            ),
    {
        request(self.connection, HidPacket::get_sleep_timeout(), CMD_GET_SLEEP_TIMEOUT)
    }

    /// Sets the sleep timeouts.
    pub fn set_sleep_timeout(&self, timeout: SleepTimeout) -> (r: Result<CommandRequest, BoardError>)
        ensures
            commands::request_outcome(
                r,
                self@.connection,
                protocol_hid::command(
                    CMD_SET_SLEEP_TIMEOUT,
                    4,
                    bytes::le16_bytes(timeout.disconnected) + bytes::le16_bytes(timeout.connected),
                ),
                CMD_SET_SLEEP_TIMEOUT,
            ),
    {
        request(self.connection, HidPacket::set_sleep_timeout(timeout), CMD_SET_SLEEP_TIMEOUT)
    }

    /// Tells the board whether the application runs.
    pub fn notify_app_online(&self, online: bool) -> (r: Result<CommandRequest, BoardError>)
        ensures
            commands::request_outcome(
                r,
                self@.connection,
                protocol_hid::command(
                    CMD_AI_APP_ONLINE_NOTIFY,
                    1,
                    seq![protocol_hid::flag_byte(online)],
                ),
                CMD_AI_APP_ONLINE_NOTIFY,
            ),
    {
        request(self.connection, HidPacket::app_online_notify(online), CMD_AI_APP_ONLINE_NOTIFY)
    }

    /// Asks whether the board takes the application for running.
    pub fn get_app_online(&self) -> (r: Result<CommandRequest, BoardError>)
        ensures
            commands::request_outcome(
                r,
                self@.connection,
                protocol_hid::command(CMD_AI_GET_APP_ONLINE, 0, Seq::empty()),
                CMD_AI_GET_APP_ONLINE,
            ),
    {
        request(self.connection, HidPacket::get_app_online(), CMD_AI_GET_APP_ONLINE)
    }

    /// Asks for the offline web address.
    pub fn get_open_url(&self) -> (r: Result<CommandRequest, BoardError>)
        ensures
            commands::request_outcome(
                r,
                self@.connection,
                protocol_hid::command(CMD_AI_GET_OPEN_URL, 0, Seq::empty()),
                CMD_AI_GET_OPEN_URL,
            ),
    {
        request(self.connection, HidPacket::get_open_url(), CMD_AI_GET_OPEN_URL)
    }

    /// Sets the offline web address, as far as the report holds it.
    pub fn set_open_url(&self, url: &str) -> (r: Result<CommandRequest, BoardError>)
        ensures
            commands::request_outcome(
                r,
                self@.connection,
                protocol_hid::command(CMD_AI_SET_OPEN_URL, 0x40, protocol_hid::open_url_data(url@)),
                CMD_AI_SET_OPEN_URL,
            ),
    {
        request(self.connection, HidPacket::set_open_url(url), CMD_AI_SET_OPEN_URL)
    }

    /// Switches the board off.
    pub fn shutdown_device(&self, keep_pair: bool) -> (r: Result<CommandRequest, BoardError>)
        ensures
            commands::request_outcome(
                r,
                self@.connection,
                protocol_hid::command(
                    CMD_AI_SHUTDOWN,
                    1,
                    seq![
                        if keep_pair {
                            1u8
                        } else {
                            2u8
                        },
                    ],
                ),
                CMD_AI_SHUTDOWN,
            ),
    {
        request(self.connection, HidPacket::shutdown(keep_pair), CMD_AI_SHUTDOWN)
    }

    /// Asks for the audio features.
    pub fn query_audio_capabilities(&self) -> (r: Result<CommandRequest, BoardError>)
        ensures
            commands::request_outcome(
                r,
                self@.connection,
                protocol_hid::command(CMD_AI_GET_AUDIO_CAPABILITIES, 0, Seq::empty()),
                CMD_AI_GET_AUDIO_CAPABILITIES,
            ),
    {
        request(
            self.connection,
            HidPacket::get_audio_capabilities(),
            CMD_AI_GET_AUDIO_CAPABILITIES,
        )
    }

    /// Takes in the answer to the question for audio features. A board that does not announce them
    /// has none; nothing is inferred from its version.
    pub fn audio_capabilities_replied(&mut self, reply: &CommandReply) -> (r: Result<
        AudioCapabilities,
        BoardError,
    >)
        requires
            reply.inv(),
        ensures
            error::outcome(
                r,
                match commands::capabilities_in(*reply) {
                    Some(c) => Ok(c),
                    None => Err("固件不支持版本化板载音频 capability"@),
                },
            ),
            final(self)@ == (match commands::capabilities_in(*reply) {
                Some(c) => CoreView {
                    capabilities: c,
                    capability_state: AudioCapabilityState::Ready(c),
                    ..old(self)@
                },
                None => CoreView {
                    capability_state: AudioCapabilityState::Unavailable,
                    ..old(self)@
                },
            }),
    {
        match audio_capabilities_in(reply) {
            Some(c) => {
                self.audio_capabilities = c;
                self.capability_state = AudioCapabilityState::Ready(c);
                Ok(c)
            },
            None => {
                self.capability_state = AudioCapabilityState::Unavailable;
                Err(other_error("固件不支持版本化板载音频 capability"))
            },
        }
    }

    /// Takes, renews or gives back a stream lease.
    pub fn control_audio_stream(
        &self,
        action: AudioStreamAction,
        transport: AudioTransport,
        scope: AudioStreamScope,
        lease_id: u32,
        ttl_ms: u16,
    ) -> (r: Result<CommandRequest, BoardError>)
        ensures
            if lease_id == 0 {
                error::fails_with(r, "audio lease_id 不能为 0"@)
            } else if protocol_hid::transport_mask(transport) is None {
                error::fails_with(r, "系统/UAC 输入不使用固件 stream lease"@)
            } else {
                commands::request_outcome(
                    r,
                    self@.connection,
                    protocol_hid::command(
                        CMD_AI_AUDIO_STREAM_CONTROL,
                        10,
                        seq![
                            action.code_spec(),
                            protocol_hid::transport_mask(transport).unwrap(),
                            scope.code_spec(),
                            crate::kernel::audio::AUDIO_PROTOCOL_VERSION,
                        ] + bytes::le32_bytes(lease_id) + bytes::le16_bytes(ttl_ms),
                    ),
                    CMD_AI_AUDIO_STREAM_CONTROL,
                )
            },
    {
        if lease_id == 0 {
            return Err(other_error("audio lease_id 不能为 0"));
        }
        match HidPacket::audio_stream_control(action, transport, scope, lease_id, ttl_ms) {
            Some(packet) => request(self.connection, packet, CMD_AI_AUDIO_STREAM_CONTROL),
            None => Err(other_error("系统/UAC 输入不使用固件 stream lease")),
        }
    }

    /// Takes in the reply to a stream-control request.
    pub fn audio_stream_replied(
        &mut self,
        action: AudioStreamAction,
        transport: AudioTransport,
        scope: AudioStreamScope,
        lease_id: u32,
        reply: &CommandReply,
    ) -> (r: StreamOutcome)
        requires
            reply.inv(),
        ensures
            error::outcome(
                r.result,
                stream_control_result(*reply, action, transport, scope, lease_id),
            ),
            r.stop_readers == closes_route(*reply, action, transport, scope, lease_id),
            final(self)@ == after_stream_control(
                old(self)@,
                *reply,
                action,
                transport,
                scope,
                lease_id,
            ),
    {
        let state: AudioStreamState = match audio_stream_state_in(reply) {
            Some(s) => s,
            None => {
                return StreamOutcome {
                    result: Err(other_error("audio stream-control 响应无效")),
                    stop_readers: false,
                };
            },
        };
        if state.result != AudioStreamResult::Success {
            let foreign: bool = state.result == AudioStreamResult::LeaseMismatch && action
                != AudioStreamAction::Start;
            if foreign {
                self.audio_stream_state = None;
                self.stop_local_audio_reader();
            }
            return StreamOutcome {
                result: Err(
                    error_with("audio stream-control 被固件拒绝: ", result_name(state.result), ""),
                ),
                stop_readers: foreign,
            };
        }
        if !state.matches_request(action, transport, scope, lease_id) {
            return StreamOutcome {
                result: Err(other_error("audio stream-control 回包与请求 owner/scope/lease 不一致")),
                stop_readers: false,
            };
        }
        match action {
            AudioStreamAction::Stop => {
                self.audio_stream_state = None;
                self.stop_local_audio_reader();
                StreamOutcome { result: Ok(state), stop_readers: true }
            },
            _ => {
                self.audio_stream_state = Some(state);
                StreamOutcome { result: Ok(state), stop_readers: false }
            },
        }
    }

    /// Plans to open the local reader of a vendor transport, which needs a lease. Everything is
    /// checked before the old route is touched.
    pub fn start_board_audio_reader(
        &mut self,
        transport: AudioTransport,
        usb_reader_running: bool,
        ble_ready: bool,
    ) -> (r: ReaderPlan)
        ensures
            is_reader_plan(r, old(self)@, transport, usb_reader_running, ble_ready),
            final(self)@ == after_reader_request(
                old(self)@,
                transport,
                usb_reader_running,
                ble_ready,
            ),
    {
        if self.active_audio_transport == Some(transport) {
            if transport == AudioTransport::UsbVendorHid && usb_reader_running {
                return ReaderPlan::Running;
            }
            if transport == AudioTransport::BleGatt {
                return ReaderPlan::Running;
            }
        }
        if !self.audio_capabilities.supports(transport) {
            return ReaderPlan::Refused(
                error_with("当前 capability 不支持 ", transport_name(transport), ""),
            );
        }
        let leased: bool = match self.audio_stream_state {
            Some(s) => s.active_transport == Some(transport),
            None => false,
        };
        if !leased {
            return ReaderPlan::Refused(
                error_with(
                    "必须先为 ",
                    transport_name(transport),
                    " 成功建立固件 audio stream lease",
                ),
            );
        }
        self.stop_local_audio_reader();
        match transport {
            AudioTransport::UsbVendorHid => {
                if self.connection != Some(ConnectionType::Usb) {
                    return ReaderPlan::Failed(other_error("当前不是 USB 连接"));
                }
                ReaderPlan::StartUsb { epoch: self.audio_connection_epoch }
            },
            AudioTransport::BleGatt => {
                if self.connection != Some(ConnectionType::Ble) {
                    return ReaderPlan::Failed(other_error("当前不是 BLE 连接"));
                }
                if !ble_ready {
                    return ReaderPlan::Failed(other_error("VendorGattClient 未就绪"));
                }
                self.ble_audio_enabled = true;
                self.active_audio_transport = Some(transport);
                ReaderPlan::StartBle
            },
            _ => ReaderPlan::Failed(other_error("此方法只启动 Board Vendor transport")),
        }
    }

    /// The USB reader that was planned runs.
    pub fn usb_reader_started(&mut self)
        ensures
            final(self)@ == (CoreView { active: Some(AudioTransport::UsbVendorHid), ..old(self)@ }),
    {
        self.active_audio_transport = Some(AudioTransport::UsbVendorHid);
    }

    /// Switches session-only BLE audio on, for boards without leases. The old route is closed
    /// even if that fails for want of a client.
    pub fn start_legacy_ble_session_reader(&mut self, ble_ready: bool) -> (r: Result<(), BoardError>)
        ensures
            if old(self)@.connection != Some(ConnectionType::Ble) {
                error::fails_with(r, "旧 envelope 仅支持 BLE session"@) && final(self)@ == old(
                    self,
                )@
            } else if !ble_ready {
                error::fails_with(r, "VendorGattClient 未就绪"@) && final(self)@
                    == without_reader(old(self)@)
            } else {
                r is Ok && final(self)@ == (CoreView {
                    active: Some(AudioTransport::BleGatt),
                    ble_audio: true,
                    ..old(self)@
                })
            },
    {
        if self.connection != Some(ConnectionType::Ble) {
            return Err(other_error("旧 envelope 仅支持 BLE session"));
        }
        self.stop_local_audio_reader();
        if !ble_ready {
            return Err(other_error("VendorGattClient 未就绪"));
        }
        self.ble_audio_enabled = true;
        self.active_audio_transport = Some(AudioTransport::BleGatt);
        Ok(())
    }

    /// Plans to capture through the system's audio input. Nothing but this request ever leads
    /// there, and a lease has to be given back first.
    pub fn start_usb_uac_compat(&mut self, has_pcm_sink: bool) -> (r: Result<(), BoardError>)
        ensures
            error::outcome(r, done_or(uac_refusal(old(self)@, has_pcm_sink))),
            final(self)@ == (if old(self)@.connection != Some(ConnectionType::Usb) || old(
                self,
            )@.stream is Some {
                old(self)@
            } else if !has_pcm_sink {
                without_reader(old(self)@)
            } else {
                CoreView { active: Some(AudioTransport::UsbUac), ..without_reader(old(self)@) }
            }),
    {
        if self.connection != Some(ConnectionType::Usb) {
            return Err(other_error("当前不是 USB 连接"));
        }
        if self.audio_stream_state.is_some() {
            return Err(
                other_error("Board audio lease 仍活跃，必须先显式 STOP 后才能打开 UAC"),
            );
        }
        self.stop_local_audio_reader();
        if !has_pcm_sink {
            return Err(other_error("尚未设置 PcmSink"));
        }
        self.active_audio_transport = Some(AudioTransport::UsbUac);
        Ok(())
    }

    /// Closes the local audio route.
    pub fn stop_local_audio_reader(&mut self)
        ensures
            final(self)@ == without_reader(old(self)@),
    {
        self.active_audio_transport = None;
        self.ble_audio_enabled = false;
    }

    /// Tells whether a firmware image of this length can be installed now: over the cable, and not
    /// empty. The length counts modulo 2^32, as the protocol sends it.
    pub fn dfu_upgrade(&self, firmware_len: usize) -> (r: Result<(), BoardError>)
        ensures
            error::outcome(
                r,
                done_or(
                    match self@.connection {
                        None => Some("设备未连接"@),
                        Some(ConnectionType::Ble) => Some(
                            "固件升级仅支持 USB 连接（当前 Ble）"@,
                        ),
                        Some(ConnectionType::Usb) => if firmware_len as int % 0x1_0000_0000 == 0 {
                            Some("固件文件为空"@)
                        } else {
                            None
                        },
                    },
                ),
            ),
    {
        match self.connection {
            None => Err(other_error("设备未连接")),
            Some(ConnectionType::Ble) => Err(other_error("固件升级仅支持 USB 连接（当前 Ble）")),
            Some(ConnectionType::Usb) => {
                if (firmware_len as u64) % 0x1_0000_0000u64 == 0 {
                    Err(other_error("固件文件为空"))
                } else {
                    Ok(())
                }
            },
        }
    }
}

/// Stage of the start of board audio.
#[derive(Debug, Clone, Copy, PartialEq, Eq, Structural)]
pub enum AudioStartStage {
    Querying,
    Leasing,
    Opening,
    RollingBack,
    Finished,
}

/// What happened during the start of board audio.
pub enum AudioStartEvent {
    /// The board announced its features, or failed to.
    Capabilities(Result<AudioCapabilities, BoardError>),
    /// The lease was taken, or refused.
    Leased(Result<AudioStreamState, BoardError>),
    /// The reader was opened, or not.
    Opened(Result<(), BoardError>),
    /// The lease was given back, as far as that worked.
    RolledBack,
}

/// What to do next to start board audio.
pub enum AudioStartAction {
    /// Take the lease.
    TakeLease,
    /// Open the local reader.
    OpenReader,
    /// Give the lease back.
    GiveBack,
    /// Done, with this result.
    Done(Result<AudioStreamState, BoardError>),
}

/// The start of board audio: ask for the features, take the lease, open the reader, and give the
/// lease back if the reader does not open.
pub struct BoardAudioStart {
    transport: AudioTransport,
    stage: AudioStartStage,
    state: Option<AudioStreamState>,
    failure: Option<BoardError>,
}

/// Mathematical form of the start.
pub struct AudioStartView {
    pub transport: AudioTransport,
    pub stage: AudioStartStage,
    pub state: Option<AudioStreamState>,
    pub failure: Option<BoardError>,
}

impl View for BoardAudioStart {
    type V = AudioStartView;

    closed spec fn view(&self) -> AudioStartView {
        AudioStartView {
            transport: self.transport,
            stage: self.stage,
            state: self.state,
            failure: self.failure,
        }
    }
}

impl AudioStartView {
    /// The lease is known while the reader opens, and the failure while the lease is given back.
    pub open spec fn inv(&self) -> bool {
        &&& self.stage == AudioStartStage::Opening ==> self.state is Some
        &&& self.stage == AudioStartStage::RollingBack ==> self.failure is Some
    }

    /// The event can happen now.
    pub open spec fn expects(&self, e: AudioStartEvent) -> bool {
        match e {
            AudioStartEvent::Capabilities(_) => self.stage == AudioStartStage::Querying,
            AudioStartEvent::Leased(_) => self.stage == AudioStartStage::Leasing,
            AudioStartEvent::Opened(_) => self.stage == AudioStartStage::Opening,
            AudioStartEvent::RolledBack => self.stage == AudioStartStage::RollingBack,
        }
    }
}

/// `r` and `next` are what follows from the event `e`.
pub open spec fn audio_start_step(
    s: AudioStartView,
    e: AudioStartEvent,
    next: AudioStartView,
    r: AudioStartAction,
) -> bool {
    match e {
        AudioStartEvent::Capabilities(Err(err)) => next.stage == AudioStartStage::Finished && r
            == AudioStartAction::Done(Err(err)),
        AudioStartEvent::Capabilities(Ok(c)) => if c.can_use(s.transport) {
            next.stage == AudioStartStage::Leasing && r is TakeLease
        } else {
            next.stage == AudioStartStage::Finished && (
            r matches AudioStartAction::Done(Err(BoardError::Other(m))) && m@ == unsupported_text(
                s.transport,
            ))
        },
        AudioStartEvent::Leased(Err(err)) => next.stage == AudioStartStage::Finished && r
            == AudioStartAction::Done(Err(err)),
        AudioStartEvent::Leased(Ok(state)) => next.stage == AudioStartStage::Opening && next.state
            == Some(state) && r is OpenReader,
        AudioStartEvent::Opened(Ok(_)) => next.stage == AudioStartStage::Finished && r
            == AudioStartAction::Done(Ok(s.state.unwrap())),
        AudioStartEvent::Opened(Err(err)) => next.stage == AudioStartStage::RollingBack
            && next.failure == Some(err) && r is GiveBack,
        AudioStartEvent::RolledBack => next.stage == AudioStartStage::Finished && r
            == AudioStartAction::Done(Err(s.failure.unwrap())),
    }
}

impl BoardAudioStart {
    /// A start that first asks for the features.
    pub fn start_board_audio(transport: AudioTransport) -> (r: Self)
        ensures
            r@.inv(),
            r@ == (AudioStartView {
                transport,
                stage: AudioStartStage::Querying,
                state: None,
                failure: None,
            }),
    {
        BoardAudioStart { transport, stage: AudioStartStage::Querying, state: None, failure: None }
    }

    /// Takes in what happened.
    pub fn step(&mut self, e: AudioStartEvent) -> (r: AudioStartAction)
        requires
            old(self)@.inv(),
            old(self)@.expects(e),
        ensures
            final(self)@.inv(),
            final(self)@.transport == old(self)@.transport,
            audio_start_step(old(self)@, e, final(self)@, r),
    {
        match e {
            AudioStartEvent::Capabilities(Err(err)) => {
                self.stage = AudioStartStage::Finished;
                AudioStartAction::Done(Err(err))
            },
            AudioStartEvent::Capabilities(Ok(c)) => {
                if c.supports(self.transport) {
                    self.stage = AudioStartStage::Leasing;
                    AudioStartAction::TakeLease
                } else {
                    self.stage = AudioStartStage::Finished;
                    AudioStartAction::Done(
                        Err(
                            error_with(
                                "当前 capability 不支持 ",
                                transport_name(self.transport),
                                "",
                            ),
                        ),
                    )
                }
            },
            AudioStartEvent::Leased(Err(err)) => {
                self.stage = AudioStartStage::Finished;
                AudioStartAction::Done(Err(err))
            },
            AudioStartEvent::Leased(Ok(state)) => {
                self.stage = AudioStartStage::Opening;
                self.state = Some(state);
                AudioStartAction::OpenReader
            },
            AudioStartEvent::Opened(Ok(_)) => {
                self.stage = AudioStartStage::Finished;
                let state: AudioStreamState = self.state.unwrap();
                AudioStartAction::Done(Ok(state))
            },
            AudioStartEvent::Opened(Err(err)) => {
                self.stage = AudioStartStage::RollingBack;
                self.failure = Some(err);
                AudioStartAction::GiveBack
            },
            AudioStartEvent::RolledBack => {
                self.stage = AudioStartStage::Finished;
                let failure: BoardError = self.failure.take().unwrap();
                AudioStartAction::Done(Err(failure))
            },
        }
    }
}

/// Connecting, whatever over, opens no audio route: it stays closed until it is asked for.
pub proof fn law_connecting_opens_no_audio(
    c: CoreView,
    now: Option<ConnectionType>,
    config: HotplugConfig,
)
    ensures
        after_connection(c, now).active is None || after_connection(c, now).active == c.active,
        after_connection(c, now).ble_audio ==> c.ble_audio,
        opened(config).active is None && !opened(config).ble_audio,
{
}

/// Losing the board, or changing over to the other link, closes the route and forgets the lease
/// and the features.
pub proof fn law_a_lost_connection_forgets_its_audio(c: CoreView, now: Option<ConnectionType>)
    requires
        c.connection is Some,
        now != c.connection,
    ensures
        ({
            let n = after_connection(c, now);
            &&& n.active is None
            &&& !n.ble_audio
            &&& n.stream is None
            &&& n.capabilities == no_capabilities()
            &&& n.capability_state == AudioCapabilityState::Unqueried
        }),
{
}

/// Each new connection has an epoch of its own; being told of the same connection again changes
/// nothing.
pub proof fn law_each_connection_has_its_epoch(c: CoreView, now: ConnectionType)
    ensures
        c.connection != Some(now) ==> after_connection(c, Some(now)).epoch != c.epoch,
        c.connection == Some(now) ==> after_connection(c, Some(now)) == c,
{
}

/// A reader that is refused leaves the running route as it was.
pub proof fn law_a_refused_reader_touches_nothing(
    c: CoreView,
    transport: AudioTransport,
    usb_reader_running: bool,
    ble_ready: bool,
)
    requires
        reader_refusal(c, transport) is Some,
    ensures
        after_reader_request(c, transport, usb_reader_running, ble_ready) == c,
{
}

/// A route is opened only under a lease for exactly that transport, and only if the board
/// announced it.
pub proof fn law_a_reader_needs_a_lease(
    c: CoreView,
    transport: AudioTransport,
    usb_reader_running: bool,
    ble_ready: bool,
)
    requires
        after_reader_request(c, transport, usb_reader_running, ble_ready).active == Some(transport),
        c.active != Some(transport),
    ensures
        c.stream matches Some(s) && s.active_transport == Some(transport),
        c.capabilities.can_use(transport),
{
}

/// An answered start makes its transport leased, so that the reader is not refused for want of a
/// lease; an answered stop leaves no lease and no route.
pub proof fn law_leases_follow_the_answers(
    c: CoreView,
    reply: CommandReply,
    transport: AudioTransport,
    scope: AudioStreamScope,
    lease_id: u32,
)
    ensures
        stream_control_result(reply, AudioStreamAction::Start, transport, scope, lease_id) is Ok
            && c.capabilities.can_use(transport) ==> reader_refusal(
            after_stream_control(c, reply, AudioStreamAction::Start, transport, scope, lease_id),
            transport,
        ) is None,
        stream_control_result(reply, AudioStreamAction::Stop, transport, scope, lease_id) is Ok ==> ({
            let n = after_stream_control(
                c,
                reply,
                AudioStreamAction::Stop,
                transport,
                scope,
                lease_id,
            );
            n.stream is None && n.active is None && !n.ble_audio
        }),
{
}

/// Capture through the system's input never starts while a lease is held.
pub proof fn law_capture_waits_for_the_lease(c: CoreView, has_pcm_sink: bool)
    requires
        c.stream is Some,
    ensures
        uac_refusal(c, has_pcm_sink) is Some,
{
}

/// A start whose reader does not open gives the lease back, and reports why the reader failed.
pub proof fn law_a_failed_start_gives_the_lease_back(
    s: AudioStartView,
    failure: BoardError,
    mid: AudioStartView,
    give_back: AudioStartAction,
    end: AudioStartView,
    result: AudioStartAction,
)
    requires
        s.stage == AudioStartStage::Opening,
        audio_start_step(s, AudioStartEvent::Opened(Err(failure)), mid, give_back),
        audio_start_step(mid, AudioStartEvent::RolledBack, end, result),
    ensures
        give_back is GiveBack,
        result == AudioStartAction::Done(Err(failure)),
{
}

/// A device that was just opened has no connection, no audio and no board to look for; it keeps
/// the intervals that it was given.
pub proof fn law_an_opened_device_is_idle(config: HotplugConfig)
    ensures
        ({
            let c = opened(config);
            &&& c.hotplug_config == config
            &&& !c.started
            &&& c.connection is None
            &&& c.ble_target is None && !c.ble_auto_connect
            &&& c.active is None && !c.ble_audio && c.stream is None
            &&& c.epoch == 0
            &&& c.capability_state == AudioCapabilityState::Unqueried
            &&& !c.capabilities.usb_vendor_hid_msbc_v1 && !c.capabilities.ble_gatt_msbc_v1
        }),
{
}

/// A new connection counts up the epoch by one, from the largest number back to zero, and keeps
/// everything else where there was no connection before.
pub proof fn law_a_first_connection_only_counts_the_epoch(c: CoreView, now: ConnectionType)
    requires
        c.connection is None,
    ensures
        after_connection(c, Some(now)) == (CoreView {
            connection: Some(now),
            epoch: if c.epoch == u64::MAX {
                0
            } else {
                (c.epoch + 1) as u64
            },
            ..c
        }),
{
}

/// Losing the connection keeps the epoch and the user's wishes, and closes everything that belongs
/// to the board's audio.
pub proof fn law_a_lost_connection_keeps_the_rest(c: CoreView)
    requires
        c.connection is Some,
    ensures
        ({
            let n = after_connection(c, None);
            &&& n.connection is None
            &&& n.epoch == c.epoch
            &&& n.started == c.started
            &&& n.hotplug_config == c.hotplug_config
            &&& n.ble_target == c.ble_target
            &&& n.ble_auto_connect == c.ble_auto_connect
            &&& n.active is None && !n.ble_audio && n.stream is None
            &&& n.capability_state == AudioCapabilityState::Unqueried
            &&& !n.capabilities.usb_vendor_hid_msbc_v1 && !n.capabilities.ble_gatt_msbc_v1
            &&& n.capabilities.protocol_version == 0 && !n.capabilities.stream_control_v1
        }),
{
}

/// Changing from one connection to another takes a new epoch and forgets the audio of the old one.
pub proof fn law_a_changed_connection_starts_anew(c: CoreView, now: ConnectionType)
    requires
        c.connection is Some,
        c.connection != Some(now),
    ensures
        ({
            let n = after_connection(c, Some(now));
            &&& n.connection == Some(now)
            &&& n.epoch == (if c.epoch == u64::MAX {
                0
            } else {
                c.epoch + 1
            })
            &&& n.started == c.started
            &&& n.ble_target == c.ble_target
            &&& n.ble_auto_connect == c.ble_auto_connect
            &&& n.active is None && !n.ble_audio && n.stream is None
            &&& n.capability_state == AudioCapabilityState::Unqueried
        }),
{
}

/// Over the cable the board is asked for its mode and told that the program is there. Over BLE it
/// first gets half a second to settle and is asked for its information too.
pub proof fn law_a_new_board_is_asked_these_things()
    ensures
        initial_queries(Some(ConnectionType::Usb)) == seq![
            InitialQuery::WorkMode,
            InitialQuery::AppOnline,
        ],
        initial_queries(Some(ConnectionType::Ble)).len() == 4,
        initial_queries(Some(ConnectionType::Ble))[0] == InitialQuery::Pause(500),
        initial_queries(Some(ConnectionType::Ble)).subrange(1, 4) == seq![
            InitialQuery::DeviceInfo,
            InitialQuery::WorkMode,
            InitialQuery::AppOnline,
        ],
        initial_queries(None).len() == 0,
{
}

/// Closing the local route changes nothing but the route.
pub proof fn law_closing_the_route_keeps_the_lease(c: CoreView)
    ensures
        ({
            let n = without_reader(c);
            &&& n.active is None
            &&& !n.ble_audio
            &&& n.stream == c.stream
            &&& n.capabilities == c.capabilities
            &&& n.capability_state == c.capability_state
            &&& n.connection == c.connection
            &&& n.epoch == c.epoch
            &&& n.started == c.started
            &&& n.ble_target == c.ble_target
            &&& n.ble_auto_connect == c.ble_auto_connect
            &&& n.hotplug_config == c.hotplug_config
        }),
{
}

/// A stream-control reply that cannot be read, that refuses, or that answers another request gives
/// no state; the texts tell which it was.
pub proof fn law_a_stream_request_fails_for_these_reasons(
    reply: CommandReply,
    action: AudioStreamAction,
    transport: AudioTransport,
    scope: AudioStreamScope,
    lease_id: u32,
)
    ensures
        ({
            let r = stream_control_result(reply, action, transport, scope, lease_id);
            let found = commands::stream_state_in(reply);
            &&& found is None ==> r == Err::<AudioStreamState, Seq<char>>(
                "audio stream-control 响应无效"@,
            )
            &&& (found matches Some(s) ==> s.result == AudioStreamResult::Busy ==> r == Err::<
                AudioStreamState,
                Seq<char>,
            >("audio stream-control 被固件拒绝: "@ + "Busy"@ + ""@))
            &&& (found matches Some(s) ==> s.result == AudioStreamResult::UnsupportedVersion ==> r
                == Err::<AudioStreamState, Seq<char>>(
                "audio stream-control 被固件拒绝: "@ + "UnsupportedVersion"@ + ""@,
            ))
            &&& (found matches Some(s) ==> s.result == AudioStreamResult::LeaseMismatch ==> r
                == Err::<AudioStreamState, Seq<char>>(
                "audio stream-control 被固件拒绝: "@ + "LeaseMismatch"@ + ""@,
            ))
            &&& (found matches Some(s) ==> s.result == AudioStreamResult::InvalidArgument ==> r
                == Err::<AudioStreamState, Seq<char>>(
                "audio stream-control 被固件拒绝: "@ + "InvalidArgument"@ + ""@,
            ))
            &&& (found matches Some(s) ==> s.result == AudioStreamResult::TransportUnavailable ==> r
                == Err::<AudioStreamState, Seq<char>>(
                "audio stream-control 被固件拒绝: "@ + "TransportUnavailable"@ + ""@,
            ))
            &&& (r matches Ok(state) ==> found == Some(state) && state.result
                == AudioStreamResult::Success && state.acknowledges(
                action,
                transport,
                scope,
                lease_id,
            ))
            &&& (found matches Some(s) ==> s.result == AudioStreamResult::Success
                && s.acknowledges(action, transport, scope, lease_id) ==> r == Ok::<
                AudioStreamState,
                Seq<char>,
            >(s))
        }),
{
}

/// An answered start or renewal keeps the answer as the lease and leaves the route alone. An
/// answered stop gives up both. A foreign lease ends a renewal or a stop in the same way, but not
/// a start, and every other answer changes nothing.
pub proof fn law_a_stream_answer_changes_the_lease_like_this(
    c: CoreView,
    reply: CommandReply,
    action: AudioStreamAction,
    transport: AudioTransport,
    scope: AudioStreamScope,
    lease_id: u32,
)
    ensures
        ({
            let n = after_stream_control(c, reply, action, transport, scope, lease_id);
            let ends = closes_route(reply, action, transport, scope, lease_id);
            let r = stream_control_result(reply, action, transport, scope, lease_id);
            let found = commands::stream_state_in(reply);
            let foreign = found matches Some(s) && s.result == AudioStreamResult::LeaseMismatch;
            &&& r is Ok && action != AudioStreamAction::Stop ==> !ends && n == (
            CoreView { stream: found, ..c })
            &&& r is Ok && action == AudioStreamAction::Stop ==> ends && n == (CoreView {
                stream: None,
                active: None,
                ble_audio: false,
                ..c
            })
            &&& foreign && action != AudioStreamAction::Start ==> ends && n == (CoreView {
                stream: None,
                active: None,
                ble_audio: false,
                ..c
            })
            &&& foreign && action == AudioStreamAction::Start ==> !ends && n == c
            &&& r is Err && !foreign ==> !ends && n == c
        }),
{
}

/// A reader that runs is left running, whatever else is the case.
pub proof fn law_a_running_reader_stays(
    r: ReaderPlan,
    c: CoreView,
    transport: AudioTransport,
    usb_reader_running: bool,
    ble_ready: bool,
)
    requires
        is_reader_plan(r, c, transport, usb_reader_running, ble_ready),
    ensures
        ({
            let n = after_reader_request(c, transport, usb_reader_running, ble_ready);
            &&& r is Running <==> c.active == Some(transport) && (transport
                == AudioTransport::BleGatt || transport == AudioTransport::UsbVendorHid
                && usb_reader_running)
            &&& r is Running ==> n == c
        }),
{
}

/// A reader is refused, with the old route untouched, exactly when it does not run already and the
/// board does not offer the transport or holds no lease for it; the text tells which.
pub proof fn law_a_reader_is_refused_for_these_reasons(
    r: ReaderPlan,
    c: CoreView,
    transport: AudioTransport,
    usb_reader_running: bool,
    ble_ready: bool,
)
    requires
        is_reader_plan(r, c, transport, usb_reader_running, ble_ready),
        r !is Running,
    ensures
        ({
            let n = after_reader_request(c, transport, usb_reader_running, ble_ready);
            let offered = c.capabilities.can_use(transport);
            let leased = c.stream matches Some(s) && s.active_transport == Some(transport);
            let name = match transport {
                AudioTransport::UsbVendorHid => "UsbVendorHid"@,
                AudioTransport::BleGatt => "BleGatt"@,
                AudioTransport::UsbUac => "UsbUac"@,
                AudioTransport::System => "System"@,
            };
            &&& r is Refused <==> !offered || !leased
            &&& r is Refused ==> n == c
            &&& !offered ==> (r matches ReaderPlan::Refused(BoardError::Other(m)) && m@
                == "当前 capability 不支持 "@ + name + ""@)
            &&& offered && !leased ==> (r matches ReaderPlan::Refused(BoardError::Other(m)) && m@
                == "必须先为 "@ + name + " 成功建立固件 audio stream lease"@)
        }),
{
}

/// Once the checks are passed the old route is closed. A cable reader needs the cable, a BLE
/// reader the link and its client; then it is started, the cable reader under the epoch of this
/// connection.
pub proof fn law_a_reader_is_opened_on_its_own_connection(
    r: ReaderPlan,
    c: CoreView,
    transport: AudioTransport,
    usb_reader_running: bool,
    ble_ready: bool,
)
    requires
        is_reader_plan(r, c, transport, usb_reader_running, ble_ready),
        r !is Running,
        r !is Refused,
    ensures
        ({
            let n = after_reader_request(c, transport, usb_reader_running, ble_ready);
            &&& r is StartUsb <==> transport == AudioTransport::UsbVendorHid && c.connection
                == Some(ConnectionType::Usb)
            &&& (r matches ReaderPlan::StartUsb { epoch } ==> epoch == c.epoch)
            &&& r is StartBle <==> transport == AudioTransport::BleGatt && c.connection == Some(
                ConnectionType::Ble,
            ) && ble_ready
            &&& r is StartBle ==> n == (CoreView {
                active: Some(AudioTransport::BleGatt),
                ble_audio: true,
                ..c
            })
            &&& r !is StartBle ==> n == (CoreView { active: None, ble_audio: false, ..c })
            &&& transport == AudioTransport::UsbVendorHid && c.connection != Some(
                ConnectionType::Usb,
            ) ==> (r matches ReaderPlan::Failed(BoardError::Other(m)) && m@
                == "当前不是 USB 连接"@)
            &&& transport == AudioTransport::BleGatt && c.connection != Some(ConnectionType::Ble)
                ==> (r matches ReaderPlan::Failed(BoardError::Other(m)) && m@
                == "当前不是 BLE 连接"@)
            &&& transport == AudioTransport::BleGatt && c.connection == Some(ConnectionType::Ble)
                && !ble_ready ==> (r matches ReaderPlan::Failed(BoardError::Other(m)) && m@
                == "VendorGattClient 未就绪"@)
            &&& transport == AudioTransport::UsbUac || transport == AudioTransport::System ==> (
            r matches ReaderPlan::Failed(BoardError::Other(m)) && m@
                == "此方法只启动 Board Vendor transport"@)
        }),
{
}

/// Capture through the system's input needs the cable, no lease and somebody who takes the
/// samples; the first of these that is missing is told.
pub proof fn law_capture_is_refused_for_these_reasons(c: CoreView, has_pcm_sink: bool)
    ensures
        done_or(uac_refusal(c, has_pcm_sink)) is Ok <==> c.connection == Some(ConnectionType::Usb)
            && c.stream is None && has_pcm_sink,
        c.connection != Some(ConnectionType::Usb) ==> done_or(uac_refusal(c, has_pcm_sink)) == Err::<
            (),
            Seq<char>,
        >("当前不是 USB 连接"@),
        c.connection == Some(ConnectionType::Usb) && c.stream is Some ==> done_or(
            uac_refusal(c, has_pcm_sink),
        ) == Err::<(), Seq<char>>(
            "Board audio lease 仍活跃，必须先显式 STOP 后才能打开 UAC"@,
        ),
        c.connection == Some(ConnectionType::Usb) && c.stream is None && !has_pcm_sink ==> done_or(
            uac_refusal(c, has_pcm_sink),
        ) == Err::<(), Seq<char>>("尚未设置 PcmSink"@),
{
}

/// Board audio is started in three steps: once the board announced the transport the lease is
/// taken, once that is taken the reader is opened, and once that is open the start is done with
/// the lease.
pub proof fn law_a_start_asks_leases_and_opens(
    s: AudioStartView,
    c: AudioCapabilities,
    state: AudioStreamState,
    asked: AudioStartView,
    first: AudioStartAction,
    leased: AudioStartView,
    second: AudioStartAction,
    open: AudioStartView,
    third: AudioStartAction,
)
    requires
        c.can_use(s.transport),
        audio_start_step(s, AudioStartEvent::Capabilities(Ok(c)), asked, first),
        audio_start_step(asked, AudioStartEvent::Leased(Ok(state)), leased, second),
        audio_start_step(leased, AudioStartEvent::Opened(Ok(())), open, third),
    ensures
        first is TakeLease,
        asked.expects(AudioStartEvent::Leased(Ok(state))),
        second is OpenReader,
        leased.expects(AudioStartEvent::Opened(Ok(()))),
        third == AudioStartAction::Done(Ok(state)),
        open.stage == AudioStartStage::Finished,
{
}

/// A start ends at once, with the failure itself, where the board does not answer or gives no
/// lease, and with a text where it does not offer the transport.
pub proof fn law_a_start_ends_early_for_these_reasons(
    s: AudioStartView,
    failure: BoardError,
    c: AudioCapabilities,
    next: AudioStartView,
    r: AudioStartAction,
)
    ensures
        audio_start_step(s, AudioStartEvent::Capabilities(Err(failure)), next, r) ==> r
            == AudioStartAction::Done(Err(failure)) && next.stage == AudioStartStage::Finished,
        audio_start_step(s, AudioStartEvent::Leased(Err(failure)), next, r) ==> r
            == AudioStartAction::Done(Err(failure)) && next.stage == AudioStartStage::Finished,
        audio_start_step(s, AudioStartEvent::Capabilities(Ok(c)), next, r) && !c.can_use(
            s.transport,
        ) ==> next.stage == AudioStartStage::Finished && (r matches AudioStartAction::Done(
            Err(BoardError::Other(_)),
        )),
{
}

} // verus!
