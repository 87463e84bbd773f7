//! Finding the board, connecting to it, and noticing that it is gone.
//!
//! The manager goes round: wait for a board, connect, watch the session, clean up. USB comes
//! before BLE, and plugging the cable in ends a BLE session. Each step takes in what happened and
//! hands out what to report and what to do next.

use vstd::prelude::*;
use crate::kernel::event::{
    BoardEvent, ConnectionEvent, DeviceInfo, DisconnectReason, ErrorEvent, EventView,
    ReconnectEvent, ReconnectState,
};
use crate::kernel::protocol_gatt::VENDOR_DEVICE_PREFIX;
use crate::kernel::protocol_hid::CMD_GET_DEVICE_INFO;
use crate::kernel::text;
use crate::kernel::types::ConnectionType;
use crate::runtime::usb::device_manager::{HidBus, HidInterface};
use crate::tool::parse;
use crate::tool::parse::parse_device_info_from_buf;

verus! {

/// Time between two full checks during a BLE session, in milliseconds.
pub const FULL_CHECK_PERIOD_MS: u64 = 5_000;

/// Quick checks in a row, at most.
pub const MAX_LIGHTWEIGHT_STREAK: u32 = 20;

/// Pause between two sessions, in milliseconds.
pub const SESSION_PAUSE_MS: u64 = 500;

/// Pause after a BLE failure, in milliseconds.
pub const BLE_BACKOFF_MS: u64 = 5_000;

/// Reads of a probe before it gives up.
pub const PROBE_READS: u32 = 10;

/// Transport mode that the board reports over USB.
pub const USB_TRANSPORT_MODE: u8 = 3;

/// How often the manager looks, in milliseconds.
#[derive(Debug, Clone, Copy, PartialEq, Eq, Structural)]
pub struct HotplugConfig {
    /// While no board is there.
    pub retry_interval_ms: u64,
    /// While a board is connected.
    pub check_interval_ms: u64,
}

impl Default for HotplugConfig {
    fn default() -> (r: Self)
        ensures
            r == (HotplugConfig { retry_interval_ms: 2_000, check_interval_ms: 5_000 }),
    {
        HotplugConfig { retry_interval_ms: 2_000, check_interval_ms: 5_000 }
    }
}

/// What the enumeration alone says of a USB connection.
#[derive(Debug, Clone, Copy, PartialEq, Eq, Structural)]
pub enum HidDetectionDecision {
    Connected,
    /// Ask the board for its transport mode.
    ProbeMode,
    NotConnected,
}

/// What a quick check during a BLE session says.
#[derive(Debug, Clone, Copy, PartialEq, Eq, Structural)]
pub enum BlePreemptionCheck {
    /// The cable is in: end the BLE session.
    Preempt,
    /// No cable.
    Keep,
    /// HID is not available: only a full check can tell.
    NeedsFullCheck,
}

/// Quick checks between two full checks, counted with the full one.
pub open spec fn full_check_ticks(check_interval_ms: u64) -> int {
    let per_period = FULL_CHECK_PERIOD_MS as int / (if check_interval_ms == 0 {
        1
    } else {
        check_interval_ms as int
    });
    if per_period < 1 {
        1
    } else if per_period > MAX_LIGHTWEIGHT_STREAK {
        MAX_LIGHTWEIGHT_STREAK as int
    } else {
        per_period
    }
}

/// How many check intervals make up a full-check period: about five seconds, at least every
/// interval and at least every twentieth.
pub fn full_check_interval_ticks(check_interval_ms: u64) -> (r: u32)
    ensures
        r == full_check_ticks(check_interval_ms),
        1 <= r <= MAX_LIGHTWEIGHT_STREAK,
{
    let interval: u64 = if check_interval_ms == 0 {
        1
    } else {
        check_interval_ms
    };
    let ticks: u64 = FULL_CHECK_PERIOD_MS / interval;
    if ticks < 1 {
        1
    } else if ticks > MAX_LIGHTWEIGHT_STREAK as u64 {
        MAX_LIGHTWEIGHT_STREAK
    } else {
        ticks as u32
    }
}

/// Some interface of the board hangs on the bus `bus`.
pub open spec fn on_bus(list: Seq<HidInterface>, bus: HidBus) -> bool {
    exists|i: int| 0 <= i < list.len() && (#[trigger] list[i]).is_board() && list[i].bus == bus
}

/// Whether the board is listed on a USB bus, and on a bus of unknown kind. Other buses do not
/// count: there the board is the BLE link itself.
pub fn scan_target_hid_buses(list: &[HidInterface]) -> (r: (bool, bool))
    ensures
        r.0 == on_bus(list@, HidBus::Usb),
        r.1 == on_bus(list@, HidBus::Unknown),
{
    let mut has_usb: bool = false;
    let mut has_unknown: bool = false;
    let mut i: usize = 0;
    while i < list.len()
        invariant
            i <= list@.len(),
            has_usb == exists|j: int|
                0 <= j < i && (#[trigger] list@[j]).is_board() && list@[j].bus == HidBus::Usb,
            has_unknown == exists|j: int|
                0 <= j < i && (#[trigger] list@[j]).is_board() && list@[j].bus == HidBus::Unknown,
        decreases list@.len() - i,
    {
        if list[i].belongs_to_board() {
            match list[i].bus {
                HidBus::Usb => {
                    has_usb = true;
                },
                HidBus::Unknown => {
                    has_unknown = true;
                },
                _ => {},
            }
        }
        i = i + 1;
    }
    (has_usb, has_unknown)
}

/// A USB bus settles it; an unknown bus calls for a probe.
pub fn decide_hid_detection(has_usb_hid: bool, has_unknown_hid: bool) -> (r: HidDetectionDecision)
    ensures
        r == (if has_usb_hid {
            HidDetectionDecision::Connected
        } else if has_unknown_hid {
            HidDetectionDecision::ProbeMode
        } else {
            HidDetectionDecision::NotConnected
        }),
{
    if has_usb_hid {
        HidDetectionDecision::Connected
    } else if has_unknown_hid {
        HidDetectionDecision::ProbeMode
    } else {
        HidDetectionDecision::NotConnected
    }
}

/// During a BLE session an unknown bus counts as USB: it is enough to leave.
pub fn decide_ble_preemption(has_usb_hid: bool, has_unknown_hid: bool) -> (r: bool)
    ensures
        r == (has_usb_hid || has_unknown_hid),
{
    has_usb_hid || has_unknown_hid
}

/// What a quick check says; without HID it says nothing.
pub open spec fn preemption_of(hid_says_preempt: Option<bool>) -> BlePreemptionCheck {
    match hid_says_preempt {
        Some(true) => BlePreemptionCheck::Preempt,
        Some(false) => BlePreemptionCheck::Keep,
        None => BlePreemptionCheck::NeedsFullCheck,
    }
}

/// What a quick check says; without HID it says nothing.
pub fn ble_preemption_from_hid(hid_says_preempt: Option<bool>) -> (r: BlePreemptionCheck)
    ensures
        r == preemption_of(hid_says_preempt),
{
    match hid_says_preempt {
        Some(true) => BlePreemptionCheck::Preempt,
        Some(false) => BlePreemptionCheck::Keep,
        None => BlePreemptionCheck::NeedsFullCheck,
    }
}

/// A quick check during a BLE session, from the enumeration where there is one.
pub fn check_usb_preemption(list: Option<&[HidInterface]>) -> (r: BlePreemptionCheck)
    ensures
        r == (match list {
            Some(l) => if on_bus(l@, HidBus::Usb) || on_bus(l@, HidBus::Unknown) {
                BlePreemptionCheck::Preempt
            } else {
                BlePreemptionCheck::Keep
            },
            None => BlePreemptionCheck::NeedsFullCheck,
        }),
{
    match list {
        Some(l) => {
            let buses: (bool, bool) = scan_target_hid_buses(l);
            ble_preemption_from_hid(Some(decide_ble_preemption(buses.0, buses.1)))
        },
        None => ble_preemption_from_hid(None),
    }
}

/// The USB connection, from the enumeration where there is one and, if the bus is unknown, from
/// the transport mode that a probe gave.
pub fn detect_hid_connection(list: Option<&[HidInterface]>, probed_mode: Option<u8>) -> (r: Option<
    ConnectionType,
>)
    ensures
        r == (match list {
            Some(l) => if on_bus(l@, HidBus::Usb) || (on_bus(l@, HidBus::Unknown) && probed_mode
                == Some(USB_TRANSPORT_MODE)) {
                Some(ConnectionType::Usb)
            } else {
                None
            },
            None => None,
        }),
{
    match list {
        Some(l) => {
            let buses: (bool, bool) = scan_target_hid_buses(l);
            match decide_hid_detection(buses.0, buses.1) {
                HidDetectionDecision::Connected => Some(ConnectionType::Usb),
                HidDetectionDecision::ProbeMode => {
                    if probed_mode == Some(USB_TRANSPORT_MODE) {
                        Some(ConnectionType::Usb)
                    } else {
                        None
                    }
                },
                HidDetectionDecision::NotConnected => None,
            }
        },
        None => None,
    }
}

/// Outcome of one read of a probe.
pub enum ProbeRead {
    /// Bytes read into the buffer.
    Report([u8; 64], usize),
    /// The read failed.
    Failed,
}

/// A report answers the device information query.
pub open spec fn answers_probe(read: ProbeRead) -> bool {
    read matches ProbeRead::Report(buf, n) && n >= 5 && buf@[1] == CMD_GET_DEVICE_INFO
}

/// What follows from one read of a mode probe.
#[derive(Debug, Clone, Copy, PartialEq, Eq, Structural)]
pub enum ModeProbe {
    /// Read again, as this attempt.
    Again(u32),
    /// The transport mode, if it could be told.
    Done(Option<u8>),
}

/// Judges read number `attempt` of a mode probe: other reports are skipped, up to ten of them.
pub fn probe_device_mode(attempt: u32, read: ProbeRead) -> (r: ModeProbe)
    ensures
        r == (if answers_probe(read) {
            ModeProbe::Done(Some(read->Report_0@[4]))
        } else if read is Report && attempt + 1 < PROBE_READS {
            ModeProbe::Again((attempt + 1) as u32)
        } else {
            ModeProbe::Done(None)
        }),
{
    match read {
        ProbeRead::Report(buf, n) => {
            if n >= 5 && buf[1] == CMD_GET_DEVICE_INFO {
                ModeProbe::Done(Some(buf[4]))
            } else if attempt < PROBE_READS - 1 {
                ModeProbe::Again(attempt + 1)
            } else {
                ModeProbe::Done(None)
            }
        },
        ProbeRead::Failed => ModeProbe::Done(None),
    }
}

/// What follows from one read of a device information probe.
pub enum InfoProbe {
    /// Read again, as this attempt.
    Again(u32),
    /// The device information, if it could be read.
    Done(Option<DeviceInfo>),
}

/// Judges read number `attempt` of a device information probe.
pub fn probe_usb_device_info(attempt: u32, read: ProbeRead) -> (r: InfoProbe)
    ensures
        match r {
            InfoProbe::Done(Some(info)) => answers_probe(read) && info@ == parse::device_info_at(
                read->Report_0@,
                4,
                ConnectionType::Usb,
            ),
            InfoProbe::Again(next) => !answers_probe(read) && read is Report && attempt + 1
                < PROBE_READS && next == attempt + 1,
            InfoProbe::Done(None) => !answers_probe(read) && (read is Failed || attempt + 1
                >= PROBE_READS),
        },
{
    match read {
        ProbeRead::Report(buf, n) => {
            if n >= 5 && buf[1] == CMD_GET_DEVICE_INFO {
                match parse_device_info_from_buf(&buf, 4, ConnectionType::Usb) {
                    Ok(info) => InfoProbe::Done(Some(info)),
                    Err(_) => InfoProbe::Done(None),
                }
            } else if attempt < PROBE_READS - 1 {
                InfoProbe::Again(attempt + 1)
            } else {
                InfoProbe::Done(None)
            }
        },
        ProbeRead::Failed => InfoProbe::Done(None),
    }
}

/// Where the manager stands.
#[derive(Debug, Clone, Copy, PartialEq, Eq, Structural)]
pub enum HotplugStage {
    /// Not running.
    Stopped,
    /// Looking for a board.
    Detecting,
    /// No board; pausing before the next look.
    Waiting,
    UsbConnecting,
    /// Connected over USB; reading the device information.
    UsbProbing,
    /// Connected over USB; pausing before the next check.
    UsbSleeping,
    /// Connected over USB; looking whether the board is still there.
    UsbChecking,
    /// The USB session ends for this reason.
    UsbStopping(DisconnectReason),
    BleEnsuring,
    BleScanning,
    BleConnecting,
    /// Connected over BLE; starting to listen.
    BleStarting,
    /// Connected over BLE; pausing before the next check.
    BleSleeping,
    /// Connected over BLE; a quick check for the cable.
    BleQuick,
    /// Connected over BLE; a full check for the cable.
    BleFull,
    /// The BLE session ends.
    BleStopping,
    /// Pausing after a BLE failure.
    BackingOff,
    /// Pausing between two sessions.
    SessionOver,
}

/// What happened.
pub enum HotplugEvent {
    Started,
    Slept,
    /// A look for the board over USB; whether the running session is still alive.
    UsbDetected { found: Option<ConnectionType>, link_alive: bool },
    UsbConnected,
    UsbConnectFailed(String),
    UsbInfo { info: Option<DeviceInfo>, link_alive: bool },
    MonitorStopped,
    ClientReady,
    /// There is no way to make a BLE client.
    ClientMissing,
    ClientFailed,
    /// The name of the board that a scan found.
    Scanned(String),
    ScanFailed(String),
    BleConnected,
    BleConnectFailed(String),
    NotificationsStarted { link_alive: bool },
    QuickChecked { check: BlePreemptionCheck, link_alive: bool },
    BleDisconnected,
}

/// What to do next.
pub enum HotplugAction {
    DetectUsb,
    /// Pause for this many milliseconds.
    Sleep(u64),
    ConnectUsb,
    ReadDeviceInfo,
    StopMonitor,
    EnsureClient,
    /// Scan for the board of this name.
    Scan(Option<String>),
    ConnectBle,
    StartNotifications,
    QuickCheck,
    DisconnectBle,
    Finish,
}

/// Mathematical form of `HotplugAction`.
pub enum ActionView {
    DetectUsb,
    Sleep(u64),
    ConnectUsb,
    ReadDeviceInfo,
    StopMonitor,
    EnsureClient,
    Scan(Option<Seq<char>>),
    ConnectBle,
    StartNotifications,
    QuickCheck,
    DisconnectBle,
    Finish,
}

/// Text of an optional string.
pub open spec fn text_of(s: Option<String>) -> Option<Seq<char>> {
    match s {
        Some(t) => Some(t@),
        None => None,
    }
}

impl View for HotplugAction {
    type V = ActionView;

    open spec fn view(&self) -> ActionView {
        match *self {
            HotplugAction::DetectUsb => ActionView::DetectUsb,
            HotplugAction::Sleep(ms) => ActionView::Sleep(ms),
            HotplugAction::ConnectUsb => ActionView::ConnectUsb,
            HotplugAction::ReadDeviceInfo => ActionView::ReadDeviceInfo,
            HotplugAction::StopMonitor => ActionView::StopMonitor,
            HotplugAction::EnsureClient => ActionView::EnsureClient,
            HotplugAction::Scan(t) => ActionView::Scan(text_of(t)),
            HotplugAction::ConnectBle => ActionView::ConnectBle,
            HotplugAction::StartNotifications => ActionView::StartNotifications,
            HotplugAction::QuickCheck => ActionView::QuickCheck,
            HotplugAction::DisconnectBle => ActionView::DisconnectBle,
            HotplugAction::Finish => ActionView::Finish,
        }
    }
}

/// Something to report, in order.
pub enum HotplugEffect {
    /// Broadcast an event.
    Emit(BoardEvent),
    /// Tell the owner how the board is connected now.
    ConnectionChanged(Option<ConnectionType>),
    /// Tell the owner the name of the BLE board.
    DeviceNamed(String),
}

/// Mathematical form of `HotplugEffect`.
pub enum EffectView {
    Emit(EventView),
    ConnectionChanged(Option<ConnectionType>),
    DeviceNamed(Seq<char>),
}

impl View for HotplugEffect {
    type V = EffectView;

    open spec fn view(&self) -> EffectView {
        match *self {
            HotplugEffect::Emit(e) => EffectView::Emit(e@),
            HotplugEffect::ConnectionChanged(c) => EffectView::ConnectionChanged(c),
            HotplugEffect::DeviceNamed(n) => EffectView::DeviceNamed(n@),
        }
    }
}

/// Mathematical form of a list of effects.
pub open spec fn effect_views(effects: Seq<HotplugEffect>) -> Seq<EffectView> {
    Seq::new(effects.len(), |i: int| effects[i]@)
}

/// What follows from a step.
pub struct HotplugStep {
    pub effects: Vec<HotplugEffect>,
    pub action: HotplugAction,
}

/// The manager.
pub struct HotplugManager {
    stage: HotplugStage,
    running: bool,
    stop_requested: bool,
    config: HotplugConfig,
    ble_target: Option<String>,
    ble_auto_connect: bool,
    ticks_since_full: u32,
}

/// Mathematical form of the manager.
pub struct ManagerView {
    pub stage: HotplugStage,
    pub running: bool,
    pub stop_requested: bool,
    pub config: HotplugConfig,
    pub ble_target: Option<Seq<char>>,
    pub ble_auto_connect: bool,
    pub ticks_since_full: u32,
}

impl View for HotplugManager {
    type V = ManagerView;

    closed spec fn view(&self) -> ManagerView {
        ManagerView {
            stage: self.stage,
            running: self.running,
            stop_requested: self.stop_requested,
            config: self.config,
            ble_target: text_of(self.ble_target),
            ble_auto_connect: self.ble_auto_connect,
            ticks_since_full: self.ticks_since_full,
        }
    }
}

impl ManagerView {
    /// The count of quick checks stays below the full-check period.
    pub open spec fn inv(&self) -> bool {
        self.ticks_since_full < full_check_ticks(self.config.check_interval_ms)
    }

    /// The manager is to go on.
    pub open spec fn active(&self) -> bool {
        self.running && !self.stop_requested
    }
}

/// Everything that a step changes and causes.
pub struct StepView {
    pub manager: ManagerView,
    pub effects: Seq<EffectView>,
    pub action: ActionView,
}

/// The manager goes to a stage, reports and acts.
pub open spec fn goes(m: ManagerView, stage: HotplugStage, effects: Seq<EffectView>, action: ActionView) -> StepView {
    StepView { manager: ManagerView { stage, ..m }, effects, action }
}

/// A step of the reconnect machinery, as an event.
pub open spec fn reconnect_effect(state: ReconnectState) -> EffectView {
    EffectView::Emit(EventView::Reconnect { state, attempt: None, note: None })
}

/// A failure that does not end the manager.
pub open spec fn error_effect(label: Seq<char>, message: Seq<char>) -> EffectView {
    EffectView::Emit(EventView::Error { message: label + message, recoverable: true })
}

/// The board was connected.
pub open spec fn connected_effects(c: ConnectionType) -> Seq<EffectView> {
    seq![
        EffectView::ConnectionChanged(Some(c)),
        EffectView::Emit(
            EventView::Connection(
                ConnectionEvent { connected: true, connection_type: Some(c), reason: None },
            ),
        ),
        reconnect_effect(ReconnectState::Connected),
    ]
}

/// The board was disconnected.
pub open spec fn lost_effects(reason: DisconnectReason) -> Seq<EffectView> {
    seq![
        EffectView::ConnectionChanged(None),
        EffectView::Emit(
            EventView::Connection(
                ConnectionEvent { connected: false, connection_type: None, reason: Some(reason) },
            ),
        ),
    ]
}

/// Looks for a board if the manager is to go on.
pub open spec fn look_step(m: ManagerView, effects: Seq<EffectView>) -> StepView {
    if m.active() {
        goes(m, HotplugStage::Detecting, effects, ActionView::DetectUsb)
    } else {
        goes(m, HotplugStage::Stopped, Seq::empty(), ActionView::Finish)
    }
}

/// A new round: says that it waits for a board, and looks for one.
pub open spec fn round_step(m: ManagerView) -> StepView {
    look_step(m, seq![reconnect_effect(ReconnectState::WaitingForDevice)])
}

/// The session is over.
pub open spec fn over_step(m: ManagerView, effects: Seq<EffectView>) -> StepView {
    goes(m, HotplugStage::SessionOver, effects, ActionView::Sleep(SESSION_PAUSE_MS))
}

/// A BLE attempt failed.
pub open spec fn back_off_step(m: ManagerView, effects: Seq<EffectView>) -> StepView {
    goes(m, HotplugStage::BackingOff, effects, ActionView::Sleep(BLE_BACKOFF_MS))
}

/// The USB session goes on, or ends.
pub open spec fn watch_usb_step(m: ManagerView, effects: Seq<EffectView>, link_alive: bool) -> StepView {
    if !m.active() {
        goes(
            m,
            HotplugStage::UsbStopping(DisconnectReason::UserAction),
            effects,
            ActionView::StopMonitor,
        )
    } else if !link_alive {
        goes(
            m,
            HotplugStage::UsbStopping(DisconnectReason::DeviceGone),
            effects,
            ActionView::StopMonitor,
        )
    } else {
        goes(
            m,
            HotplugStage::UsbSleeping,
            effects,
            ActionView::Sleep(m.config.check_interval_ms),
        )
    }
}

/// The BLE session goes on, or ends.
pub open spec fn watch_ble_step(m: ManagerView, link_alive: bool, usb_detected: bool) -> StepView {
    if !m.active() || !link_alive || usb_detected {
        goes(m, HotplugStage::BleStopping, Seq::empty(), ActionView::DisconnectBle)
    } else {
        goes(
            m,
            HotplugStage::BleSleeping,
            Seq::empty(),
            ActionView::Sleep(m.config.check_interval_ms),
        )
    }
}

/// The event can happen at the stage.
pub open spec fn fits(stage: HotplugStage, e: HotplugEvent) -> bool {
    match e {
        HotplugEvent::Started => stage == HotplugStage::Stopped,
        HotplugEvent::Slept => stage == HotplugStage::Waiting || stage == HotplugStage::UsbSleeping
            || stage == HotplugStage::BleSleeping || stage == HotplugStage::BackingOff || stage
            == HotplugStage::SessionOver,
        HotplugEvent::UsbDetected { .. } => stage == HotplugStage::Detecting || stage
            == HotplugStage::UsbChecking || stage == HotplugStage::BleFull,
        HotplugEvent::UsbConnected => stage == HotplugStage::UsbConnecting,
        HotplugEvent::UsbConnectFailed(_) => stage == HotplugStage::UsbConnecting,
        HotplugEvent::UsbInfo { .. } => stage == HotplugStage::UsbProbing,
        HotplugEvent::MonitorStopped => stage is UsbStopping,
        HotplugEvent::ClientReady => stage == HotplugStage::BleEnsuring,
        HotplugEvent::ClientMissing => stage == HotplugStage::BleEnsuring,
        HotplugEvent::ClientFailed => stage == HotplugStage::BleEnsuring,
        HotplugEvent::Scanned(_) => stage == HotplugStage::BleScanning,
        HotplugEvent::ScanFailed(_) => stage == HotplugStage::BleScanning,
        HotplugEvent::BleConnected => stage == HotplugStage::BleConnecting,
        HotplugEvent::BleConnectFailed(_) => stage == HotplugStage::BleConnecting,
        HotplugEvent::NotificationsStarted { .. } => stage == HotplugStage::BleStarting,
        HotplugEvent::QuickChecked { .. } => stage == HotplugStage::BleQuick,
        HotplugEvent::BleDisconnected => stage == HotplugStage::BleStopping,
    }
}

/// The session to open for a board that was found, or the pause when there is none. Without a
/// cable BLE is tried only for a board that is remembered, and only if that is allowed.
pub open spec fn detected_step(m: ManagerView, found: Option<ConnectionType>) -> StepView {
    match found {
        Some(ConnectionType::Usb) => goes(
            m,
            HotplugStage::UsbConnecting,
            seq![reconnect_effect(ReconnectState::Connecting)],
            ActionView::ConnectUsb,
        ),
        Some(ConnectionType::Ble) => goes(
            m,
            HotplugStage::BleEnsuring,
            Seq::empty(),
            ActionView::EnsureClient,
        ),
        None => if m.ble_target is Some && m.ble_auto_connect {
            goes(m, HotplugStage::BleEnsuring, Seq::empty(), ActionView::EnsureClient)
        } else {
            goes(
                m,
                HotplugStage::Waiting,
                Seq::empty(),
                ActionView::Sleep(m.config.retry_interval_ms),
            )
        },
    }
}

/// A pause is over.
pub open spec fn slept_step(m: ManagerView) -> StepView {
    match m.stage {
        HotplugStage::Waiting => look_step(m, Seq::empty()),
        HotplugStage::UsbSleeping => goes(
            m,
            HotplugStage::UsbChecking,
            Seq::empty(),
            ActionView::DetectUsb,
        ),
        HotplugStage::BleSleeping => if m.ticks_since_full + 1 >= full_check_ticks(
            m.config.check_interval_ms,
        ) {
            goes(
                ManagerView { ticks_since_full: 0, ..m },
                HotplugStage::BleFull,
                Seq::empty(),
                ActionView::DetectUsb,
            )
        } else {
            goes(
                ManagerView { ticks_since_full: (m.ticks_since_full + 1) as u32, ..m },
                HotplugStage::BleQuick,
                Seq::empty(),
                ActionView::QuickCheck,
            )
        },
        HotplugStage::BackingOff => over_step(m, Seq::empty()),
        _ => round_step(m),
    }
}

/// Name under which the board with this chip advertises itself.
pub open spec fn ble_name_of(chip_id: Seq<char>) -> Seq<char> {
    VENDOR_DEVICE_PREFIX@ + chip_id
}

/// Everything that follows from the event `e`.
pub open spec fn after_hotplug(m: ManagerView, e: HotplugEvent) -> StepView {
    match e {
        HotplugEvent::Started => round_step(ManagerView { running: true, ..m }),
        HotplugEvent::Slept => slept_step(m),
        HotplugEvent::UsbDetected { found, link_alive } => match m.stage {
            HotplugStage::Detecting => detected_step(m, found),
            HotplugStage::UsbChecking => if found is None {
                goes(
                    m,
                    HotplugStage::UsbStopping(DisconnectReason::DeviceGone),
                    Seq::empty(),
                    ActionView::StopMonitor,
                )
            } else {
                watch_usb_step(m, Seq::empty(), link_alive)
            },
            _ => watch_ble_step(m, link_alive, found == Some(ConnectionType::Usb)),
        },
        HotplugEvent::UsbConnected => goes(
            m,
            HotplugStage::UsbProbing,
            connected_effects(ConnectionType::Usb),
            ActionView::ReadDeviceInfo,
        ),
        HotplugEvent::UsbConnectFailed(message) => over_step(
            m,
            seq![error_effect("USB 连接失败: "@, message@)] + lost_effects(
                DisconnectReason::DeviceGone,
            ),
        ),
        HotplugEvent::UsbInfo { info, link_alive } => match info {
            Some(i) => watch_usb_step(
                ManagerView { ble_target: Some(ble_name_of(i@.chip_id)), ..m },
                seq![EffectView::Emit(EventView::DeviceInfo(i@))],
                link_alive,
            ),
            None => watch_usb_step(m, Seq::empty(), link_alive),
        },
        HotplugEvent::MonitorStopped => over_step(m, lost_effects(m.stage->UsbStopping_0)),
        HotplugEvent::ClientReady => goes(
            m,
            HotplugStage::BleScanning,
            seq![reconnect_effect(ReconnectState::Scanning)],
            ActionView::Scan(m.ble_target),
        ),
        HotplugEvent::ClientMissing => over_step(m, Seq::empty()),
        HotplugEvent::ClientFailed => back_off_step(m, Seq::empty()),
        HotplugEvent::Scanned(name) => if m.ble_auto_connect && m.ble_target == Some(name@) {
            goes(
                m,
                HotplugStage::BleConnecting,
                seq![
                    EffectView::DeviceNamed(name@),
                    reconnect_effect(ReconnectState::Connecting),
                ],
                ActionView::ConnectBle,
            )
        } else {
            over_step(m, Seq::empty())
        },
        HotplugEvent::ScanFailed(message) => back_off_step(
            m,
            seq![error_effect("BLE 扫描未发现设备: "@, message@)],
        ),
        HotplugEvent::BleConnected => goes(
            m,
            HotplugStage::BleStarting,
            connected_effects(ConnectionType::Ble),
            ActionView::StartNotifications,
        ),
        HotplugEvent::BleConnectFailed(message) => back_off_step(
            m,
            seq![error_effect("BLE 连接失败: "@, message@)],
        ),
        HotplugEvent::NotificationsStarted { link_alive } => watch_ble_step(
            ManagerView { ticks_since_full: 0, ..m },
            link_alive,
            false,
        ),
        HotplugEvent::QuickChecked { check, link_alive } => match check {
            BlePreemptionCheck::Preempt => watch_ble_step(m, link_alive, true),
            BlePreemptionCheck::Keep => watch_ble_step(m, link_alive, false),
            BlePreemptionCheck::NeedsFullCheck => goes(
                ManagerView { ticks_since_full: 0, ..m },
                HotplugStage::BleFull,
                Seq::empty(),
                ActionView::DetectUsb,
            ),
        },
        HotplugEvent::BleDisconnected => over_step(m, lost_effects(DisconnectReason::DeviceGone)),
    }
}

fn emit_reconnect(effects: &mut Vec<HotplugEffect>, state: ReconnectState)
    ensures
        effect_views(final(effects)@) == effect_views(old(effects)@).push(reconnect_effect(state)),
{
    effects.push(
        HotplugEffect::Emit(
            BoardEvent::Reconnect(ReconnectEvent { state, attempt: None, message: None }),
        ),
    );
    assert(effect_views(effects@) =~= effect_views(old(effects)@).push(reconnect_effect(state)));
}

fn emit_error(effects: &mut Vec<HotplugEffect>, label: &str, message: &str)
    ensures
        effect_views(final(effects)@) == effect_views(old(effects)@).push(
            error_effect(label@, message@),
        ),
{
    let mut text: String = label.to_string();
    text.append(message);
    effects.push(
        HotplugEffect::Emit(BoardEvent::Error(ErrorEvent { message: text, recoverable: true })),
    );
    assert(effect_views(effects@) =~= effect_views(old(effects)@).push(
        error_effect(label@, message@),
    ));
}

fn notify_connected(effects: &mut Vec<HotplugEffect>, c: ConnectionType)
    ensures
        effect_views(final(effects)@) == effect_views(old(effects)@) + connected_effects(c),
{
    effects.push(HotplugEffect::ConnectionChanged(Some(c)));
    effects.push(
        HotplugEffect::Emit(
            BoardEvent::Connection(
                ConnectionEvent { connected: true, connection_type: Some(c), reason: None },
            ),
        ),
    );
    emit_reconnect(effects, ReconnectState::Connected);
    assert(effect_views(effects@) =~= effect_views(old(effects)@) + connected_effects(c));
}

fn notify_disconnected(effects: &mut Vec<HotplugEffect>, reason: DisconnectReason)
    ensures
        effect_views(final(effects)@) == effect_views(old(effects)@) + lost_effects(reason),
{
    effects.push(HotplugEffect::ConnectionChanged(None));
    effects.push(
        HotplugEffect::Emit(
            BoardEvent::Connection(
                ConnectionEvent { connected: false, connection_type: None, reason: Some(reason) },
            ),
        ),
    );
    assert(effect_views(effects@) =~= effect_views(old(effects)@) + lost_effects(reason));
}

/// No effect yet.
fn no_effects() -> (r: Vec<HotplugEffect>)
    ensures
        effect_views(r@) == Seq::<EffectView>::empty(),
{
    let r: Vec<HotplugEffect> = Vec::new();
    assert(effect_views(r@) =~= Seq::<EffectView>::empty());
    r
}

/// The step that `r` and the manager `m` stand for.
pub open spec fn step_view(m: ManagerView, r: HotplugStep) -> StepView {
    StepView { manager: m, effects: effect_views(r.effects@), action: r.action@ }
}

impl HotplugManager {
    /// A manager that does not run, with no board remembered and BLE allowed.
    pub fn new(config: HotplugConfig) -> (r: Self)
        ensures
            r@.inv(),
            r@ == (ManagerView {
                stage: HotplugStage::Stopped,
                running: false,
                stop_requested: false,
                config,
                ble_target: None,
                ble_auto_connect: true,
                ticks_since_full: 0,
            }),
    {
        HotplugManager {
            stage: HotplugStage::Stopped,
            running: false,
            stop_requested: false,
            config,
            ble_target: None,
            ble_auto_connect: true,
            ticks_since_full: 0,
        }
    }

    /// Allows or forbids BLE.
    pub fn set_ble_auto_connect(&mut self, on: bool)
        ensures
            final(self)@ == (ManagerView { ble_auto_connect: on, ..old(self)@ }),
    {
        self.ble_auto_connect = on;
    }

    /// Remembers a BLE board by its name, or forgets it.
    pub fn set_ble_target(&mut self, name: Option<String>)
        ensures
            final(self)@ == (ManagerView { ble_target: text_of(name), ..old(self)@ }),
    {
        self.ble_target = name;
    }

    /// Asks the manager to stop, or takes that back.
    pub fn request_stop(&mut self, stop: bool)
        ensures
            final(self)@ == (ManagerView { stop_requested: stop, ..old(self)@ }),
    {
        self.stop_requested = stop;
    }

    /// Stops the manager.
    pub fn stop(&mut self)
        ensures
            final(self)@ == (ManagerView { running: false, ..old(self)@ }),
    {
        self.running = false;
    }

    /// The manager is to go on.
    pub fn is_running(&self) -> (r: bool)
        ensures
            r == self@.active(),
    {
        self.running && !self.stop_requested
    }

    /// The BLE board that is remembered.
    pub fn ble_target(&self) -> (r: Option<String>)
        ensures
            text_of(r) == self@.ble_target,
    {
        match &self.ble_target {
            Some(t) => Some(t.clone()),
            None => None,
        }
    }

    /// Where the manager stands.
    pub fn stage(&self) -> (r: HotplugStage)
        ensures
            r == self@.stage,
    {
        self.stage
    }

    /// Takes in what happened.
    pub fn run(&mut self, e: HotplugEvent) -> (r: HotplugStep)
        requires
            old(self)@.inv(),
            fits(old(self)@.stage, e),
        ensures
            final(self)@.inv(),
            step_view(final(self)@, r) == after_hotplug(old(self)@, e),
    {
        match e {
            HotplugEvent::Started => {
                self.running = true;
                self.begin_round()
            },
            HotplugEvent::Slept => self.after_sleep(),
            HotplugEvent::UsbDetected { found, link_alive } => {
                match self.stage {
                    HotplugStage::Detecting => self.detect_connection(found),
                    HotplugStage::UsbChecking => {
                        if found.is_none() {
                            self.stage = HotplugStage::UsbStopping(DisconnectReason::DeviceGone);
                            HotplugStep {
                                effects: no_effects(),
                                action: HotplugAction::StopMonitor,
                            }
                        } else {
                            self.monitor_hid_while_connected(no_effects(), link_alive)
                        }
                    },
                    _ => {
                        let usb: bool = match found {
                            Some(ConnectionType::Usb) => true,
                            _ => false,
                        };
                        self.watch_ble(link_alive, usb)
                    },
                }
            },
            HotplugEvent::UsbConnected => {
                let mut effects: Vec<HotplugEffect> = no_effects();
                notify_connected(&mut effects, ConnectionType::Usb);
                self.stage = HotplugStage::UsbProbing;
                assert(effect_views(effects@) =~= connected_effects(ConnectionType::Usb));
                HotplugStep { effects, action: HotplugAction::ReadDeviceInfo }
            },
            HotplugEvent::UsbConnectFailed(message) => {
                let mut effects: Vec<HotplugEffect> = no_effects();
                emit_error(&mut effects, "USB 连接失败: ", message.as_str());
                notify_disconnected(&mut effects, DisconnectReason::DeviceGone);
                assert(effect_views(effects@) =~= seq![error_effect("USB 连接失败: "@, message@)]
                    + lost_effects(DisconnectReason::DeviceGone));
                self.session_over(effects)
            },
            HotplugEvent::UsbInfo { info, link_alive } => {
                let mut effects: Vec<HotplugEffect> = no_effects();
                match info {
                    Some(i) => {
                        let mut name: String = VENDOR_DEVICE_PREFIX.to_string();
                        name.append(i.chip_id.as_str());
                        self.ble_target = Some(name);
                        let ghost view = i@;
                        effects.push(HotplugEffect::Emit(BoardEvent::DeviceInfo(i)));
                        assert(effect_views(effects@) =~= seq![
                            EffectView::Emit(EventView::DeviceInfo(view)),
                        ]);
                    },
                    None => {},
                }
                self.monitor_hid_while_connected(effects, link_alive)
            },
            HotplugEvent::MonitorStopped => {
                let mut effects: Vec<HotplugEffect> = no_effects();
                match self.stage {
                    HotplugStage::UsbStopping(reason) => {
                        notify_disconnected(&mut effects, reason);
                        assert(effect_views(effects@) =~= lost_effects(reason));
                    },
                    _ => {},
                }
                self.session_over(effects)
            },
            HotplugEvent::ClientReady => {
                let mut effects: Vec<HotplugEffect> = no_effects();
                emit_reconnect(&mut effects, ReconnectState::Scanning);
                self.stage = HotplugStage::BleScanning;
                assert(effect_views(effects@) =~= seq![reconnect_effect(ReconnectState::Scanning)]);
                let target: Option<String> = self.ble_target();
                HotplugStep { effects, action: HotplugAction::Scan(target) }
            },
            HotplugEvent::ClientMissing => self.session_over(no_effects()),
            HotplugEvent::ClientFailed => self.back_off(no_effects()),
            HotplugEvent::Scanned(name) => {
                let same: bool = match &self.ble_target {
                    Some(t) => text::text_eq(t.as_str(), name.as_str()),
                    None => false,
                };
                if !self.ble_auto_connect || !same {
                    return self.session_over(no_effects());
                }
                let ghost found = name@;
                self.ble_target = Some(name.clone());
                let mut effects: Vec<HotplugEffect> = no_effects();
                effects.push(HotplugEffect::DeviceNamed(name));
                emit_reconnect(&mut effects, ReconnectState::Connecting);
                self.stage = HotplugStage::BleConnecting;
                assert(effect_views(effects@) =~= seq![
                    EffectView::DeviceNamed(found),
                    reconnect_effect(ReconnectState::Connecting),
                ]);
                HotplugStep { effects, action: HotplugAction::ConnectBle }
            },
            HotplugEvent::ScanFailed(message) => {
                let mut effects: Vec<HotplugEffect> = no_effects();
                emit_error(&mut effects, "BLE 扫描未发现设备: ", message.as_str());
                assert(effect_views(effects@) =~= seq![
                    error_effect("BLE 扫描未发现设备: "@, message@),
                ]);
                self.back_off(effects)
            },
            HotplugEvent::BleConnected => {
                let mut effects: Vec<HotplugEffect> = no_effects();
                notify_connected(&mut effects, ConnectionType::Ble);
                self.stage = HotplugStage::BleStarting;
                assert(effect_views(effects@) =~= connected_effects(ConnectionType::Ble));
                HotplugStep { effects, action: HotplugAction::StartNotifications }
            },
            HotplugEvent::BleConnectFailed(message) => {
                let mut effects: Vec<HotplugEffect> = no_effects();
                emit_error(&mut effects, "BLE 连接失败: ", message.as_str());
                assert(effect_views(effects@) =~= seq![error_effect("BLE 连接失败: "@, message@)]);
                self.back_off(effects)
            },
            HotplugEvent::NotificationsStarted { link_alive } => {
                self.ticks_since_full = 0;
                self.watch_ble(link_alive, false)
            },
            HotplugEvent::QuickChecked { check, link_alive } => {
                match check {
                    BlePreemptionCheck::Preempt => self.watch_ble(link_alive, true),
                    BlePreemptionCheck::Keep => self.watch_ble(link_alive, false),
                    BlePreemptionCheck::NeedsFullCheck => {
                        self.ticks_since_full = 0;
                        self.stage = HotplugStage::BleFull;
                        HotplugStep { effects: no_effects(), action: HotplugAction::DetectUsb }
                    },
                }
            },
            HotplugEvent::BleDisconnected => {
                let mut effects: Vec<HotplugEffect> = no_effects();
                notify_disconnected(&mut effects, DisconnectReason::DeviceGone);
                assert(effect_views(effects@) =~= lost_effects(DisconnectReason::DeviceGone));
                self.session_over(effects)
            },
        }
    }

    fn look(&mut self, effects: Vec<HotplugEffect>) -> (r: HotplugStep)
        requires
            old(self)@.inv(),
        ensures
            final(self)@.inv(),
            step_view(final(self)@, r) == look_step(old(self)@, effect_views(effects@)),
    {
        if self.is_running() {
            self.stage = HotplugStage::Detecting;
            HotplugStep { effects, action: HotplugAction::DetectUsb }
        } else {
            self.stage = HotplugStage::Stopped;
            HotplugStep { effects: no_effects(), action: HotplugAction::Finish }
        }
    }

    fn begin_round(&mut self) -> (r: HotplugStep)
        requires
            old(self)@.inv(),
        ensures
            final(self)@.inv(),
            step_view(final(self)@, r) == round_step(old(self)@),
    {
        let mut effects: Vec<HotplugEffect> = no_effects();
        emit_reconnect(&mut effects, ReconnectState::WaitingForDevice);
        assert(effect_views(effects@) =~= seq![
            reconnect_effect(ReconnectState::WaitingForDevice),
        ]);
        self.look(effects)
    }

    fn session_over(&mut self, effects: Vec<HotplugEffect>) -> (r: HotplugStep)
        requires
            old(self)@.inv(),
        ensures
            final(self)@.inv(),
            step_view(final(self)@, r) == over_step(old(self)@, effect_views(effects@)),
    {
        self.stage = HotplugStage::SessionOver;
        HotplugStep { effects, action: HotplugAction::Sleep(SESSION_PAUSE_MS) }
    }

    fn back_off(&mut self, effects: Vec<HotplugEffect>) -> (r: HotplugStep)
        requires
            old(self)@.inv(),
        ensures
            final(self)@.inv(),
            step_view(final(self)@, r) == back_off_step(old(self)@, effect_views(effects@)),
    {
        self.stage = HotplugStage::BackingOff;
        HotplugStep { effects, action: HotplugAction::Sleep(BLE_BACKOFF_MS) }
    }

    fn detect_connection(&mut self, found: Option<ConnectionType>) -> (r: HotplugStep)
        requires
            old(self)@.inv(),
        ensures
            final(self)@.inv(),
            step_view(final(self)@, r) == detected_step(old(self)@, found),
    {
        let chosen: Option<ConnectionType> = match found {
            Some(c) => Some(c),
            None => {
                if self.ble_target.is_some() && self.ble_auto_connect {
                    Some(ConnectionType::Ble)
                } else {
                    None
                }
            },
        };
        match chosen {
            Some(ConnectionType::Usb) => {
                let mut effects: Vec<HotplugEffect> = no_effects();
                emit_reconnect(&mut effects, ReconnectState::Connecting);
                assert(effect_views(effects@) =~= seq![
                    reconnect_effect(ReconnectState::Connecting),
                ]);
                self.stage = HotplugStage::UsbConnecting;
                HotplugStep { effects, action: HotplugAction::ConnectUsb }
            },
            Some(ConnectionType::Ble) => {
                self.stage = HotplugStage::BleEnsuring;
                HotplugStep { effects: no_effects(), action: HotplugAction::EnsureClient }
            },
            None => {
                self.stage = HotplugStage::Waiting;
                HotplugStep {
                    effects: no_effects(),
                    action: HotplugAction::Sleep(self.config.retry_interval_ms),
                }
            },
        }
    }

    fn after_sleep(&mut self) -> (r: HotplugStep)
        requires
            old(self)@.inv(),
        ensures
            final(self)@.inv(),
            step_view(final(self)@, r) == slept_step(old(self)@),
    {
        match self.stage {
            HotplugStage::Waiting => self.look(no_effects()),
            HotplugStage::UsbSleeping => {
                self.stage = HotplugStage::UsbChecking;
                HotplugStep { effects: no_effects(), action: HotplugAction::DetectUsb }
            },
            HotplugStage::BleSleeping => {
                let every: u32 = full_check_interval_ticks(self.config.check_interval_ms);
                self.ticks_since_full = self.ticks_since_full + 1;
                if self.ticks_since_full >= every {
                    self.ticks_since_full = 0;
                    self.stage = HotplugStage::BleFull;
                    HotplugStep { effects: no_effects(), action: HotplugAction::DetectUsb }
                } else {
                    self.stage = HotplugStage::BleQuick;
                    HotplugStep { effects: no_effects(), action: HotplugAction::QuickCheck }
                }
            },
            HotplugStage::BackingOff => self.session_over(no_effects()),
            _ => self.begin_round(),
        }
    }

    fn monitor_hid_while_connected(&mut self, effects: Vec<HotplugEffect>, link_alive: bool) -> (r:
        HotplugStep)
        requires
            old(self)@.inv(),
        ensures
            final(self)@.inv(),
            step_view(final(self)@, r) == watch_usb_step(
                old(self)@,
                effect_views(effects@),
                link_alive,
            ),
    {
        if !self.is_running() {
            self.stage = HotplugStage::UsbStopping(DisconnectReason::UserAction);
            HotplugStep { effects, action: HotplugAction::StopMonitor }
        } else if !link_alive {
            self.stage = HotplugStage::UsbStopping(DisconnectReason::DeviceGone);
            HotplugStep { effects, action: HotplugAction::StopMonitor }
        } else {
            self.stage = HotplugStage::UsbSleeping;
            HotplugStep { effects, action: HotplugAction::Sleep(self.config.check_interval_ms) }
        }
    }

    fn watch_ble(&mut self, link_alive: bool, usb_detected: bool) -> (r: HotplugStep)
        requires
            old(self)@.inv(),
        ensures
            final(self)@.inv(),
            step_view(final(self)@, r) == watch_ble_step(old(self)@, link_alive, usb_detected),
    {
        if !self.is_running() || !link_alive || usb_detected {
            self.stage = HotplugStage::BleStopping;
            HotplugStep { effects: no_effects(), action: HotplugAction::DisconnectBle }
        } else {
            self.stage = HotplugStage::BleSleeping;
            HotplugStep {
                effects: no_effects(),
                action: HotplugAction::Sleep(self.config.check_interval_ms),
            }
        }
    }
}

/// The board is connected at this stage.
pub open spec fn is_live(stage: HotplugStage) -> bool {
    ||| stage == HotplugStage::UsbProbing
    ||| stage == HotplugStage::UsbSleeping
    ||| stage == HotplugStage::UsbChecking
    ||| stage is UsbStopping
    ||| stage == HotplugStage::BleStarting
    ||| stage == HotplugStage::BleSleeping
    ||| stage == HotplugStage::BleQuick
    ||| stage == HotplugStage::BleFull
    ||| stage == HotplugStage::BleStopping
}

/// Every connection is announced when it begins and taken back when it ends, and nothing else is
/// said of it in between.
pub proof fn law_connections_are_announced_and_taken_back(m: ManagerView, e: HotplugEvent)
    requires
        fits(m.stage, e),
    ensures
        ({
            let s = after_hotplug(m, e);
            &&& !is_live(m.stage) && is_live(s.manager.stage) ==> s.effects == connected_effects(
                ConnectionType::Usb,
            ) || s.effects == connected_effects(ConnectionType::Ble)
            &&& is_live(m.stage) && !is_live(s.manager.stage) ==> exists|reason: DisconnectReason|
                s.effects == lost_effects(reason)
            &&& is_live(m.stage) && is_live(s.manager.stage) ==> forall|i: int|
                0 <= i < s.effects.len() ==> !((#[trigger] s.effects[i]) is ConnectionChanged)
        }),
{
    let s = after_hotplug(m, e);
    if is_live(m.stage) && !is_live(s.manager.stage) {
        match e {
            HotplugEvent::MonitorStopped => {
                assert(s.effects == lost_effects(m.stage->UsbStopping_0));
            },
            _ => {
                assert(s.effects == lost_effects(DisconnectReason::DeviceGone));
            },
        }
    }
}

/// A board on the cable is taken before one on the air.
pub proof fn law_usb_comes_before_ble(m: ManagerView, link_alive: bool)
    requires
        m.stage == HotplugStage::Detecting,
    ensures
        after_hotplug(
            m,
            HotplugEvent::UsbDetected { found: Some(ConnectionType::Usb), link_alive },
        ).manager.stage == HotplugStage::UsbConnecting,
{
}

/// Without a cable, BLE is tried exactly when a board is remembered and BLE is allowed.
pub proof fn law_ble_needs_a_remembered_board(m: ManagerView, link_alive: bool)
    requires
        m.stage == HotplugStage::Detecting,
    ensures
        after_hotplug(m, HotplugEvent::UsbDetected { found: None, link_alive }).manager.stage
            == HotplugStage::BleEnsuring <==> m.ble_target is Some && m.ble_auto_connect,
{
}

/// Only the information of a board on the cable changes which board is remembered.
pub proof fn law_the_remembered_board_is_kept(m: ManagerView, e: HotplugEvent)
    requires
        !(e is UsbInfo),
    ensures
        after_hotplug(m, e).manager.ble_target == m.ble_target,
        after_hotplug(m, e).manager.ble_auto_connect == m.ble_auto_connect,
{
}

/// When the cable is pulled, the board that was on it is looked for on the air: the session ends,
/// and with BLE allowed the next scan is for that board.
pub proof fn law_ble_resumes_when_the_cable_goes(
    m: ManagerView,
    info: DeviceInfo,
    link_alive: bool,
)
    requires
        m.stage == HotplugStage::UsbProbing,
        m.active(),
        m.ble_auto_connect,
    ensures
        ({
            let gone = HotplugEvent::UsbDetected { found: None, link_alive };
            let read = after_hotplug(
                m,
                HotplugEvent::UsbInfo { info: Some(info), link_alive: true },
            ).manager;
            let checking = after_hotplug(read, HotplugEvent::Slept).manager;
            let ending = after_hotplug(checking, gone);
            let over = after_hotplug(ending.manager, HotplugEvent::MonitorStopped);
            let looking = after_hotplug(over.manager, HotplugEvent::Slept);
            let ensuring = after_hotplug(looking.manager, gone);
            let scanning = after_hotplug(ensuring.manager, HotplugEvent::ClientReady);
            &&& ending.action == ActionView::StopMonitor
            &&& over.effects == lost_effects(DisconnectReason::DeviceGone)
            &&& looking.action == ActionView::DetectUsb
            &&& ensuring.action == ActionView::EnsureClient
            &&& scanning.action == ActionView::Scan(Some(ble_name_of(info@.chip_id)))
        }),
{
}

/// A cable that is seen during a BLE session ends it, whichever check saw it.
pub proof fn law_the_cable_ends_a_ble_session(m: ManagerView, link_alive: bool)
    ensures
        m.stage == HotplugStage::BleQuick ==> after_hotplug(
            m,
            HotplugEvent::QuickChecked { check: BlePreemptionCheck::Preempt, link_alive },
        ).action == ActionView::DisconnectBle,
        m.stage == HotplugStage::BleFull ==> after_hotplug(
            m,
            HotplugEvent::UsbDetected { found: Some(ConnectionType::Usb), link_alive },
        ).action == ActionView::DisconnectBle,
{
}

/// During a BLE session a full check comes at least every twentieth check, and never less often
/// than the period asks for.
pub proof fn law_full_checks_keep_coming(m: ManagerView)
    requires
        m.inv(),
        m.stage == HotplugStage::BleSleeping,
    ensures
        ({
            let s = after_hotplug(m, HotplugEvent::Slept);
            ||| s.action == ActionView::DetectUsb && s.manager.ticks_since_full == 0
            ||| s.action == ActionView::QuickCheck && s.manager.ticks_since_full
                == m.ticks_since_full + 1 && s.manager.ticks_since_full < full_check_ticks(
                m.config.check_interval_ms,
            ) <= MAX_LIGHTWEIGHT_STREAK
        }),
{
}

/// A scan result is used only for the board that is still remembered, and only while BLE is still
/// allowed.
pub proof fn law_a_stale_scan_result_is_dropped(m: ManagerView, name: String)
    requires
        m.stage == HotplugStage::BleScanning,
        !m.ble_auto_connect || m.ble_target != Some(name@),
    ensures
        after_hotplug(m, HotplugEvent::Scanned(name)).action == ActionView::Sleep(SESSION_PAUSE_MS),
        after_hotplug(m, HotplugEvent::Scanned(name)).effects == Seq::<EffectView>::empty(),
{
}

/// Once it is told to stop, the manager opens no new session: at the next pause it finishes.
pub proof fn law_a_stopped_manager_finishes(m: ManagerView)
    requires
        !m.active(),
        m.stage == HotplugStage::Waiting || m.stage == HotplugStage::SessionOver,
    ensures
        after_hotplug(m, HotplugEvent::Slept).action == ActionView::Finish,
        after_hotplug(m, HotplugEvent::Slept).manager.stage == HotplugStage::Stopped,
{
}

/// A BLE session whose link has died ends, whichever check of it tells: it is taken down, and so
/// it is when the manager is no longer to go on.
pub proof fn law_a_dead_link_ends_the_ble_session(
    m: ManagerView,
    e: HotplugEvent,
    link_alive: bool,
)
    requires
        !link_alive || !m.running || m.stop_requested,
        e == (HotplugEvent::NotificationsStarted { link_alive }) && m.stage
            == HotplugStage::BleStarting || e == (HotplugEvent::QuickChecked {
            check: BlePreemptionCheck::Keep,
            link_alive,
        }) && m.stage == HotplugStage::BleQuick || e == (HotplugEvent::QuickChecked {
            check: BlePreemptionCheck::Preempt,
            link_alive,
        }) && m.stage == HotplugStage::BleQuick || (e matches HotplugEvent::UsbDetected {
            link_alive: alive,
            ..
        } && alive == link_alive && m.stage == HotplugStage::BleFull),
    ensures
        after_hotplug(m, e).action == ActionView::DisconnectBle,
        after_hotplug(m, e).manager.stage == HotplugStage::BleStopping,
{
}

/// A BLE session that is alive goes on while no cable is seen: the next check comes after the
/// check interval, and nothing is reported. A quick check that cannot tell calls for a full one.
pub proof fn law_a_live_ble_session_goes_on(m: ManagerView, found: Option<ConnectionType>, alive: bool)
    requires
        m.running && !m.stop_requested,
        found != Some(ConnectionType::Usb),
    ensures
        ({
            let started = after_hotplug(
                m,
                HotplugEvent::NotificationsStarted { link_alive: true },
            );
            let quick = after_hotplug(
                m,
                HotplugEvent::QuickChecked { check: BlePreemptionCheck::Keep, link_alive: true },
            );
            let full = after_hotplug(m, HotplugEvent::UsbDetected { found, link_alive: true });
            let unsure = after_hotplug(
                m,
                HotplugEvent::QuickChecked {
                    check: BlePreemptionCheck::NeedsFullCheck,
                    link_alive: alive,
                },
            );
            let pause = ActionView::Sleep(m.config.check_interval_ms);
            &&& m.stage == HotplugStage::BleStarting ==> started.action == pause
                && started.manager.stage == HotplugStage::BleSleeping && started.effects.len() == 0
            &&& m.stage == HotplugStage::BleQuick ==> quick.action == pause && quick.manager.stage
                == HotplugStage::BleSleeping && quick.effects.len() == 0
            &&& m.stage == HotplugStage::BleFull ==> full.action == pause && full.manager.stage
                == HotplugStage::BleSleeping && full.effects.len() == 0
            &&& m.stage == HotplugStage::BleQuick ==> unsure.action == ActionView::DetectUsb
                && unsure.manager.stage == HotplugStage::BleFull && unsure.effects.len() == 0
        }),
{
}

/// A USB session ends when a check no longer finds the board, when its monitor has died, or when
/// the manager is not to go on, for that reason; otherwise the next check comes after the check
/// interval.
pub proof fn law_a_usb_session_lasts_while_the_board_is_there(
    m: ManagerView,
    found: Option<ConnectionType>,
    info: Option<DeviceInfo>,
    link_alive: bool,
)
    ensures
        ({
            let checked = after_hotplug(m, HotplugEvent::UsbDetected { found, link_alive });
            let read = after_hotplug(m, HotplugEvent::UsbInfo { info, link_alive });
            let going = m.running && !m.stop_requested;
            &&& m.stage == HotplugStage::UsbChecking ==> checked.effects.len() == 0 && (
            if found is None {
                checked.action == ActionView::StopMonitor && checked.manager.stage
                    == HotplugStage::UsbStopping(DisconnectReason::DeviceGone)
            } else if !going {
                checked.action == ActionView::StopMonitor && checked.manager.stage
                    == HotplugStage::UsbStopping(DisconnectReason::UserAction)
            } else if !link_alive {
                checked.action == ActionView::StopMonitor && checked.manager.stage
                    == HotplugStage::UsbStopping(DisconnectReason::DeviceGone)
            } else {
                checked.action == ActionView::Sleep(m.config.check_interval_ms)
                    && checked.manager.stage == HotplugStage::UsbSleeping
            })
            &&& m.stage == HotplugStage::UsbProbing ==> (if !going {
                read.action == ActionView::StopMonitor && read.manager.stage
                    == HotplugStage::UsbStopping(DisconnectReason::UserAction)
            } else if !link_alive {
                read.action == ActionView::StopMonitor && read.manager.stage
                    == HotplugStage::UsbStopping(DisconnectReason::DeviceGone)
            } else {
                read.action == ActionView::Sleep(m.config.check_interval_ms) && read.manager.stage
                    == HotplugStage::UsbSleeping
            })
            &&& m.stage == HotplugStage::UsbSleeping ==> after_hotplug(
                m,
                HotplugEvent::Slept,
            ).action == ActionView::DetectUsb && after_hotplug(m, HotplugEvent::Slept).manager.stage
                == HotplugStage::UsbChecking
        }),
{
}

/// The device information that is read over the cable is reported as it is, and names the board
/// to look for on the air: the vendor prefix and the chip.
pub proof fn law_device_information_is_reported(m: ManagerView, info: DeviceInfo, link_alive: bool)
    requires
        m.stage == HotplugStage::UsbProbing,
    ensures
        ({
            let s = after_hotplug(m, HotplugEvent::UsbInfo { info: Some(info), link_alive });
            let none = after_hotplug(m, HotplugEvent::UsbInfo { info: None, link_alive });
            &&& s.effects.len() == 1
            &&& s.effects[0] == EffectView::Emit(EventView::DeviceInfo(info@))
            &&& s.manager.ble_target == Some("REAI_VB_"@ + info@.chip_id)
            &&& none.effects.len() == 0
            &&& none.manager.ble_target == m.ble_target
        }),
{
}

/// The end of a session is reported once it is taken down: no connection any longer, and why. The
/// manager then pauses for half a second and looks for a board again, unless it is to stop.
pub proof fn law_the_end_of_a_session_is_reported_and_the_search_resumes(
    m: ManagerView,
    reason: DisconnectReason,
)
    requires
        m.stage == HotplugStage::BleStopping || m.stage == HotplugStage::UsbStopping(reason),
        m.stage == HotplugStage::BleStopping ==> reason == DisconnectReason::DeviceGone,
    ensures
        ({
            let over = if m.stage == HotplugStage::BleStopping {
                after_hotplug(m, HotplugEvent::BleDisconnected)
            } else {
                after_hotplug(m, HotplugEvent::MonitorStopped)
            };
            let next = after_hotplug(over.manager, HotplugEvent::Slept);
            &&& over.effects.len() == 2
            &&& over.effects[0] == EffectView::ConnectionChanged(None)
            &&& over.effects[1] == EffectView::Emit(
                EventView::Connection(
                    ConnectionEvent {
                        connected: false,
                        connection_type: None,
                        reason: Some(reason),
                    },
                ),
            )
            &&& over.action == ActionView::Sleep(500)
            &&& m.running && !m.stop_requested ==> next.action == ActionView::DetectUsb
                && next.manager.stage == HotplugStage::Detecting && next.effects.len() == 1
                && next.effects[0] == EffectView::Emit(
                EventView::Reconnect {
                    state: ReconnectState::WaitingForDevice,
                    attempt: None,
                    note: None,
                },
            )
            &&& !m.running || m.stop_requested ==> next.action == ActionView::Finish
        }),
{
}

/// A connection that comes to be is reported over its own transport: the connection itself, and
/// the end of the search.
pub proof fn law_a_new_connection_is_reported(m: ManagerView)
    ensures
        ({
            let usb = after_hotplug(m, HotplugEvent::UsbConnected);
            let ble = after_hotplug(m, HotplugEvent::BleConnected);
            let searched = EffectView::Emit(
                EventView::Reconnect { state: ReconnectState::Connected, attempt: None, note: None },
            );
            &&& usb.action == ActionView::ReadDeviceInfo
            &&& usb.manager.stage == HotplugStage::UsbProbing
            &&& usb.effects.len() == 3
            &&& usb.effects[0] == EffectView::ConnectionChanged(Some(ConnectionType::Usb))
            &&& usb.effects[1] == EffectView::Emit(
                EventView::Connection(
                    ConnectionEvent {
                        connected: true,
                        connection_type: Some(ConnectionType::Usb),
                        reason: None,
                    },
                ),
            )
            &&& usb.effects[2] == searched
            &&& ble.action == ActionView::StartNotifications
            &&& ble.manager.stage == HotplugStage::BleStarting
            &&& ble.effects.len() == 3
            &&& ble.effects[0] == EffectView::ConnectionChanged(Some(ConnectionType::Ble))
            &&& ble.effects[1] == EffectView::Emit(
                EventView::Connection(
                    ConnectionEvent {
                        connected: true,
                        connection_type: Some(ConnectionType::Ble),
                        reason: None,
                    },
                ),
            )
            &&& ble.effects[2] == searched
        }),
{
}

/// The search: a board on the cable is connected to; one that only shows on the air, or a
/// remembered one while BLE is allowed, is scanned for by its name; with nothing to look for the
/// manager pauses for the retry interval and looks again.
pub proof fn law_the_search_goes_by_what_is_there(m: ManagerView, link_alive: bool)
    requires
        m.stage == HotplugStage::Detecting,
        m.running && !m.stop_requested,
    ensures
        ({
            let usb = after_hotplug(
                m,
                HotplugEvent::UsbDetected { found: Some(ConnectionType::Usb), link_alive },
            );
            let ble = after_hotplug(
                m,
                HotplugEvent::UsbDetected { found: Some(ConnectionType::Ble), link_alive },
            );
            let none = after_hotplug(m, HotplugEvent::UsbDetected { found: None, link_alive });
            let again = after_hotplug(none.manager, HotplugEvent::Slept);
            let scan = after_hotplug(ble.manager, HotplugEvent::ClientReady);
            &&& usb.action == ActionView::ConnectUsb && usb.manager.stage
                == HotplugStage::UsbConnecting
            &&& usb.effects.len() == 1 && usb.effects[0] == EffectView::Emit(
                EventView::Reconnect { state: ReconnectState::Connecting, attempt: None, note: None },
            )
            &&& ble.action == ActionView::EnsureClient && ble.manager.stage
                == HotplugStage::BleEnsuring
            &&& m.ble_target is Some && m.ble_auto_connect ==> none == ble
            &&& !(m.ble_target is Some && m.ble_auto_connect) ==> none.action == ActionView::Sleep(
                m.config.retry_interval_ms,
            ) && none.effects.len() == 0 && again.action == ActionView::DetectUsb
                && again.manager.stage == HotplugStage::Detecting && again.effects.len() == 0
            &&& scan.action == ActionView::Scan(m.ble_target) && scan.manager.stage
                == HotplugStage::BleScanning
            &&& scan.effects.len() == 1 && scan.effects[0] == EffectView::Emit(
                EventView::Reconnect { state: ReconnectState::Scanning, attempt: None, note: None },
            )
        }),
{
}

/// A scan that found the remembered board leads to a connection with it, and the name is passed
/// on.
pub proof fn law_a_found_board_is_connected_to(m: ManagerView, name: String)
    requires
        m.stage == HotplugStage::BleScanning,
        m.ble_auto_connect,
        m.ble_target == Some(name@),
    ensures
        ({
            let s = after_hotplug(m, HotplugEvent::Scanned(name));
            &&& s.action == ActionView::ConnectBle
            &&& s.manager.stage == HotplugStage::BleConnecting
            &&& s.effects.len() == 2
            &&& s.effects[0] == EffectView::DeviceNamed(name@)
            &&& s.effects[1] == EffectView::Emit(
                EventView::Reconnect { state: ReconnectState::Connecting, attempt: None, note: None },
            )
        }),
{
}

/// A failed attempt is reported as an error that does not end the search, with its own text; BLE
/// then rests for five seconds, USB for half a second, and the search resumes.
pub proof fn law_a_failed_attempt_is_reported_and_the_search_resumes(
    m: ManagerView,
    message: String,
)
    requires
        m.running && !m.stop_requested,
    ensures
        ({
            let usb = after_hotplug(m, HotplugEvent::UsbConnectFailed(message));
            let scan = after_hotplug(m, HotplugEvent::ScanFailed(message));
            let ble = after_hotplug(m, HotplugEvent::BleConnectFailed(message));
            let client = after_hotplug(m, HotplugEvent::ClientFailed);
            let rested = after_hotplug(ble.manager, HotplugEvent::Slept);
            &&& usb.effects.len() == 3 && usb.effects[0] == EffectView::Emit(
                EventView::Error { message: "USB 连接失败: "@ + message@, recoverable: true },
            ) && usb.effects[1] == EffectView::ConnectionChanged(None)
            &&& usb.action == ActionView::Sleep(500) && after_hotplug(
                usb.manager,
                HotplugEvent::Slept,
            ).action == ActionView::DetectUsb
            &&& scan.effects.len() == 1 && scan.effects[0] == EffectView::Emit(
                EventView::Error { message: "BLE 扫描未发现设备: "@ + message@, recoverable: true },
            )
            &&& ble.effects.len() == 1 && ble.effects[0] == EffectView::Emit(
                EventView::Error { message: "BLE 连接失败: "@ + message@, recoverable: true },
            )
            &&& client.effects.len() == 0
            &&& scan.action == ActionView::Sleep(5000) && ble.action == ActionView::Sleep(5000)
                && client.action == ActionView::Sleep(5000)
            &&& scan.manager == ble.manager && client.manager == ble.manager
            &&& rested.action == ActionView::Sleep(500) && after_hotplug(
                rested.manager,
                HotplugEvent::Slept,
            ).action == ActionView::DetectUsb
        }),
{
}

/// A full check comes about every five seconds: never sooner than the check interval itself, never
/// later than after twenty checks, and otherwise as often as whole intervals fit into the period.
pub proof fn law_full_checks_come_about_every_five_seconds(interval_ms: u64)
    requires
        interval_ms > 0,
    ensures
        1 <= full_check_ticks(interval_ms) <= 20,
        interval_ms > 5000 ==> full_check_ticks(interval_ms) == 1,
        interval_ms <= 5000 && full_check_ticks(interval_ms) < 20 ==> full_check_ticks(interval_ms)
            * interval_ms <= 5000 < (full_check_ticks(interval_ms) + 1) * interval_ms,
        full_check_ticks(interval_ms) == 20 ==> 20 * interval_ms <= 5000,
{
    let n = 5000int / interval_ms as int;
    vstd::arithmetic::div_mod::lemma_fundamental_div_mod(5000, interval_ms as int);
    assert(interval_ms * n == n * interval_ms) by (nonlinear_arith);
    assert((n + 1) * interval_ms == n * interval_ms + interval_ms) by (nonlinear_arith);
    if n >= 20 {
        assert(20 * interval_ms <= n * interval_ms) by (nonlinear_arith)
            requires
                20 <= n,
                0 < interval_ms,
        ;
    }
    if interval_ms <= 5000 && n < 1 {
        assert((n + 1) * interval_ms <= interval_ms) by (nonlinear_arith)
            requires
                n <= 0,
                0 < interval_ms,
        ;
    }
    if interval_ms > 5000 && n >= 1 {
        assert(n * interval_ms >= interval_ms) by (nonlinear_arith)
            requires
                n >= 1,
                0 < interval_ms,
        ;
    }
}

/// A bus is the board's exactly when an interface with the board's two numbers hangs on it.
pub proof fn law_a_bus_is_known_by_the_board_on_it(list: Seq<HidInterface>, bus: HidBus)
    ensures
        on_bus(list, bus) <==> exists|i: int|
            0 <= i < list.len() && (#[trigger] list[i]).vendor_id == 0x363C && list[i].product_id
                == 0xED20 && list[i].bus == bus,
{
    if on_bus(list, bus) {
        let i = choose|i: int|
            0 <= i < list.len() && (#[trigger] list[i]).is_board() && list[i].bus == bus;
        assert(list[i].vendor_id == 0x363C);
    }
    if exists|i: int|
        0 <= i < list.len() && (#[trigger] list[i]).vendor_id == 0x363C && list[i].product_id
            == 0xED20 && list[i].bus == bus {
        let i = choose|i: int|
            0 <= i < list.len() && (#[trigger] list[i]).vendor_id == 0x363C && list[i].product_id
                == 0xED20 && list[i].bus == bus;
        assert(list[i].is_board());
    }
}

/// The enumeration decides whether the cable takes over; without one a full check is needed.
pub proof fn law_the_enumeration_decides_on_the_cable()
    ensures
        preemption_of(Some(true)) == BlePreemptionCheck::Preempt,
        preemption_of(Some(false)) == BlePreemptionCheck::Keep,
        preemption_of(None) == BlePreemptionCheck::NeedsFullCheck,
{
}

/// A probe is answered by a report of at least five bytes that names the command, and by nothing
/// else.
pub proof fn law_a_probe_is_answered_by_its_command(buf: [u8; 64], n: usize)
    ensures
        answers_probe(ProbeRead::Report(buf, n)) <==> n >= 5 && buf@[1] == 0x13,
        !answers_probe(ProbeRead::Failed),
{
}

/// A step is its action, the manager it leaves and its effects in their order.
pub proof fn law_a_step_is_seen_whole(m: ManagerView, r: HotplugStep, i: int)
    requires
        0 <= i < r.effects@.len(),
    ensures
        step_view(m, r).manager == m,
        step_view(m, r).action == r.action@,
        step_view(m, r).effects.len() == r.effects@.len(),
        step_view(m, r).effects[i] == r.effects@[i]@,
{
}

/// A wanted board is seen by its name, and no wish as none.
pub proof fn law_a_wanted_board_is_its_name(name: String)
    ensures
        text_of(Some(name)) == Some(name@),
        text_of(None) is None,
{
}

} // verus!
