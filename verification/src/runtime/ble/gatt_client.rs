//! Session with the board over its vendor GATT service: finding the board, its three
//! characteristics, command replies and notifications.

use vstd::prelude::*;
use std::collections::HashSet;
use crate::kernel::bytes;
use crate::kernel::consumer_hold;
use crate::kernel::consumer_hold::{ConsumerHeldTracker, HeldView};
use crate::kernel::error;
use crate::kernel::error::BoardError;
use crate::kernel::event;
use crate::kernel::event::{BoardEvent, ErrorEvent, EventView, KeySource};
use crate::kernel::key_aggregator;
use crate::kernel::key_aggregator::{AggregatorView, KeyStateAggregator, PressedKeyMeta};
use crate::kernel::protocol_gatt;
use crate::kernel::protocol_gatt::{
    parse_packet, AUDIO_CHAR_UUID, CCC_DESCRIPTOR_UUID, CMD_CHAR_UUID, EVENT_CHAR_UUID,
    VENDOR_DEVICE_PREFIX,
};
use crate::kernel::protocol_hid;
use crate::kernel::protocol_hid::{
    find_key_index_by_value, is_ai_voice_consumer_code, key_index_to_mode,
    parse_factory_key_event_unscoped, WorkMode, CMD_AI_FACTORY_KEY_EVENT, CMD_STATUS,
    CMD_WORK_MODE_DATA,
};
use crate::kernel::text;
use crate::runtime::usb::monitor;
use crate::runtime::usb::monitor::{ai_voice, mode_dial};

verus! {

broadcast use vstd::std_specs::hash::group_hash_axioms;

/// Event packet of a consumer key: `[0x0C][2][low][high]`.
pub const CMD_CONSUMER_KEY: u8 = 0x0C;

/// Rounds of a scan for one board, two seconds each.
pub const SCAN_ROUNDS: u32 = 5;

/// Silence after which the link is probed, in nanoseconds.
pub const HEARTBEAT_NS: u64 = 10_000_000_000;

/// A board found by a scan.
#[derive(Debug, Clone)]
pub struct BleDeviceInfo {
    pub name: String,
    pub id: String,
    /// Signal strength in dBm.
    pub rssi: Option<i16>,
    pub address: String,
}

/// Mathematical form of `BleDeviceInfo`.
pub struct BleDeviceView {
    pub name: Seq<char>,
    pub id: Seq<char>,
    pub rssi: Option<i16>,
    pub address: Seq<char>,
}

impl View for BleDeviceInfo {
    type V = BleDeviceView;

    open spec fn view(&self) -> BleDeviceView {
        BleDeviceView { name: self.name@, id: self.id@, rssi: self.rssi, address: self.address@ }
    }
}

/// A device of this name is looked for: the target by its exact name, else any vendor board.
pub open spec fn is_wanted(name: Seq<char>, target: Option<Seq<char>>) -> bool {
    match target {
        Some(t) => name == t,
        None => text::starts_with_text(name, VENDOR_DEVICE_PREFIX@),
    }
}

/// Text of an optional name.
pub open spec fn target_text(target: Option<&str>) -> Option<Seq<char>> {
    match target {
        Some(t) => Some(t@),
        None => None,
    }
}

/// Tells whether a device of this name is looked for.
pub fn matches_device(name: &str, target: Option<&str>) -> (r: bool)
    ensures
        r == is_wanted(name@, target_text(target)),
{
    match target {
        Some(t) => text::text_eq(name, t),
        None => text::text_starts_with(name, VENDOR_DEVICE_PREFIX),
    }
}

/// What follows from one round of a scan.
pub enum ScanStep {
    /// The device at this position is the one.
    Found(usize),
    /// Scan once more, as this round.
    Again(u32),
    /// No round found it.
    NotFound(BoardError),
}

/// The device at position `i` is the one that is looked for; a device whose properties could not
/// be read never is.
pub open spec fn wanted_at(names: Seq<Option<String>>, i: int, target: Option<Seq<char>>) -> bool {
    names[i] matches Some(name) && is_wanted(name@, target)
}

/// Text of a scan without success.
pub open spec fn not_found_text(target: Option<Seq<char>>) -> Seq<char> {
    match target {
        Some(t) => "未发现 Vendor GATT 设备"@ + (" "@ + t),
        None => "未发现 Vendor GATT 设备"@,
    }
}

/// Judges the names seen in round `round`: the first device that is looked for wins.
pub fn scan_for_device(round: u32, names: &Vec<Option<String>>, target: Option<&str>) -> (r: ScanStep)
    ensures
        match r {
            ScanStep::Found(i) => i < names@.len() && wanted_at(
                names@,
                i as int,
                target_text(target),
            ) && forall|j: int| 0 <= j < i ==> !wanted_at(names@, j, target_text(target)),
            ScanStep::Again(next) => round + 1 < SCAN_ROUNDS && next == round + 1 && forall|j: int|
                0 <= j < names@.len() ==> !wanted_at(names@, j, target_text(target)),
            ScanStep::NotFound(e) => round + 1 >= SCAN_ROUNDS && (forall|j: int|
                0 <= j < names@.len() ==> !wanted_at(names@, j, target_text(target))) && (
            e matches BoardError::Other(m) && m@ == not_found_text(target_text(target))),
        },
{
    let mut i: usize = 0;
    while i < names.len()
        invariant
            i <= names@.len(),
            forall|j: int| 0 <= j < i ==> !wanted_at(names@, j, target_text(target)),
        decreases names@.len() - i,
    {
        match &names[i] {
            Some(name) => {
                if matches_device(name.as_str(), target) {
                    return ScanStep::Found(i);
                }
            },
            None => {},
        }
        i = i + 1;
    }
    if round < SCAN_ROUNDS - 1 {
        return ScanStep::Again(round + 1);
    }
    let mut message: String = "未发现 Vendor GATT 设备".to_string();
    match target {
        Some(t) => {
            let mut tail: String = " ".to_string();
            tail.append(t);
            message.append(tail.as_str());
        },
        None => {},
    }
    ScanStep::NotFound(BoardError::Other(message))
}

/// Boards found by a scan for all of them, each once.
pub struct DeviceListing {
    found: Vec<BleDeviceInfo>,
}

/// Mathematical form of a list of boards.
pub open spec fn device_views(list: Seq<BleDeviceInfo>) -> Seq<BleDeviceView> {
    Seq::new(list.len(), |i: int| list[i]@)
}

/// A board with this identifier is listed.
pub open spec fn lists_id(list: Seq<BleDeviceView>, id: Seq<char>) -> bool {
    exists|i: int| 0 <= i < list.len() && (#[trigger] list[i]).id == id
}

/// The list after one more sighting: vendor boards only, and the first sighting of each counts.
pub open spec fn with_sighting(list: Seq<BleDeviceView>, seen: BleDeviceView) -> Seq<BleDeviceView> {
    if text::starts_with_text(seen.name, VENDOR_DEVICE_PREFIX@) && !lists_id(list, seen.id) {
        list.push(seen)
    } else {
        list
    }
}

/// No board is listed twice.
pub open spec fn ids_distinct(list: Seq<BleDeviceView>) -> bool {
    forall|i: int, j: int| 0 <= i < j < list.len() ==> (#[trigger] list[i]).id != (
    #[trigger] list[j]).id
}

impl View for DeviceListing {
    type V = Seq<BleDeviceView>;

    closed spec fn view(&self) -> Seq<BleDeviceView> {
        device_views(self.found@)
    }
}

impl DeviceListing {
    /// Nothing found yet.
    pub fn new() -> (r: Self)
        ensures
            r@ == Seq::<BleDeviceView>::empty(),
    {
        let r = DeviceListing { found: Vec::new() };
        assert(r@ =~= Seq::empty());
        r
    }

    /// Takes in one advertisement.
    pub fn sighted(&mut self, seen: BleDeviceInfo)
        ensures
            final(self)@ == with_sighting(old(self)@, seen@),
    {
        let ghost before = self@;
        if !text::text_starts_with(seen.name.as_str(), VENDOR_DEVICE_PREFIX) {
            return;
        }
        let mut i: usize = 0;
        while i < self.found.len()
            invariant
                i <= self.found@.len(),
                self@ == before,
                before == device_views(self.found@),
                forall|j: int| 0 <= j < i ==> (#[trigger] before[j]).id != seen@.id,
            decreases self.found@.len() - i,
        {
            if text::text_eq(self.found[i].id.as_str(), seen.id.as_str()) {
                assert(before[i as int].id == seen@.id);
                return;
            }
            i = i + 1;
        }
        self.found.push(seen);
        assert(self@ =~= before.push(seen@));
    }

    /// The boards found, in the order of their first sighting.
    pub fn into_devices(self) -> (r: Vec<BleDeviceInfo>)
        ensures
            device_views(r@) == self@,
    {
        self.found
    }
}

/// Sightings never list a board twice.
pub proof fn law_a_board_is_listed_once(list: Seq<BleDeviceView>, seen: BleDeviceView)
    requires
        ids_distinct(list),
    ensures
        ids_distinct(with_sighting(list, seen)),
{
}

/// A second sighting of a listed board changes nothing.
pub proof fn law_the_first_sighting_counts(
    list: Seq<BleDeviceView>,
    first: BleDeviceView,
    second: BleDeviceView,
)
    requires
        first.id == second.id,
        text::starts_with_text(first.name, VENDOR_DEVICE_PREFIX@),
    ensures
        with_sighting(with_sighting(list, first), second) == with_sighting(list, first),
{
    let once = with_sighting(list, first);
    if !lists_id(list, first.id) {
        assert(once[list.len() as int].id == second.id);
    }
}

/// Positions of the three characteristics.
#[derive(Debug, Clone, Copy, PartialEq, Eq, Structural)]
pub struct GattChars {
    pub cmd: usize,
    pub event: usize,
    pub audio: usize,
}

/// `r` is the first position of `uuid`, if it occurs.
pub open spec fn is_first_of(uuids: Seq<u128>, uuid: u128, r: Option<usize>) -> bool {
    match r {
        Some(i) => i < uuids.len() && uuids[i as int] == uuid && forall|j: int|
            0 <= j < i ==> uuids[j] != uuid,
        None => !uuids.contains(uuid),
    }
}

fn first_of(uuids: &[u128], uuid: u128) -> (r: Option<usize>)
    ensures
        is_first_of(uuids@, uuid, r),
{
    let mut i: usize = 0;
    while i < uuids.len()
        invariant
            i <= uuids@.len(),
            forall|j: int| 0 <= j < i ==> uuids@[j] != uuid,
        decreases uuids@.len() - i,
    {
        if uuids[i] == uuid {
            return Some(i);
        }
        i = i + 1;
    }
    None
}

/// Finds the command, event and audio characteristics among those that were discovered.
pub fn find_characteristics(uuids: &[u128]) -> (r: Result<GattChars, BoardError>)
    ensures
        match r {
            Ok(c) => is_first_of(uuids@, CMD_CHAR_UUID, Some(c.cmd)) && is_first_of(
                uuids@,
                EVENT_CHAR_UUID,
                Some(c.event),
            ) && is_first_of(uuids@, AUDIO_CHAR_UUID, Some(c.audio)),
            Err(_) => if !uuids@.contains(CMD_CHAR_UUID) {
                error::fails_with(r, "未找到 Command 特征值 (FE61)"@)
            } else if !uuids@.contains(EVENT_CHAR_UUID) {
                error::fails_with(r, "未找到 Event 特征值 (FE62)"@)
            } else {
                !uuids@.contains(AUDIO_CHAR_UUID) && error::fails_with(
                    r,
                    "未找到 Audio 特征值 (FE63)"@,
                )
            },
        },
{
    let cmd: usize = match first_of(uuids, CMD_CHAR_UUID) {
        Some(i) => i,
        None => {
            return Err(error::other_error("未找到 Command 特征值 (FE61)"));
        },
    };
    let event: usize = match first_of(uuids, EVENT_CHAR_UUID) {
        Some(i) => i,
        None => {
            return Err(error::other_error("未找到 Event 特征值 (FE62)"));
        },
    };
    let audio: usize = match first_of(uuids, AUDIO_CHAR_UUID) {
        Some(i) => i,
        None => {
            return Err(error::other_error("未找到 Audio 特征值 (FE63)"));
        },
    };
    Ok(GattChars { cmd, event, audio })
}

/// How notifications of a characteristic get switched on.
pub enum SubscribeStep {
    /// They are on.
    Done,
    /// Write these two bytes to the descriptor at this position.
    WriteDescriptor(usize, [u8; 2]),
    /// There is no way.
    Failed(BoardError),
}

/// Falls back to writing the configuration descriptor when subscribing failed.
pub fn subscribe_with_ccc_fallback(subscribed: bool, descriptors: &[u128], label: &str) -> (r:
    SubscribeStep)
    ensures
        match r {
            SubscribeStep::Done => subscribed,
            SubscribeStep::WriteDescriptor(i, value) => !subscribed && is_first_of(
                descriptors@,
                CCC_DESCRIPTOR_UUID,
                Some(i),
            ) && value@ == seq![1u8, 0u8],
            SubscribeStep::Failed(e) => !subscribed && !descriptors@.contains(CCC_DESCRIPTOR_UUID)
                && (e matches BoardError::Other(m) && m@ == label@
                + " 特征值无 CCC 描述符 (0x2902),无法启用通知"@),
        },
{
    if subscribed {
        return SubscribeStep::Done;
    }
    match first_of(descriptors, CCC_DESCRIPTOR_UUID) {
        Some(i) => {
            let value: [u8; 2] = [1, 0];
            assert(value@ =~= seq![1u8, 0u8]);
            SubscribeStep::WriteDescriptor(i, value)
        },
        None => {
            let mut message: String = label.to_string();
            message.append(" 特征值无 CCC 描述符 (0x2902),无法启用通知");
            SubscribeStep::Failed(BoardError::Other(message))
        },
    }
}

/// Commands whose replies are awaited.
pub struct PendingCommands {
    waiting: HashSet<u8>,
}

impl View for PendingCommands {
    type V = Set<u8>;

    closed spec fn view(&self) -> Set<u8> {
        self.waiting@
    }
}

/// How the wait for a reply ended.
pub enum ReplyEvent {
    /// The command could not be written.
    WriteFailed(BoardError),
    /// The reply.
    Reply(Vec<u8>),
    /// Nobody listens for replies any more.
    Closed,
    /// Nothing came in time.
    TimedOut,
}

impl PendingCommands {
    /// No reply awaited.
    pub fn new() -> (r: Self)
        ensures
            r@ == Set::<u8>::empty(),
    {
        PendingCommands { waiting: HashSet::new() }
    }

    /// Awaits the reply to `cmd`. True when an earlier wait for the same command is still open:
    /// that one is to be ended with an empty reply.
    pub fn register(&mut self, cmd: u8) -> (replaced: bool)
        ensures
            replaced == old(self)@.contains(cmd),
            final(self)@ == old(self)@.insert(cmd),
    {
        let replaced: bool = self.waiting.contains(&cmd);
        self.waiting.insert(cmd);
        replaced
    }

    /// Ends the wait for `cmd`; true when there was one.
    pub fn take(&mut self, cmd: u8) -> (waited: bool)
        ensures
            waited == old(self)@.contains(cmd),
            final(self)@ == old(self)@.remove(cmd),
    {
        self.waiting.remove(&cmd)
    }

    /// Ends every wait.
    pub fn clear(&mut self)
        ensures
            final(self)@ == Set::<u8>::empty(),
    {
        self.waiting.clear();
    }

    /// The result of a command once its wait ended. Only a reply leaves the bookkeeping alone:
    /// its arrival has already ended the wait.
    pub fn send_command_and_read_response(
        &mut self,
        expected_cmd: u8,
        timeout_ms: u64,
        ended: ReplyEvent,
    ) -> (r: Result<Vec<u8>, BoardError>)
        ensures
            final(self)@ == (if ended is Reply {
                old(self)@
            } else {
                old(self)@.remove(expected_cmd)
            }),
            match ended {
                ReplyEvent::Reply(bytes) => r == Ok::<Vec<u8>, BoardError>(bytes),
                ReplyEvent::WriteFailed(e) => r == Err::<Vec<u8>, BoardError>(e),
                ReplyEvent::Closed => error::fails_with(r, closed_text(expected_cmd)),
                ReplyEvent::TimedOut => error::fails_with(r, timeout_text(expected_cmd, timeout_ms)),
            },
    {
        match ended {
            ReplyEvent::Reply(bytes) => Ok(bytes),
            ReplyEvent::WriteFailed(e) => {
                self.take(expected_cmd);
                Err(e)
            },
            ReplyEvent::Closed => {
                self.take(expected_cmd);
                let mut message: String = "[GATT] CMD=0x".to_string();
                text::append_hex(&mut message, expected_cmd as u64, 2);
                message.append(" 响应通道已关闭(notification loop 已退出)");
                Err(BoardError::Other(message))
            },
            ReplyEvent::TimedOut => {
                self.take(expected_cmd);
                let mut message: String = "[GATT] CMD=0x".to_string();
                text::append_hex(&mut message, expected_cmd as u64, 2);
                message.append(" 响应超时 (");
                text::append_dec(&mut message, timeout_ms);
                message.append("ms)");
                Err(BoardError::Other(message))
            },
        }
    }
}

/// Text of a wait that nobody can end any more.
pub open spec fn closed_text(cmd: u8) -> Seq<char> {
    "[GATT] CMD=0x"@ + text::hex_text(cmd as nat, 2)
        + " 响应通道已关闭(notification loop 已退出)"@
}

/// Text of a wait that ran out.
pub open spec fn timeout_text(cmd: u8, timeout_ms: u64) -> Seq<char> {
    "[GATT] CMD=0x"@ + text::hex_text(cmd as nat, 2) + " 响应超时 ("@ + text::dec_text(
        timeout_ms as nat,
    ) + "ms)"@
}

/// Key, voice and mode state of the event characteristic.
pub struct GattEventState {
    consumer: ConsumerHeldTracker,
    aggregator: KeyStateAggregator,
    ai_voice_pressed: bool,
    mode_key_pressed: usize,
}

/// Mathematical form of `GattEventState`.
pub struct GattView {
    pub consumer: HeldView,
    pub aggregator: AggregatorView,
    pub ai_voice_pressed: bool,
    pub mode_key_pressed: usize,
}

impl View for GattEventState {
    type V = GattView;

    closed spec fn view(&self) -> GattView {
        GattView {
            consumer: self.consumer@,
            aggregator: self.aggregator@,
            ai_voice_pressed: self.ai_voice_pressed,
            mode_key_pressed: self.mode_key_pressed,
        }
    }
}

impl GattView {
    /// The key state is consistent, and no other channel reports into it.
    pub open spec fn inv(&self) -> bool {
        &&& self.consumer.inv()
        &&& self.aggregator.inv()
        &&& self.aggregator.config.len() == 0
        &&& self.aggregator.consumer.len() == 0
    }
}

/// State before the first notification.
pub open spec fn fresh_events() -> GattView {
    GattView {
        consumer: HeldView { held: Seq::empty(), last_knob_pulse_ns: None },
        aggregator: key_aggregator::empty_aggregator(),
        ai_voice_pressed: false,
        mode_key_pressed: 0,
    }
}

/// The position of the mode lever that a key value stands for.
pub open spec fn lever_key(value: u16) -> Option<usize> {
    match protocol_hid::key_index_of_value(value) {
        Some(k) => if protocol_hid::mode_of_key(k) is Some {
            Some(k)
        } else {
            None
        },
        None => None,
    }
}

/// State and events after the key value `value`. The voice key and the lever let go only when all
/// keys went up; letting go of a lever that stood on another mode falls back to CHAT.
pub open spec fn after_gatt_key(g: GattView, value: u16, now_ns: u64) -> (GattView, Seq<EventView>) {
    let (held, frame) = consumer_hold::consumer_step(g.consumer, value, now_ns);
    let (aggregator, key_events) = key_aggregator::after_batches(
        g.aggregator,
        KeySource::Gatt,
        frame.batches,
        frame.batches.len() as int,
    );
    let voice_down = protocol_hid::is_ai_voice_code(value);
    let voice = g.ai_voice_pressed || voice_down;
    let lever = match lever_key(value) {
        Some(k) => k,
        None => g.mode_key_pressed,
    };
    (
        GattView {
            consumer: held,
            aggregator,
            ai_voice_pressed: voice && !frame.cleared,
            mode_key_pressed: if frame.cleared {
                0
            } else {
                lever
            },
        },
        key_events + (if voice_down {
            seq![monitor::voice_event(true)]
        } else {
            Seq::empty()
        }) + monitor::consumer_mode(value) + (if frame.cleared && voice {
            seq![monitor::voice_event(false)]
        } else {
            Seq::empty()
        }) + (if frame.cleared && (lever == 9 || lever == 10) {
            seq![monitor::dial_event("CHAT"@, 0)]
        } else {
            Seq::empty()
        }),
    )
}

/// State and events after the link went away: every key and the voice key go up.
pub open spec fn after_release_all(g: GattView) -> (GattView, Seq<EventView>) {
    let next = key_aggregator::after_report(g.aggregator, KeySource::Gatt, Seq::empty(), None);
    (
        GattView { aggregator: next, ai_voice_pressed: false, ..g },
        key_aggregator::change_events(
            KeySource::Gatt,
            g.aggregator.all_pressed,
            next.all_pressed,
            Seq::empty(),
            next.last_config_mask,
        ) + (if g.ai_voice_pressed {
            seq![monitor::voice_event(false)]
        } else {
            Seq::empty()
        }),
    )
}

/// State and events after an event packet that is no awaited reply.
pub open spec fn after_event_packet(
    g: GattView,
    data: Seq<u8>,
    cmd: u8,
    payload: Seq<u8>,
    now_ns: u64,
) -> (GattView, Seq<EventView>) {
    if cmd == CMD_AI_FACTORY_KEY_EVENT {
        match protocol_hid::factory_event(data, None) {
            Ok(e) => (g, seq![EventView::FactoryKey(e)]),
            Err(_) => (g, Seq::empty()),
        }
    } else if cmd == CMD_CONSUMER_KEY {
        if payload.len() >= 2 {
            after_gatt_key(g, bytes::le16(payload[0], payload[1]), now_ns)
        } else {
            (g, Seq::empty())
        }
    } else if cmd == CMD_STATUS && payload.len() >= 2 && payload[0] == CMD_WORK_MODE_DATA {
        match WorkMode::of_code(payload[1]) {
            Some(mode) => (g, seq![monitor::dial_event(mode.label(), payload[1])]),
            None => (g, Seq::empty()),
        }
    } else {
        (g, Seq::empty())
    }
}

/// Everything that follows from an event notification.
pub struct EventOutcomeView {
    pub state: GattView,
    pub pending: Set<u8>,
    pub reply: Option<(u8, Seq<u8>)>,
    pub events: Seq<EventView>,
}

/// What follows from the event notification `data`: an error for a malformed packet, the reply of
/// a command that waits for it, else an event of the board.
pub open spec fn after_event(g: GattView, pending: Set<u8>, data: Seq<u8>, now_ns: u64) -> EventOutcomeView {
    match protocol_gatt::packet_parts(data) {
        None => EventOutcomeView {
            state: g,
            pending,
            reply: None,
            events: seq![
                EventView::Error {
                    message: "GATT Event 解析失败(len="@ + text::dec_text(data.len()) + ")"@,
                    recoverable: true,
                },
            ],
        },
        Some((cmd, len, payload)) => if pending.contains(cmd) {
            EventOutcomeView {
                state: g,
                pending: pending.remove(cmd),
                reply: Some((cmd, seq![cmd, len] + payload)),
                events: Seq::empty(),
            }
        } else {
            let (state, events) = after_event_packet(g, data, cmd, payload, now_ns);
            EventOutcomeView { state, pending, reply: None, events }
        },
    }
}

/// What the caller does after an event notification.
pub struct EventOutcome {
    /// The reply to hand to the command that waits for it.
    pub reply: Option<(u8, Vec<u8>)>,
    pub events: Vec<BoardEvent>,
}

/// Mathematical form of a reply.
pub open spec fn reply_view(reply: Option<(u8, Vec<u8>)>) -> Option<(u8, Seq<u8>)> {
    match reply {
        Some(p) => Some((p.0, p.1@)),
        None => None,
    }
}

impl Default for GattEventState {
    fn default() -> (r: Self)
        ensures
            r@ == fresh_events(),
            r@.inv(),
    {
        GattEventState {
            consumer: ConsumerHeldTracker::default(),
            aggregator: KeyStateAggregator::new(),
            ai_voice_pressed: false,
            mode_key_pressed: 0,
        }
    }
}

impl GattEventState {
    /// The voice key is down.
    pub fn is_ai_voice_pressed(&self) -> (r: bool)
        ensures
            r == self@.ai_voice_pressed,
    {
        self.ai_voice_pressed
    }

    /// Lets go of everything that is still down.
    pub fn release_all(&mut self) -> (events: Vec<BoardEvent>)
        requires
            old(self)@.inv(),
        ensures
            final(self)@.inv(),
            (final(self)@, event::event_views(events@)) == after_release_all(old(self)@),
    {
        let none: Vec<PressedKeyMeta> = Vec::new();
        assert(key_aggregator::meta_views(none@) =~= Seq::empty());
        let mut events: Vec<BoardEvent> = self.aggregator.report_change(KeySource::Gatt, none, None);
        let ghost released = event::event_views(events@);
        if self.ai_voice_pressed {
            self.ai_voice_pressed = false;
            events.push(ai_voice(false));
            assert(event::event_views(events@) =~= released + seq![monitor::voice_event(false)]);
        } else {
            assert(released + Seq::<EventView>::empty() =~= released);
        }
        events
    }

    /// Takes in a notification of the event characteristic at a monotonic time.
    pub fn handle_event(&mut self, data: &[u8], pending: &mut PendingCommands, now_ns: u64) -> (r:
        EventOutcome)
        requires
            old(self)@.inv(),
        ensures
            final(self)@.inv(),
            (EventOutcomeView {
                state: final(self)@,
                pending: final(pending)@,
                reply: reply_view(r.reply),
                events: event::event_views(r.events@),
            }) == after_event(old(self)@, old(pending)@, data@, now_ns),
    {
        let mut events: Vec<BoardEvent> = Vec::new();
        assert(event::event_views(events@) =~= Seq::empty());
        let (cmd, len, payload): (u8, u8, &[u8]) = match parse_packet(data) {
            Some(p) => p,
            None => {
                let message: String = text::text_dec("GATT Event 解析失败(len=", data.len() as u64, ")");
                events.push(BoardEvent::Error(ErrorEvent { message, recoverable: true }));
                assert(event::event_views(events@) =~= after_event(
                    self@,
                    pending@,
                    data@,
                    now_ns,
                ).events);
                return EventOutcome { reply: None, events };
            },
        };
        if pending.take(cmd) {
            let mut response: Vec<u8> = Vec::new();
            response.push(cmd);
            response.push(len);
            assert(response@ =~= seq![cmd, len]);
            bytes::append_bytes(&mut response, payload);
            return EventOutcome { reply: Some((cmd, response)), events };
        }
        assert(pending@ =~= old(pending)@);
        if cmd == CMD_AI_FACTORY_KEY_EVENT {
            match parse_factory_key_event_unscoped(data) {
                Ok(e) => {
                    events.push(BoardEvent::FactoryKey(e));
                    assert(event::event_views(events@) =~= seq![EventView::FactoryKey(e)]);
                },
                Err(_) => {},
            }
        } else if cmd == CMD_CONSUMER_KEY {
            if payload.len() >= 2 {
                events = self.handle_key(bytes::u16_from_le(payload[0], payload[1]), now_ns);
            }
        } else if cmd == CMD_STATUS && payload.len() >= 2 && payload[0] == CMD_WORK_MODE_DATA {
            match WorkMode::from_u8(payload[1]) {
                Some(mode) => {
                    events.push(mode_dial(mode.display_name(), payload[1]));
                    assert(event::event_views(events@) =~= seq![
                        monitor::dial_event(mode.label(), payload@[1]),
                    ]);
                },
                None => {},
            }
        }
        EventOutcome { reply: None, events }
    }

    fn handle_key(&mut self, key_value: u16, now_ns: u64) -> (events: Vec<BoardEvent>)
        requires
            old(self)@.inv(),
        ensures
            final(self)@.inv(),
            (final(self)@, event::event_views(events@)) == after_gatt_key(
                old(self)@,
                key_value,
                now_ns,
            ),
    {
        let frame = self.consumer.on_frame(key_value, now_ns);
        let mut events: Vec<BoardEvent> = self.aggregator.report_batches(
            KeySource::Gatt,
            &frame.batches,
        );
        proof {
            lemma_other_channels_stay_empty(
                old(self)@.aggregator,
                frame@.batches,
                frame@.batches.len() as int,
            );
        }
        let ghost mut seen: Seq<EventView> = event::event_views(events@);
        if is_ai_voice_consumer_code(key_value) {
            self.ai_voice_pressed = true;
            events.push(ai_voice(true));
            proof {
                seen = seen + seq![monitor::voice_event(true)];
            }
        } else {
            proof {
                seen = seen + Seq::<EventView>::empty();
            }
        }
        assert(event::event_views(events@) =~= seen);
        match find_key_index_by_value(key_value) {
            Some(k) => {
                match key_index_to_mode(k) {
                    Some((mode_value, mode_name)) => {
                        self.mode_key_pressed = k;
                        events.push(mode_dial(mode_name, mode_value));
                    },
                    None => {},
                }
            },
            None => {},
        }
        proof {
            seen = seen + monitor::consumer_mode(key_value);
        }
        assert(event::event_views(events@) =~= seen);
        if frame.cleared {
            if self.ai_voice_pressed {
                self.ai_voice_pressed = false;
                events.push(ai_voice(false));
                proof {
                    seen = seen + seq![monitor::voice_event(false)];
                }
            } else {
                proof {
                    seen = seen + Seq::<EventView>::empty();
                }
            }
            assert(event::event_views(events@) =~= seen);
            let lever: usize = self.mode_key_pressed;
            self.mode_key_pressed = 0;
            if lever == 9 || lever == 10 {
                events.push(mode_dial("CHAT", 0));
                proof {
                    seen = seen + seq![monitor::dial_event("CHAT"@, 0)];
                }
            } else {
                proof {
                    seen = seen + Seq::<EventView>::empty();
                }
            }
            assert(event::event_views(events@) =~= seen);
        } else {
            proof {
                seen = seen + Seq::<EventView>::empty() + Seq::<EventView>::empty();
            }
            assert(event::event_views(events@) =~= seen);
        }
        events
    }
}

/// Reports of the GATT channel leave the others empty.
proof fn lemma_other_channels_stay_empty(
    a: AggregatorView,
    batches: Seq<Seq<key_aggregator::MetaView>>,
    n: int,
)
    ensures
        key_aggregator::after_batches(a, KeySource::Gatt, batches, n).0.config == a.config,
        key_aggregator::after_batches(a, KeySource::Gatt, batches, n).0.consumer == a.consumer,
    decreases n,
{
    if n > 0 {
        lemma_other_channels_stay_empty(a, batches, n - 1);
    }
}

/// What the notification loop was woken by.
pub enum NotifyEvent<'a> {
    /// A notification of the characteristic with this UUID.
    Notification { uuid: u128, value: &'a [u8] },
    /// The stream of notifications ended.
    StreamEnded,
    /// Nothing came for the heartbeat time; whether the link is up, where that could be told.
    Heartbeat(Option<bool>),
    /// Nobody decodes audio any more.
    AudioClosed,
    /// The session was stopped.
    Stopped,
}

/// What the notification loop does next.
pub struct NotifyStep {
    /// Hand the notification to the audio decoder.
    pub audio: bool,
    /// The reply to hand to the command that waits for it.
    pub reply: Option<(u8, Vec<u8>)>,
    pub events: Vec<BoardEvent>,
    /// The loop is over.
    pub ended: bool,
}

/// Mathematical form of `NotifyStep`.
pub struct NotifyStepView {
    pub audio: bool,
    pub reply: Option<(u8, Seq<u8>)>,
    pub events: Seq<EventView>,
    pub ended: bool,
}

impl View for NotifyStep {
    type V = NotifyStepView;

    open spec fn view(&self) -> NotifyStepView {
        NotifyStepView {
            audio: self.audio,
            reply: reply_view(self.reply),
            events: event::event_views(self.events@),
            ended: self.ended,
        }
    }
}

/// A step that does nothing.
pub open spec fn quiet_step() -> NotifyStepView {
    NotifyStepView { audio: false, reply: None, events: Seq::empty(), ended: false }
}

/// The session with one board.
pub struct VendorGattClient {
    running: bool,
    audio_enabled: bool,
    state: GattEventState,
    pending: PendingCommands,
    notif_count: u64,
    audio_count: u64,
    last_notif_ns: u64,
}

/// Mathematical form of the session.
pub struct ClientView {
    pub running: bool,
    pub audio_enabled: bool,
    pub state: GattView,
    pub pending: Set<u8>,
    pub notif_count: u64,
    pub audio_count: u64,
    pub last_notif_ns: u64,
}

impl View for VendorGattClient {
    type V = ClientView;

    closed spec fn view(&self) -> ClientView {
        ClientView {
            running: self.running,
            audio_enabled: self.audio_enabled,
            state: self.state@,
            pending: self.pending@,
            notif_count: self.notif_count,
            audio_count: self.audio_count,
            last_notif_ns: self.last_notif_ns,
        }
    }
}

/// One more, wrapping at the top.
pub open spec fn one_more(n: u64) -> u64 {
    ((n + 1) % 0x1_0000_0000_0000_0000) as u64
}

/// The session and the step after the link went away: everything that is down goes up, and no
/// command waits any longer.
pub open spec fn after_session_end(c: ClientView) -> (ClientView, NotifyStepView) {
    let (state, events) = after_release_all(c.state);
    (
        ClientView { running: false, state, pending: Set::empty(), ..c },
        NotifyStepView { audio: false, reply: None, events, ended: true },
    )
}

/// The session and the step after the notification loop was woken.
pub open spec fn after_notify(c: ClientView, woken: NotifyEvent<'_>, now_ns: u64) -> (
    ClientView,
    NotifyStepView,
) {
    match woken {
        NotifyEvent::Notification { uuid, value } => {
            let noted = ClientView { notif_count: one_more(c.notif_count), last_notif_ns: now_ns, ..c };
            if uuid == AUDIO_CHAR_UUID {
                (
                    ClientView { audio_count: one_more(c.audio_count), ..noted },
                    NotifyStepView { audio: c.audio_enabled, ..quiet_step() },
                )
            } else if uuid == EVENT_CHAR_UUID {
                let o = after_event(c.state, c.pending, value@, now_ns);
                (
                    ClientView { state: o.state, pending: o.pending, ..noted },
                    NotifyStepView { reply: o.reply, events: o.events, ..quiet_step() },
                )
            } else {
                (noted, quiet_step())
            }
        },
        NotifyEvent::Heartbeat(Some(true)) => (
            ClientView { last_notif_ns: now_ns, ..c },
            quiet_step(),
        ),
        _ => after_session_end(c),
    }
}

impl VendorGattClient {
    /// A session that is not connected. Audio notifications are not passed on until audio is
    /// switched on.
    pub fn new() -> (r: Self)
        ensures
            r@.state.inv(),
            r@ == (ClientView {
                running: false,
                audio_enabled: false,
                state: fresh_events(),
                pending: Set::empty(),
                notif_count: 0,
                audio_count: 0,
                last_notif_ns: 0,
            }),
    {
        VendorGattClient {
            running: false,
            audio_enabled: false,
            state: GattEventState::default(),
            pending: PendingCommands::new(),
            notif_count: 0,
            audio_count: 0,
            last_notif_ns: 0,
        }
    }

    /// The link is up: characteristics found, notifications on.
    pub fn connect(&mut self)
        ensures
            final(self)@ == (ClientView { running: true, ..old(self)@ }),
    {
        self.running = true;
    }

    /// The session runs.
    pub fn running(&self) -> (r: bool)
        ensures
            r == self@.running,
    {
        self.running
    }

    /// The board is connected.
    pub fn is_connected(&self) -> (r: bool)
        ensures
            r == self@.running,
    {
        self.running
    }

    /// Passes audio notifications on, or drops them.
    pub fn set_audio_enabled(&mut self, enabled: bool)
        ensures
            final(self)@ == (ClientView { audio_enabled: enabled, ..old(self)@ }),
    {
        self.audio_enabled = enabled;
    }

    /// Awaits the reply to `cmd`; true when an earlier wait for it is to be ended.
    pub fn register_command(&mut self, cmd: u8) -> (replaced: bool)
        ensures
            replaced == old(self)@.pending.contains(cmd),
            final(self)@ == (ClientView { pending: old(self)@.pending.insert(cmd), ..old(self)@ }),
    {
        self.pending.register(cmd)
    }

    /// The result of a command once its wait ended.
    pub fn finish_command(&mut self, expected_cmd: u8, timeout_ms: u64, ended: ReplyEvent) -> (r:
        Result<Vec<u8>, BoardError>)
        ensures
            final(self)@ == (ClientView {
                pending: if ended is Reply {
                    old(self)@.pending
                } else {
                    old(self)@.pending.remove(expected_cmd)
                },
                ..old(self)@
            }),
            match ended {
                ReplyEvent::Reply(bytes) => r == Ok::<Vec<u8>, BoardError>(bytes),
                ReplyEvent::WriteFailed(e) => r == Err::<Vec<u8>, BoardError>(e),
                ReplyEvent::Closed => error::fails_with(r, closed_text(expected_cmd)),
                ReplyEvent::TimedOut => error::fails_with(r, timeout_text(expected_cmd, timeout_ms)),
            },
    {
        self.pending.send_command_and_read_response(expected_cmd, timeout_ms, ended)
    }

    /// Starts to listen for notifications, with nothing down.
    pub fn start_notification_loop(&mut self, now_ns: u64)
        ensures
            final(self)@.state.inv(),
            final(self)@ == (ClientView {
                state: fresh_events(),
                notif_count: 0,
                audio_count: 0,
                last_notif_ns: now_ns,
                ..old(self)@
            }),
    {
        self.state = GattEventState::default();
        self.notif_count = 0;
        self.audio_count = 0;
        self.last_notif_ns = now_ns;
    }

    /// When the link is to be probed unless a notification comes before.
    pub fn heartbeat_at_ns(&self) -> (r: u64)
        ensures
            r == (if self@.last_notif_ns + HEARTBEAT_NS <= u64::MAX {
                self@.last_notif_ns + HEARTBEAT_NS
            } else {
                u64::MAX as int
            }),
    {
        self.last_notif_ns.saturating_add(HEARTBEAT_NS)
    }

    /// Takes in what woke the notification loop.
    pub fn on_notify(&mut self, woken: NotifyEvent<'_>, now_ns: u64) -> (r: NotifyStep)
        requires
            old(self)@.state.inv(),
        ensures
            final(self)@.state.inv(),
            (final(self)@, r@) == after_notify(old(self)@, woken, now_ns),
    {
        match woken {
            NotifyEvent::Notification { uuid, value } => {
                self.notif_count = self.notif_count.wrapping_add(1);
                self.last_notif_ns = now_ns;
                if uuid == AUDIO_CHAR_UUID {
                    self.audio_count = self.audio_count.wrapping_add(1);
                    let events: Vec<BoardEvent> = Vec::new();
                    assert(event::event_views(events@) =~= Seq::empty());
                    NotifyStep { audio: self.audio_enabled, reply: None, events, ended: false }
                } else if uuid == EVENT_CHAR_UUID {
                    let outcome = self.state.handle_event(value, &mut self.pending, now_ns);
                    NotifyStep {
                        audio: false,
                        reply: outcome.reply,
                        events: outcome.events,
                        ended: false,
                    }
                } else {
                    let events: Vec<BoardEvent> = Vec::new();
                    assert(event::event_views(events@) =~= Seq::empty());
                    NotifyStep { audio: false, reply: None, events, ended: false }
                }
            },
            NotifyEvent::Heartbeat(Some(true)) => {
                self.last_notif_ns = now_ns;
                let events: Vec<BoardEvent> = Vec::new();
                assert(event::event_views(events@) =~= Seq::empty());
                NotifyStep { audio: false, reply: None, events, ended: false }
            },
            _ => self.end_session(),
        }
    }

    fn end_session(&mut self) -> (r: NotifyStep)
        requires
            old(self)@.state.inv(),
        ensures
            final(self)@.state.inv(),
            (final(self)@, r@) == after_session_end(old(self)@),
    {
        let events: Vec<BoardEvent> = self.state.release_all();
        self.pending.clear();
        self.running = false;
        NotifyStep { audio: false, reply: None, events, ended: true }
    }

    /// Ends the session from this side: no command waits any longer.
    pub fn disconnect(&mut self)
        ensures
            final(self)@ == (ClientView { running: false, pending: Set::empty(), ..old(self)@ }),
    {
        self.running = false;
        self.pending.clear();
    }
}

/// A packet that a command waits for becomes its reply, word for word, and is no event.
pub proof fn law_an_awaited_reply_is_no_event(g: GattView, pending: Set<u8>, data: Seq<u8>, now_ns: u64)
    requires
        protocol_gatt::packet_parts(data) matches Some(p) && pending.contains(p.0),
    ensures
        ({
            let o = after_event(g, pending, data, now_ns);
            let parts = protocol_gatt::packet_parts(data);
            &&& o.state == g
            &&& o.events == Seq::<EventView>::empty()
            &&& o.reply matches Some(r) && r.0 == parts.unwrap().0
                && protocol_gatt::packet_parts(r.1) == parts
            &&& !o.pending.contains(parts.unwrap().0)
        }),
{
    let parts = protocol_gatt::packet_parts(data).unwrap();
    let reply = seq![parts.0, parts.1] + parts.2;
    assert(reply.subrange(2, 2 + reply[1]) =~= parts.2);
}

/// One reply ends one wait: the next packet with the same command is an event again.
pub proof fn law_a_reply_ends_one_wait(
    g: GattView,
    pending: Set<u8>,
    data: Seq<u8>,
    first_ns: u64,
    second_ns: u64,
)
    requires
        protocol_gatt::packet_parts(data) matches Some(p) && pending.contains(p.0),
    ensures
        after_event(g, after_event(g, pending, data, first_ns).pending, data, second_ns).reply is None,
{
}

/// When the link goes away, every key that is down and the voice key are reported as released,
/// and no command is left waiting.
pub proof fn law_disconnect_releases_everything(c: ClientView, k: usize)
    requires
        c.state.inv(),
    ensures
        ({
            let (next, step) = after_session_end(c);
            &&& next.pending == Set::<u8>::empty()
            &&& !next.running
            &&& !next.state.ai_voice_pressed
            &&& next.state.aggregator.all_pressed.len() == 0
            &&& c.state.ai_voice_pressed ==> step.events.contains(monitor::voice_event(false))
            &&& c.state.aggregator.all_pressed.contains(k) ==> step.events.contains(
                key_aggregator::release_of(k, KeySource::Gatt),
            )
        }),
{
    let (next, step) = after_session_end(c);
    let a = c.state.aggregator;
    let b = next.state.aggregator;
    key_aggregator::lemma_after_report_inv(a, KeySource::Gatt, Seq::empty(), None);
    if b.all_pressed.len() > 0 {
        let x = b.all_pressed[0];
        assert(b.all_pressed.contains(x));
        assert(b.holds(x));
    }
    let released = key_aggregator::change_events(
        KeySource::Gatt,
        a.all_pressed,
        b.all_pressed,
        Seq::empty(),
        b.last_config_mask,
    );
    if c.state.ai_voice_pressed {
        assert(step.events[released.len() as int] == monitor::voice_event(false));
    }
    if a.all_pressed.contains(k) {
        key_aggregator::law_a_release_is_reported_iff_the_key_went_up(
            KeySource::Gatt,
            a.all_pressed,
            b.all_pressed,
            Seq::empty(),
            b.last_config_mask,
            k,
        );
        let i = released.index_of(key_aggregator::release_of(k, KeySource::Gatt));
        assert(step.events[i] == released[i]);
    }
}

/// Turning the knob releases no key that is held.
pub proof fn law_a_knob_turn_releases_no_held_key(
    g: GattView,
    value: u16,
    now_ns: u64,
    k: usize,
)
    requires
        g.inv(),
        protocol_hid::key_index_of_value(value) matches Some(i) && protocol_hid::is_knob_pulse(i),
        key_aggregator::names_key(g.consumer.held, k),
    ensures
        after_gatt_key(g, value, now_ns).0.consumer.held == g.consumer.held,
        forall|e: EventView| #[trigger]
            after_gatt_key(g, value, now_ns).1.contains(e) ==> !key_aggregator::is_release(e, k),
{
    let frame = consumer_hold::consumer_step(g.consumer, value, now_ns).1;
    consumer_hold::law_knob_pulse_keeps_every_held_key(g.consumer, value, now_ns, k);
    let keyed = key_aggregator::after_batches(
        g.aggregator,
        KeySource::Gatt,
        frame.batches,
        frame.batches.len() as int,
    ).1;
    key_aggregator::law_a_key_named_throughout_is_not_released(
        g.aggregator,
        KeySource::Gatt,
        frame.batches,
        frame.batches.len() as int,
        k,
    );
    let all = after_gatt_key(g, value, now_ns).1;
    assert forall|e: EventView| #[trigger] all.contains(e) implies !key_aggregator::is_release(e, k) by {
        let i = all.index_of(e);
        if i < keyed.len() {
            assert(all[i] == keyed[i]);
            assert(keyed.contains(e));
        }
    }
}

/// The zero that ends a knob turn causes no event at all; the next zero reports the release of
/// every key that is held, and of the voice key.
pub proof fn law_letting_go_after_a_knob_turn_is_reported(
    g: GattView,
    tail_ns: u64,
    zero_ns: u64,
    k: usize,
)
    requires
        g.inv(),
        g.consumer.ends_pulse(tail_ns),
        g.aggregator.all_pressed.contains(k),
    ensures
        ({
            let tail = after_gatt_key(g, 0, tail_ns);
            let zero = after_gatt_key(tail.0, 0, zero_ns);
            &&& tail.1 == Seq::<EventView>::empty()
            &&& zero.1.contains(key_aggregator::release_of(k, KeySource::Gatt))
            &&& g.ai_voice_pressed ==> zero.1.contains(monitor::voice_event(false))
            &&& !zero.0.ai_voice_pressed
        }),
{
    reveal_with_fuel(key_aggregator::after_batches, 2);
    let tail = after_gatt_key(g, 0, tail_ns);
    assert(tail.1 =~= Seq::<EventView>::empty());
    let a = tail.0.aggregator;
    assert(a == g.aggregator);
    let zero = after_gatt_key(tail.0, 0, zero_ns);
    let none = Seq::<key_aggregator::MetaView>::empty();
    let b = key_aggregator::after_report(a, KeySource::Gatt, none, None);
    key_aggregator::lemma_after_report_inv(a, KeySource::Gatt, none, None);
    assert(!b.holds(k));
    assert(!b.all_pressed.contains(k));
    key_aggregator::law_a_release_is_reported_iff_the_key_went_up(
        KeySource::Gatt,
        a.all_pressed,
        b.all_pressed,
        none,
        b.last_config_mask,
        k,
    );
    let released = key_aggregator::change_events(
        KeySource::Gatt,
        a.all_pressed,
        b.all_pressed,
        none,
        b.last_config_mask,
    );
    let keyed = Seq::<EventView>::empty() + released;
    assert(keyed =~= released);
    let i = released.index_of(key_aggregator::release_of(k, KeySource::Gatt));
    assert(zero.1[i] == released[i]);
    if g.ai_voice_pressed {
        assert(zero.1[released.len() as int] == monitor::voice_event(false));
    }
}

/// No audio notification is passed on while audio is off.
pub proof fn law_audio_is_off_until_switched_on(c: ClientView, woken: NotifyEvent<'_>, now_ns: u64)
    requires
        !c.audio_enabled,
    ensures
        !after_notify(c, woken, now_ns).1.audio,
        !after_notify(c, woken, now_ns).0.audio_enabled,
{
}

/// A sighting adds a board at the end exactly when its name has the vendor prefix and its
/// identifier is not listed yet; nothing else changes.
pub proof fn law_a_sighting_adds_a_vendor_board(list: Seq<BleDeviceView>, seen: BleDeviceView)
    ensures
        ({
            let prefix = "REAI_VB_"@;
            let vendor = seen.name.len() >= prefix.len() && seen.name.subrange(
                0,
                prefix.len() as int,
            ) == prefix;
            let known = exists|i: int| 0 <= i < list.len() && (#[trigger] list[i]).id == seen.id;
            with_sighting(list, seen) == (if vendor && !known {
                list.push(seen)
            } else {
                list
            })
        }),
{
}

/// What an event packet leads to: a consumer key its key events, a status packet with a work mode
/// the move of the lever, a factory packet its event, and anything else nothing.
pub proof fn law_event_packets_are_told_apart(
    g: GattView,
    cmd: u8,
    payload: Seq<u8>,
    behind: Seq<u8>,
    now_ns: u64,
)
    requires
        payload.len() <= 255,
    ensures
        ({
            let data = seq![cmd, payload.len() as u8] + payload + behind;
            let o = after_event(g, Set::empty(), data, now_ns);
            let mode = if payload[1] == 0 || payload[1] == 0x0C {
                Some("CHAT"@)
            } else if payload[1] == 1 || payload[1] == 0x0A {
                Some("YOLO"@)
            } else if payload[1] == 2 || payload[1] == 0x0B || payload[1] == 0x0F {
                Some("PLAN"@)
            } else {
                None
            };
            let moves = cmd == 0x12 && payload.len() >= 2 && payload[0] == 0xC9 && mode is Some;
            &&& o.reply is None && o.pending == Set::<u8>::empty()
            &&& cmd == 0x0C && payload.len() >= 2 ==> (o.state, o.events) == after_gatt_key(
                g,
                (payload[0] + 256 * payload[1]) as u16,
                now_ns,
            )
            &&& moves ==> o.state == g && o.events.len() == 1 && o.events[0]
                == (EventView::ModeChange {
                mode: mode.unwrap(),
                mode_value: payload[1],
                source: crate::kernel::event::ModeSource::Dial,
            })
            &&& cmd != 0x0C && cmd != 0x6D && !moves ==> o.state == g && o.events.len() == 0
            &&& cmd == 0x0C && payload.len() < 2 ==> o.state == g && o.events.len() == 0
            &&& cmd == 0x6D ==> o.state == g && o.events.len() <= 1
        }),
{
    protocol_gatt::law_a_packet_gives_back_its_parts(cmd, payload, behind);
}

/// A packet that does not hold what it says is reported as an error that ends nothing, and changes
/// nothing.
pub proof fn law_a_malformed_event_is_reported(
    g: GattView,
    pending: Set<u8>,
    data: Seq<u8>,
    now_ns: u64,
)
    requires
        data.len() < 2 || data.len() < 2 + data[1],
    ensures
        ({
            let o = after_event(g, pending, data, now_ns);
            &&& o.state == g && o.pending == pending && o.reply is None
            &&& o.events.len() == 1
            &&& o.events[0] matches EventView::Error { recoverable, .. } && recoverable
        }),
{
}

/// The reply that a command waits for is the packet as it came, and only that command stops
/// waiting.
pub proof fn law_a_reply_goes_to_its_own_command(
    g: GattView,
    pending: Set<u8>,
    cmd: u8,
    payload: Seq<u8>,
    now_ns: u64,
)
    requires
        payload.len() <= 255,
        pending.contains(cmd),
    ensures
        ({
            let data = seq![cmd, payload.len() as u8] + payload;
            let o = after_event(g, pending, data, now_ns);
            &&& o.reply == Some((cmd, data))
            &&& o.pending == pending.remove(cmd)
            &&& o.state == g && o.events.len() == 0
        }),
{
    let data = seq![cmd, payload.len() as u8] + payload;
    protocol_gatt::law_a_packet_gives_back_its_parts(cmd, payload, Seq::empty());
    assert(data + Seq::<u8>::empty() =~= data);
    assert(seq![cmd, payload.len() as u8] + payload =~= data);
}

/// What a key value on the event characteristic leads to: the key events of the held-key tracker's
/// sets, then the voice key going down, the lever's mode, and, once everything is let go, the voice
/// key going up and a lever that stood on another mode falling back to CHAT.
pub proof fn law_a_gatt_key_value_tells_keys_voice_and_lever(g: GattView, value: u16, now_ns: u64)
    ensures
        ({
            let (held, frame) = consumer_hold::consumer_step(g.consumer, value, now_ns);
            let keyed = key_aggregator::after_batches(
                g.aggregator,
                KeySource::Gatt,
                frame.batches,
                frame.batches.len() as int,
            );
            let (next, events) = after_gatt_key(g, value, now_ns);
            let n = keyed.1.len() as int;
            let down = value == 0x0F04 || value == 0x0F99;
            let was_down = g.ai_voice_pressed || down;
            let lever = if value == 0x0F0A {
                9usize
            } else if value == 0x0F0B {
                10usize
            } else if value == 0x0F0C {
                11usize
            } else {
                g.mode_key_pressed
            };
            let moved = value == 0x0F0A || value == 0x0F0B || value == 0x0F0C;
            let a = if down {
                1int
            } else {
                0int
            };
            let b = if moved {
                1int
            } else {
                0int
            };
            let c = if frame.cleared && was_down {
                1int
            } else {
                0int
            };
            let d = if frame.cleared && (lever == 9 || lever == 10) {
                1int
            } else {
                0int
            };
            &&& next.consumer == held && next.aggregator == keyed.0
            &&& next.ai_voice_pressed == (was_down && !frame.cleared)
            &&& next.mode_key_pressed == (if frame.cleared {
                0usize
            } else {
                lever
            })
            &&& events.len() == n + a + b + c + d
            &&& events.subrange(0, n) == keyed.1
            &&& down ==> events[n] == EventView::AiVoiceKey(
                crate::kernel::event::AiVoiceKeyEvent { pressed: true },
            )
            &&& value == 0x0F0A ==> events[n + a] == (EventView::ModeChange {
                mode: "YOLO"@,
                mode_value: 1,
                source: crate::kernel::event::ModeSource::Dial,
            })
            &&& value == 0x0F0B ==> events[n + a] == (EventView::ModeChange {
                mode: "PLAN"@,
                mode_value: 2,
                source: crate::kernel::event::ModeSource::Dial,
            })
            &&& value == 0x0F0C ==> events[n + a] == (EventView::ModeChange {
                mode: "CHAT"@,
                mode_value: 0,
                source: crate::kernel::event::ModeSource::Dial,
            })
            &&& c == 1 ==> events[n + a + b] == EventView::AiVoiceKey(
                crate::kernel::event::AiVoiceKeyEvent { pressed: false },
            )
            &&& d == 1 ==> events[n + a + b + c] == (EventView::ModeChange {
                mode: "CHAT"@,
                mode_value: 0,
                source: crate::kernel::event::ModeSource::Dial,
            })
        }),
{
    let (held, frame) = consumer_hold::consumer_step(g.consumer, value, now_ns);
    let keyed = key_aggregator::after_batches(
        g.aggregator,
        KeySource::Gatt,
        frame.batches,
        frame.batches.len() as int,
    );
    let (next, events) = after_gatt_key(g, value, now_ns);
    assert(events.subrange(0, keyed.1.len() as int) =~= keyed.1);
}

/// Notifications go by their characteristic: audio to the decoder while it is switched on, events
/// to the event state, and others nowhere. Each of them counts as a sign of life.
pub proof fn law_notifications_go_by_their_characteristic(
    c: ClientView,
    uuid: u128,
    value: &[u8],
    now_ns: u64,
)
    ensures
        ({
            let (next, step) = after_notify(c, NotifyEvent::Notification { uuid, value }, now_ns);
            let o = after_event(c.state, c.pending, value@, now_ns);
            &&& step.audio == (uuid == 0xFE63 && c.audio_enabled)
            &&& uuid == 0xFE62 ==> step.reply == o.reply && step.events == o.events && next.state
                == o.state && next.pending == o.pending
            &&& uuid != 0xFE62 ==> step.reply is None && step.events.len() == 0 && next.state
                == c.state && next.pending == c.pending
            &&& !step.ended && next.running == c.running
            &&& next.last_notif_ns == now_ns
            &&& next.notif_count == (c.notif_count + 1) % 0x1_0000_0000_0000_0000
            &&& next.audio_count == (if uuid == 0xFE63 {
                (c.audio_count + 1) % 0x1_0000_0000_0000_0000
            } else {
                c.audio_count as int
            })
        }),
{
}

/// A session goes on after a silence only if the link is found to be up; every other end of the
/// wait ends the session, with everything that is still down let go and no command left waiting.
pub proof fn law_a_session_ends_unless_the_link_is_up(c: ClientView, woken: NotifyEvent<'_>, now_ns: u64)
    requires
        !(woken is Notification),
    ensures
        ({
            let (next, step) = after_notify(c, woken, now_ns);
            let up = woken == NotifyEvent::Heartbeat(Some(true));
            &&& up ==> !step.ended && next.running == c.running && next.last_notif_ns == now_ns
                && step.events.len() == 0 && next.state == c.state && next.pending == c.pending
            &&& !up ==> step.ended && !next.running && next.pending == Set::<u8>::empty()
                && step.events == key_aggregator::report_events(
                c.state.aggregator,
                KeySource::Gatt,
                Seq::empty(),
                None,
            ) + (if c.state.ai_voice_pressed {
                seq![
                    EventView::AiVoiceKey(crate::kernel::event::AiVoiceKeyEvent { pressed: false }),
                ]
            } else {
                Seq::empty()
            })
            &&& !step.audio && step.reply is None
        }),
{
}

/// With a target only the device of exactly that name is wanted; without one, every device whose
/// name begins with the vendor's prefix.
pub proof fn law_a_device_is_wanted_by_its_name(
    names: Seq<Option<String>>,
    i: int,
    name: Seq<char>,
    rest: Seq<char>,
    target: Seq<char>,
)
    ensures
        is_wanted(name, Some(target)) <==> name == target,
        is_wanted("REAI_VB_"@ + rest, None),
        is_wanted(name, None) ==> name.len() >= 8 && name.subrange(0, 8) == "REAI_VB_"@,
        names[i] is None ==> !wanted_at(names, i, Some(target)) && !wanted_at(names, i, None),
        names[i] matches Some(n) ==> wanted_at(names, i, Some(target)) == (n@ == target),
{
    reveal_strlit("REAI_VB_");
    let whole = "REAI_VB_"@ + rest;
    assert(whole.subrange(0, 8) =~= "REAI_VB_"@);
}

/// The first place of a characteristic is the only answer, and it is found wherever it occurs.
pub proof fn law_a_characteristic_has_one_first_place(
    uuids: Seq<u128>,
    uuid: u128,
    a: Option<usize>,
    b: Option<usize>,
    j: int,
)
    requires
        is_first_of(uuids, uuid, a),
        is_first_of(uuids, uuid, b),
    ensures
        a == b,
        0 <= j < uuids.len() && uuids[j] == uuid ==> (a matches Some(i) && i <= j && uuids[i as int]
            == uuid),
        (forall|k: int| 0 <= k < uuids.len() ==> uuids[k] != uuid) ==> a is None,
{
    if a is None && b is Some {
        assert(uuids.contains(uuids[b->0 as int]));
    }
    if b is None && a is Some {
        assert(uuids.contains(uuids[a->0 as int]));
    }
    if 0 <= j < uuids.len() && uuids[j] == uuid {
        assert(uuids.contains(uuid));
    }
    if a is Some {
        assert(uuids[a->0 as int] == uuid);
    }
    if a is Some && b is Some {
        let x = a->0;
        let y = b->0;
        if x < y {
            assert(uuids[x as int] != uuid);
        } else if y < x {
            assert(uuids[y as int] != uuid);
        }
    }
}

/// When the link goes, every key of the link goes up and the voice key with it, last; the keys of
/// the other channels stay down, and the knob and the lever are left alone.
pub proof fn law_a_lost_link_lets_go_of_its_keys(g: GattView)
    ensures
        ({
            let (next, events) = after_release_all(g);
            let keys = key_aggregator::report_events(
                g.aggregator,
                KeySource::Gatt,
                Seq::empty(),
                None,
            );
            &&& next.aggregator.gatt.len() == 0
            &&& next.aggregator.config == g.aggregator.config
            &&& next.aggregator.consumer == g.aggregator.consumer
            &&& next.aggregator == key_aggregator::after_report(
                g.aggregator,
                KeySource::Gatt,
                Seq::empty(),
                None,
            )
            &&& !next.ai_voice_pressed
            &&& next.consumer == g.consumer
            &&& next.mode_key_pressed == g.mode_key_pressed
            &&& !g.ai_voice_pressed ==> events == keys
            &&& g.ai_voice_pressed ==> events.len() == keys.len() + 1 && events.drop_last() == keys
                && (events.last() matches EventView::AiVoiceKey(e) && !e.pressed)
        }),
{
    let (next, events) = after_release_all(g);
    let keys = key_aggregator::report_events(g.aggregator, KeySource::Gatt, Seq::empty(), None);
    if g.ai_voice_pressed {
        assert(events.drop_last() =~= keys);
    } else {
        assert(events =~= keys);
    }
}

/// Before the first notification nothing is pressed.
pub proof fn law_a_new_link_has_nothing_pressed()
    ensures
        ({
            let g = fresh_events();
            &&& g.aggregator.config.len() == 0
            &&& g.aggregator.consumer.len() == 0
            &&& g.aggregator.gatt.len() == 0
            &&& g.aggregator.all_pressed.len() == 0
            &&& g.aggregator.last_config_mask is None
            &&& g.consumer.held.len() == 0
            &&& g.consumer.last_knob_pulse_ns is None
            &&& !g.ai_voice_pressed
            &&& g.mode_key_pressed == 0
        }),
{
}

/// The texts of a wait that failed name the command, and the time where it ran out.
pub proof fn law_a_failed_wait_names_its_command(cmd: u8, timeout_ms: u64, target: Seq<char>)
    ensures
        timeout_text(cmd, timeout_ms) == "[GATT] CMD=0x"@ + text::hex_text(cmd as nat, 2)
            + " 响应超时 ("@ + text::dec_text(timeout_ms as nat) + "ms)"@,
        closed_text(cmd) == "[GATT] CMD=0x"@ + text::hex_text(cmd as nat, 2)
            + " 响应通道已关闭(notification loop 已退出)"@,
        not_found_text(None) == "未发现 Vendor GATT 设备"@,
        not_found_text(Some(target)) == "未发现 Vendor GATT 设备"@ + (" "@ + target),
{
}

/// A list of boards is seen board by board, a reply as its command and its bytes, and a target by
/// its text.
pub proof fn law_boards_and_replies_are_seen_as_they_are(
    list: Seq<BleDeviceInfo>,
    i: int,
    cmd: u8,
    data: Vec<u8>,
    target: &str,
)
    requires
        0 <= i < list.len(),
    ensures
        device_views(list).len() == list.len(),
        device_views(list)[i] == list[i]@,
        reply_view(Some((cmd, data))) == Some((cmd, data@)),
        reply_view(None) is None,
        target_text(Some(target)) == Some(target@),
        target_text(None) is None,
{
}

} // verus!
