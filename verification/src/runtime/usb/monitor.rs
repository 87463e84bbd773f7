//! Reads of the config and consumer interfaces, turned into key and mode events.
//!
//! Each interface is read in a loop of its own. A turn of the loop asks what to do, performs the
//! read, and hands the outcome back; the monitor keeps everything that lives from turn to turn.

use vstd::prelude::*;
use crate::kernel::bytes;
use crate::kernel::consumer_hold;
use crate::kernel::consumer_hold::{ConsumerHeldTracker, HeldView};
use crate::kernel::event;
use crate::kernel::event::{
    AiVoiceKeyEvent, BoardEvent, EventView, KeySource, ModeChangeEvent, ModeSource,
};
use crate::kernel::key_aggregator;
use crate::kernel::key_aggregator::{
    AggregatorView, KeyStateAggregator, MetaView, PressedKeyMeta,
};
use crate::kernel::protocol_hid;
use crate::kernel::protocol_hid::{
    find_key_index_by_value, is_ai_voice_consumer_code, key_index_to_mode,
    parse_factory_key_event_unscoped, WorkMode, CMD_AI_FACTORY_KEY_EVENT, CMD_STATUS,
    CMD_WORK_MODE_DATA, REPORT_ID_INPUT, REPORT_ID_KEY_EVENT,
};
use crate::kernel::text;
use crate::kernel::types::ConnectionType;

verus! {

/// Read errors in a row that end a loop.
pub const MAX_READ_ERRORS: u32 = 5;

/// Longest time that one read blocks, in milliseconds.
pub const READ_TIMEOUT_MS: u32 = 10;

/// Time that a paused loop waits before it looks again, in milliseconds.
pub const PAUSED_WAIT_MS: u32 = 5;

/// What the monitor has counted.
#[derive(Debug, Clone, Copy, PartialEq, Eq, Structural)]
pub struct MonitorStats {
    pub key_event_count: u64,
    pub status_event_count: u64,
    pub audio_frame_total: u64,
}

impl Default for MonitorStats {
    fn default() -> (r: Self)
        ensures
            r == (MonitorStats { key_event_count: 0, status_event_count: 0, audio_frame_total: 0 }),
    {
        MonitorStats { key_event_count: 0, status_event_count: 0, audio_frame_total: 0 }
    }
}

/// How the monitor runs.
#[derive(Debug, Clone, Copy, PartialEq, Eq, Structural)]
pub struct MonitorConfig {
    pub connection_type: ConnectionType,
    pub audio_timeout_ms: u64,
    pub enable_consumer_interface: bool,
}

impl Default for MonitorConfig {
    fn default() -> (r: Self)
        ensures
            r == (MonitorConfig {
                connection_type: ConnectionType::Usb,
                audio_timeout_ms: 1000,
                enable_consumer_interface: false,
            }),
    {
        MonitorConfig {
            connection_type: ConnectionType::Usb,
            audio_timeout_ms: 1000,
            enable_consumer_interface: false,
        }
    }
}

/// What a loop does next.
#[derive(Debug, Clone, Copy, PartialEq, Eq, Structural)]
pub enum MonitorTurn {
    /// The monitor was stopped: leave the loop.
    Exit,
    /// A command has the interface: look again after this many milliseconds.
    Idle(u32),
    /// Read, for at most this many milliseconds.
    Read(u32),
}

/// Outcome of a turn.
pub enum MonitorRead<'a> {
    /// The first `len` bytes of the buffer were read; 0 when nothing came.
    Report { buf: &'a [u8], len: usize },
    /// The read failed.
    Failed(&'a str),
    /// The interface was taken away, or the monitor was stopped.
    Closed,
}

impl<'a> MonitorRead<'a> {
    /// The length lies within the buffer.
    pub open spec fn inv(&self) -> bool {
        self matches MonitorRead::Report { buf, len } ==> len <= buf@.len()
    }
}

/// What follows from a turn.
pub struct MonitorStep {
    pub events: Vec<BoardEvent>,
    /// The loop is over.
    pub ended: bool,
}

/// Everything that lives from turn to turn.
pub struct HidMonitor {
    aggregator: KeyStateAggregator,
    consumer: ConsumerHeldTracker,
    ai_voice_pressed: bool,
    stats: MonitorStats,
    running: bool,
    paused: bool,
    config_errors: u32,
    consumer_errors: u32,
}

/// Mathematical form of the monitor.
pub struct MonitorView {
    pub aggregator: AggregatorView,
    pub consumer: HeldView,
    pub ai_voice_pressed: bool,
    pub stats: MonitorStats,
    pub running: bool,
    pub paused: bool,
    pub config_errors: u32,
    pub consumer_errors: u32,
}

impl View for HidMonitor {
    type V = MonitorView;

    closed spec fn view(&self) -> MonitorView {
        MonitorView {
            aggregator: self.aggregator@,
            consumer: self.consumer@,
            ai_voice_pressed: self.ai_voice_pressed,
            stats: self.stats,
            running: self.running,
            paused: self.paused,
            config_errors: self.config_errors,
            consumer_errors: self.consumer_errors,
        }
    }
}

impl MonitorView {
    /// The key state is consistent, and the loops end before the error counters reach the limit.
    pub open spec fn inv(&self) -> bool {
        &&& self.aggregator.inv()
        &&& self.consumer.inv()
        &&& self.config_errors <= MAX_READ_ERRORS
        &&& self.consumer_errors <= MAX_READ_ERRORS
    }
}

/// Monitor that has seen nothing.
pub open spec fn idle_monitor() -> MonitorView {
    MonitorView {
        aggregator: key_aggregator::empty_aggregator(),
        consumer: HeldView { held: Seq::empty(), last_knob_pulse_ns: None },
        ai_voice_pressed: false,
        stats: MonitorStats { key_event_count: 0, status_event_count: 0, audio_frame_total: 0 },
        running: false,
        paused: false,
        config_errors: 0,
        consumer_errors: 0,
    }
}

/// The voice key went down or up.
pub open spec fn voice_event(pressed: bool) -> EventView {
    EventView::AiVoiceKey(AiVoiceKeyEvent { pressed })
}

/// The mode lever reports a mode.
pub open spec fn dial_event(mode: Seq<char>, value: u8) -> EventView {
    EventView::ModeChange { mode, mode_value: value, source: ModeSource::Dial }
}

/// A key of the mask, if its bit is set.
pub open spec fn mask_key(mask: u8, bit: u8, key: usize, name: Seq<char>) -> Seq<
    (usize, Seq<char>),
> {
    if mask & bit != 0 {
        seq![(key, name)]
    } else {
        Seq::empty()
    }
}

/// The keys of a mask, with their names: the knob, then the keys below it.
pub open spec fn mask_keys(mask: u8) -> Seq<(usize, Seq<char>)> {
    mask_key(mask, 0x08, 0, "音量A相(KEY0)"@) + mask_key(mask, 0x10, 1, "音量B相(KEY1)"@) + mask_key(
        mask,
        0x20,
        2,
        "音量按压(KEY2)"@,
    ) + mask_key(mask, 0x01, 6, "AI语音(KEY6)"@) + mask_key(mask, 0x02, 7, "Action键(KEY7)"@)
        + mask_key(mask, 0x04, 8, "Enter键(KEY8)"@)
}

/// The pressed keys that a mask reports.
pub open spec fn mask_metas(mask: u8) -> Seq<MetaView> {
    let keys = mask_keys(mask);
    Seq::new(
        keys.len(),
        |i: int|
            MetaView {
                key_index: keys[i].0,
                key_name: keys[i].1,
                key_value: mask as u16,
                source: KeySource::Config,
            },
    )
}

/// The monitor and the events after a channel reported its keys.
pub open spec fn after_keys(
    m: MonitorView,
    source: KeySource,
    keys: Seq<MetaView>,
    mask: Option<u8>,
) -> (MonitorView, Seq<EventView>) {
    let next = key_aggregator::after_report(m.aggregator, source, keys, mask);
    (
        MonitorView { aggregator: next, ..m },
        key_aggregator::change_events(
            source,
            m.aggregator.all_pressed,
            next.all_pressed,
            keys,
            next.last_config_mask,
        ),
    )
}

/// One more key event was counted.
pub open spec fn count_key(m: MonitorView) -> MonitorView {
    MonitorView {
        stats: MonitorStats {
            key_event_count: ((m.stats.key_event_count + 1) % 0x1_0000_0000_0000_0000) as u64,
            ..m.stats
        },
        ..m
    }
}

/// One more status event was counted.
pub open spec fn count_status(m: MonitorView) -> MonitorView {
    MonitorView {
        stats: MonitorStats {
            status_event_count: ((m.stats.status_event_count + 1) % 0x1_0000_0000_0000_0000) as u64,
            ..m.stats
        },
        ..m
    }
}

/// The monitor and the events after a key mask.
pub open spec fn after_mask(m: MonitorView, mask: u8) -> (MonitorView, Seq<EventView>) {
    if mask_keys(mask).len() == 0 {
        after_keys(m, KeySource::Config, Seq::empty(), None)
    } else {
        after_keys(count_key(m), KeySource::Config, mask_metas(mask), Some(mask))
    }
}

/// The work mode that a status report carries.
pub open spec fn status_mode(buf: Seq<u8>) -> Option<WorkMode> {
    if buf[1] == CMD_STATUS && buf[2] >= 2 && buf.len() >= 5 && buf[3] == CMD_WORK_MODE_DATA {
        WorkMode::of_code(buf[4])
    } else {
        None
    }
}

/// The monitor and the events after a report of the config interface.
pub open spec fn after_config_data(m: MonitorView, buf: Seq<u8>, len: int) -> (
    MonitorView,
    Seq<EventView>,
) {
    if len < 3 {
        (m, Seq::empty())
    } else if buf[0] == REPORT_ID_KEY_EVENT {
        if len >= 4 {
            after_mask(m, buf[3])
        } else {
            (m, Seq::empty())
        }
    } else if buf[0] == REPORT_ID_INPUT {
        if buf[1] == CMD_AI_FACTORY_KEY_EVENT {
            match protocol_hid::factory_event(buf.subrange(0, len), None) {
                Ok(e) => (m, seq![EventView::FactoryKey(e)]),
                Err(_) => (m, Seq::empty()),
            }
        } else {
            match status_mode(buf) {
                Some(mode) => (count_status(m), seq![dial_event(mode.label(), buf[4])]),
                None => (m, Seq::empty()),
            }
        }
    } else {
        (m, Seq::empty())
    }
}

/// The dial event of a consumer value that belongs to the mode lever.
pub open spec fn consumer_mode(value: u16) -> Seq<EventView> {
    match protocol_hid::key_index_of_value(value) {
        Some(k) => match protocol_hid::mode_of_key(k) {
            Some(mode) => seq![dial_event(mode.1, mode.0)],
            None => Seq::empty(),
        },
        None => Seq::empty(),
    }
}

/// The monitor and the events after the consumer interface reported `value`. The voice key is
/// released only when all keys went up: the zero that ends a knob pulse does not count.
pub open spec fn after_consumer_value(m: MonitorView, value: u16, now_ns: u64) -> (
    MonitorView,
    Seq<EventView>,
) {
    let voice_down = protocol_hid::is_ai_voice_code(value);
    let (held, frame) = consumer_hold::consumer_step(m.consumer, value, now_ns);
    let counted = if frame.counts_as_key_event {
        count_key(m)
    } else {
        m
    };
    let (aggregator, key_events) = key_aggregator::after_batches(
        m.aggregator,
        KeySource::Consumer,
        frame.batches,
        frame.batches.len() as int,
    );
    let voice = m.ai_voice_pressed || voice_down;
    (
        MonitorView {
            aggregator,
            consumer: held,
            ai_voice_pressed: voice && !frame.cleared,
            ..counted
        },
        (if voice_down {
            seq![voice_event(true)]
        } else {
            Seq::empty()
        }) + key_events + (if frame.cleared && voice {
            seq![voice_event(false)]
        } else {
            Seq::empty()
        }) + consumer_mode(value),
    )
}

/// A read error says that the device is gone.
pub open spec fn names_disconnect(message: Seq<char>) -> bool {
    ||| text::contains_text(message, "device"@)
    ||| text::contains_text(message, "disconnect"@)
    ||| text::contains_text(message, "removed"@)
}

/// The config loop ends: its keys go up.
pub open spec fn after_config_exit(m: MonitorView) -> (MonitorView, Seq<EventView>) {
    after_keys(MonitorView { running: false, ..m }, KeySource::Config, Seq::empty(), None)
}

/// The consumer loop ends: its keys and the voice key go up.
pub open spec fn after_consumer_exit(m: MonitorView) -> (MonitorView, Seq<EventView>) {
    let (next, events) = after_keys(
        MonitorView { running: false, ..m },
        KeySource::Consumer,
        Seq::empty(),
        None,
    );
    (
        MonitorView { ai_voice_pressed: false, ..next },
        events + (if m.ai_voice_pressed {
            seq![voice_event(false)]
        } else {
            Seq::empty()
        }),
    )
}

/// The monitor, the events and the end of the loop after a turn of the config loop.
pub open spec fn config_turn_outcome(m: MonitorView, read: MonitorRead<'_>) -> (
    MonitorView,
    Seq<EventView>,
    bool,
) {
    match read {
        MonitorRead::Report { buf, len } => if len > 0 {
            let (next, events) = after_config_data(
                MonitorView { config_errors: 0, ..m },
                buf@,
                len as int,
            );
            (next, events, false)
        } else {
            (m, Seq::empty(), false)
        },
        MonitorRead::Failed(message) => {
            let counted = MonitorView { config_errors: failures_after(m.config_errors), ..m };
            if failures_after(m.config_errors) >= MAX_READ_ERRORS || names_disconnect(message@) {
                let (next, events) = after_config_exit(counted);
                (next, events, true)
            } else {
                (counted, Seq::empty(), false)
            }
        },
        MonitorRead::Closed => {
            let (next, events) = after_config_exit(m);
            (next, events, true)
        },
    }
}

/// The monitor, the events and the end of the loop after a turn of the consumer loop.
pub open spec fn consumer_turn_outcome(m: MonitorView, read: MonitorRead<'_>, now_ns: u64) -> (
    MonitorView,
    Seq<EventView>,
    bool,
) {
    match read {
        MonitorRead::Report { buf, len } => if len >= 3 {
            let (next, events) = after_consumer_value(
                MonitorView { consumer_errors: 0, ..m },
                bytes::le16(buf@[1], buf@[2]),
                now_ns,
            );
            (next, events, false)
        } else {
            (m, Seq::empty(), false)
        },
        MonitorRead::Failed(message) => {
            let counted = MonitorView { consumer_errors: failures_after(m.consumer_errors), ..m };
            if failures_after(m.consumer_errors) >= MAX_READ_ERRORS || names_disconnect(message@) {
                let (next, events) = after_consumer_exit(counted);
                (next, events, true)
            } else {
                (counted, Seq::empty(), false)
            }
        },
        MonitorRead::Closed => {
            let (next, events) = after_consumer_exit(m);
            (next, events, true)
        },
    }
}

/// The error counter after one more failure; it stays at the limit that ends the loop.
pub open spec fn failures_after(errors: u32) -> u32 {
    if errors >= MAX_READ_ERRORS {
        MAX_READ_ERRORS
    } else {
        (errors + 1) as u32
    }
}

fn one_more_failure(errors: u32) -> (r: u32)
    ensures
        r == failures_after(errors),
{
    if errors >= MAX_READ_ERRORS {
        MAX_READ_ERRORS
    } else {
        errors + 1
    }
}

fn says_disconnected(message: &str) -> (r: bool)
    ensures
        r == names_disconnect(message@),
{
    text::text_contains(message, "device") || text::text_contains(message, "disconnect")
        || text::text_contains(message, "removed")
}

/// The voice event.
pub fn ai_voice(pressed: bool) -> (r: BoardEvent)
    ensures
        r@ == voice_event(pressed),
{
    BoardEvent::AiVoiceKey(AiVoiceKeyEvent { pressed })
}

/// The event of the mode lever.
pub fn mode_dial(mode: &str, value: u8) -> (r: BoardEvent)
    ensures
        r@ == dial_event(mode@, value),
{
    BoardEvent::ModeChange(
        ModeChangeEvent { mode: mode.to_string(), mode_value: value, source: ModeSource::Dial },
    )
}

/// Mathematical form of a list of named keys.
pub open spec fn named_keys(list: Seq<(usize, &'static str)>) -> Seq<(usize, Seq<char>)> {
    Seq::new(list.len(), |i: int| (list[i].0, list[i].1@))
}

impl HidMonitor {
    /// A monitor that has seen nothing.
    pub fn new() -> (r: Self)
        ensures
            r@ == idle_monitor(),
            r@.inv(),
    {
        HidMonitor {
            aggregator: KeyStateAggregator::new(),
            consumer: ConsumerHeldTracker::default(),
            ai_voice_pressed: false,
            stats: MonitorStats::default(),
            running: false,
            paused: false,
            config_errors: 0,
            consumer_errors: 0,
        }
    }

    /// What was counted so far.
    pub fn stats(&self) -> (r: MonitorStats)
        ensures
            r == self@.stats,
    {
        self.stats
    }

    /// The monitor runs.
    pub fn is_running(&self) -> (r: bool)
        ensures
            r == self@.running,
    {
        self.running
    }

    /// The voice key is down.
    pub fn is_ai_voice_pressed(&self) -> (r: bool)
        ensures
            r == self@.ai_voice_pressed,
    {
        self.ai_voice_pressed
    }

    /// Keeps the config loop from reading, so that a command has the interface to itself.
    pub fn pause(&mut self)
        ensures
            final(self)@ == (MonitorView { paused: true, ..old(self)@ }),
    {
        self.paused = true;
    }

    /// Lets the config loop read again.
    pub fn resume(&mut self)
        ensures
            final(self)@ == (MonitorView { paused: false, ..old(self)@ }),
    {
        self.paused = false;
    }

    /// Starts the config loop; false when the monitor runs already.
    pub fn start_config_monitor(&mut self) -> (started: bool)
        ensures
            started == !old(self)@.running,
            final(self)@ == (if old(self)@.running {
                old(self)@
            } else {
                MonitorView { running: true, config_errors: 0, ..old(self)@ }
            }),
    {
        if self.running {
            return false;
        }
        self.running = true;
        self.config_errors = 0;
        true
    }

    /// Starts the consumer loop with no key held.
    pub fn start_consumer_monitor(&mut self)
        requires
            old(self)@.inv(),
        ensures
            final(self)@ == (MonitorView {
                consumer: HeldView { held: Seq::empty(), last_knob_pulse_ns: None },
                consumer_errors: 0,
                ..old(self)@
            }),
            final(self)@.inv(),
    {
        self.consumer = ConsumerHeldTracker::default();
        self.consumer_errors = 0;
    }

    /// Stops both loops.
    pub fn stop(&mut self)
        ensures
            final(self)@ == (MonitorView { running: false, ..old(self)@ }),
    {
        self.running = false;
    }

    /// What the config loop does next.
    pub fn config_turn(&self) -> (r: MonitorTurn)
        ensures
            r == (if !self@.running {
                MonitorTurn::Exit
            } else if self@.paused {
                MonitorTurn::Idle(PAUSED_WAIT_MS)
            } else {
                MonitorTurn::Read(READ_TIMEOUT_MS)
            }),
    {
        if !self.running {
            MonitorTurn::Exit
        } else if self.paused {
            MonitorTurn::Idle(PAUSED_WAIT_MS)
        } else {
            MonitorTurn::Read(READ_TIMEOUT_MS)
        }
    }

    /// What the consumer loop does next; it has its own interface and does not pause.
    pub fn consumer_turn(&self) -> (r: MonitorTurn)
        ensures
            r == (if !self@.running {
                MonitorTurn::Exit
            } else {
                MonitorTurn::Read(READ_TIMEOUT_MS)
            }),
    {
        if !self.running {
            MonitorTurn::Exit
        } else {
            MonitorTurn::Read(READ_TIMEOUT_MS)
        }
    }

    /// Takes in the outcome of a turn of the config loop.
    pub fn monitor_config_loop(&mut self, read: MonitorRead<'_>) -> (r: MonitorStep)
        requires
            old(self)@.inv(),
            read.inv(),
        ensures
            final(self)@.inv(),
            (final(self)@, event::event_views(r.events@), r.ended) == config_turn_outcome(
                old(self)@,
                read,
            ),
    {
        match read {
            MonitorRead::Report { buf, len } => {
                if len > 0 {
                    self.config_errors = 0;
                    let events = self.handle_config_data(buf, len);
                    MonitorStep { events, ended: false }
                } else {
                    let events: Vec<BoardEvent> = Vec::new();
                    assert(event::event_views(events@) =~= Seq::empty());
                    MonitorStep { events, ended: false }
                }
            },
            MonitorRead::Failed(message) => {
                self.config_errors = one_more_failure(self.config_errors);
                if self.config_errors >= MAX_READ_ERRORS || says_disconnected(message) {
                    let events = self.leave_config_loop();
                    MonitorStep { events, ended: true }
                } else {
                    let events: Vec<BoardEvent> = Vec::new();
                    assert(event::event_views(events@) =~= Seq::empty());
                    MonitorStep { events, ended: false }
                }
            },
            MonitorRead::Closed => {
                let events = self.leave_config_loop();
                MonitorStep { events, ended: true }
            },
        }
    }

    /// Takes in the outcome of a turn of the consumer loop at a monotonic time.
    pub fn monitor_consumer_loop(&mut self, read: MonitorRead<'_>, now_ns: u64) -> (r: MonitorStep)
        requires
            old(self)@.inv(),
            read.inv(),
        ensures
            final(self)@.inv(),
            (final(self)@, event::event_views(r.events@), r.ended) == consumer_turn_outcome(
                old(self)@,
                read,
                now_ns,
            ),
    {
        match read {
            MonitorRead::Report { buf, len } => {
                if len >= 3 {
                    self.consumer_errors = 0;
                    let key_value: u16 = bytes::u16_from_le(buf[1], buf[2]);
                    let events = self.handle_consumer_value(key_value, now_ns);
                    MonitorStep { events, ended: false }
                } else {
                    let events: Vec<BoardEvent> = Vec::new();
                    assert(event::event_views(events@) =~= Seq::empty());
                    MonitorStep { events, ended: false }
                }
            },
            MonitorRead::Failed(message) => {
                self.consumer_errors = one_more_failure(self.consumer_errors);
                if says_disconnected(message) || self.consumer_errors >= MAX_READ_ERRORS {
                    let events = self.leave_consumer_loop();
                    MonitorStep { events, ended: true }
                } else {
                    let events: Vec<BoardEvent> = Vec::new();
                    assert(event::event_views(events@) =~= Seq::empty());
                    MonitorStep { events, ended: false }
                }
            },
            MonitorRead::Closed => {
                let events = self.leave_consumer_loop();
                MonitorStep { events, ended: true }
            },
        }
    }

    fn leave_config_loop(&mut self) -> (events: Vec<BoardEvent>)
        requires
            old(self)@.inv(),
        ensures
            final(self)@.inv(),
            (final(self)@, event::event_views(events@)) == after_config_exit(old(self)@),
    {
        self.running = false;
        let none: Vec<PressedKeyMeta> = Vec::new();
        assert(key_aggregator::meta_views(none@) =~= Seq::empty());
        self.aggregator.report_change(KeySource::Config, none, None)
    }

    fn leave_consumer_loop(&mut self) -> (events: Vec<BoardEvent>)
        requires
            old(self)@.inv(),
        ensures
            final(self)@.inv(),
            (final(self)@, event::event_views(events@)) == after_consumer_exit(old(self)@),
    {
        self.running = false;
        let none: Vec<PressedKeyMeta> = Vec::new();
        assert(key_aggregator::meta_views(none@) =~= Seq::empty());
        let mut events: Vec<BoardEvent> = self.aggregator.report_change(
            KeySource::Consumer,
            none,
            None,
        );
        let ghost released = event::event_views(events@);
        if self.ai_voice_pressed {
            self.ai_voice_pressed = false;
            events.push(ai_voice(false));
            assert(event::event_views(events@) =~= released + seq![voice_event(false)]);
        } else {
            assert(released + Seq::<EventView>::empty() =~= released);
        }
        events
    }

    /// Takes in a report of the config interface: key masks, modes and factory inputs.
    pub fn handle_config_data(&mut self, buf: &[u8], len: usize) -> (events: Vec<BoardEvent>)
        requires
            old(self)@.inv(),
            len <= buf@.len(),
        ensures
            final(self)@.inv(),
            (final(self)@, event::event_views(events@)) == after_config_data(
                old(self)@,
                buf@,
                len as int,
            ),
    {
        let mut events: Vec<BoardEvent> = Vec::new();
        assert(event::event_views(events@) =~= Seq::empty());
        if len < 3 {
            return events;
        }
        if buf[0] == REPORT_ID_KEY_EVENT {
            if len >= 4 {
                return self.handle_key_event_report(buf[3]);
            }
        } else if buf[0] == REPORT_ID_INPUT {
            if buf[1] == CMD_AI_FACTORY_KEY_EVENT {
                match parse_factory_key_event_unscoped(&buf[0..len]) {
                    Ok(e) => {
                        events.push(BoardEvent::FactoryKey(e));
                        assert(event::event_views(events@) =~= seq![EventView::FactoryKey(e)]);
                    },
                    Err(_) => {},
                }
                return events;
            }
            if buf[1] == CMD_STATUS && buf[2] >= 2 && buf.len() >= 5 && buf[3]
                == CMD_WORK_MODE_DATA {
                match WorkMode::from_u8(buf[4]) {
                    Some(mode) => {
                        self.stats.status_event_count = self.stats.status_event_count.wrapping_add(
                            1,
                        );
                        events.push(mode_dial(mode.display_name(), buf[4]));
                        assert(event::event_views(events@) =~= seq![
                            dial_event(mode.label(), buf@[4]),
                        ]);
                    },
                    None => {},
                }
            }
        }
        events
    }

    /// The keys whose bits are set in a mask.
    #[verifier::rlimit(40)]
    #[verifier::spinoff_prover]
    pub fn parse_key_mask(mask: u8) -> (r: Vec<(usize, &'static str)>)
        ensures
            named_keys(r@) == mask_keys(mask),
    {
        let mut keys: Vec<(usize, &'static str)> = Vec::new();
        if mask & 0x08 != 0 {
            keys.push((0, "音量A相(KEY0)"));
        }
        if mask & 0x10 != 0 {
            keys.push((1, "音量B相(KEY1)"));
        }
        if mask & 0x20 != 0 {
            keys.push((2, "音量按压(KEY2)"));
        }
        if mask & 0x01 != 0 {
            keys.push((6, "AI语音(KEY6)"));
        }
        if mask & 0x02 != 0 {
            keys.push((7, "Action键(KEY7)"));
        }
        if mask & 0x04 != 0 {
            keys.push((8, "Enter键(KEY8)"));
        }
        assert(named_keys(keys@) =~= mask_keys(mask));
        keys
    }

    fn handle_key_event_report(&mut self, mask: u8) -> (events: Vec<BoardEvent>)
        requires
            old(self)@.inv(),
        ensures
            final(self)@.inv(),
            (final(self)@, event::event_views(events@)) == after_mask(old(self)@, mask),
    {
        let keys: Vec<(usize, &'static str)> = HidMonitor::parse_key_mask(mask);
        let ghost named = mask_keys(mask);
        assert(named.len() == keys@.len());
        let mut pressed: Vec<PressedKeyMeta> = Vec::with_capacity(keys.len());
        if keys.len() == 0 {
            assert(key_aggregator::meta_views(pressed@) =~= Seq::empty());
            return self.aggregator.report_change(KeySource::Config, pressed, None);
        }
        self.stats.key_event_count = self.stats.key_event_count.wrapping_add(1);
        let mut i: usize = 0;
        while i < keys.len()
            invariant
                i <= keys@.len(),
                named == mask_keys(mask),
                named == named_keys(keys@),
                pressed@.len() == i,
                forall|j: int| 0 <= j < i ==> (#[trigger] pressed@[j])@ == mask_metas(mask)[j],
            decreases keys@.len() - i,
        {
            assert(named[i as int] == (keys@[i as int].0, keys@[i as int].1@));
            pressed.push(
                PressedKeyMeta {
                    key_index: keys[i].0,
                    key_name: keys[i].1.to_string(),
                    key_value: mask as u16,
                    source: KeySource::Config,
                },
            );
            i = i + 1;
        }
        assert(key_aggregator::meta_views(pressed@) =~= mask_metas(mask));
        self.aggregator.report_change(KeySource::Config, pressed, Some(mask))
    }

    fn handle_consumer_value(&mut self, key_value: u16, now_ns: u64) -> (events: Vec<BoardEvent>)
        requires
            old(self)@.inv(),
        ensures
            final(self)@.inv(),
            (final(self)@, event::event_views(events@)) == after_consumer_value(
                old(self)@,
                key_value,
                now_ns,
            ),
    {
        let ghost start = self@;
        let mut events: Vec<BoardEvent> = Vec::new();
        let ghost mut seen: Seq<EventView> = Seq::empty();
        assert(event::event_views(events@) =~= seen);
        if is_ai_voice_consumer_code(key_value) {
            self.ai_voice_pressed = true;
            events.push(ai_voice(true));
            proof {
                seen = seq![voice_event(true)];
            }
            assert(event::event_views(events@) =~= seen);
        }
        let frame = self.consumer.on_frame(key_value, now_ns);
        if frame.counts_as_key_event {
            self.stats.key_event_count = self.stats.key_event_count.wrapping_add(1);
        }
        let mut keyed: Vec<BoardEvent> = self.aggregator.report_batches(
            KeySource::Consumer,
            &frame.batches,
        );
        proof {
            seen = seen + event::event_views(keyed@);
        }
        let ghost before = events@;
        let ghost added = keyed@;
        events.append(&mut keyed);
        assert(event::event_views(events@) =~= event::event_views(before) + event::event_views(
            added,
        ));
        if frame.cleared && self.ai_voice_pressed {
            self.ai_voice_pressed = false;
            events.push(ai_voice(false));
            proof {
                seen = seen + seq![voice_event(false)];
            }
            assert(event::event_views(events@) =~= seen);
        } else {
            proof {
                seen = seen + Seq::<EventView>::empty();
            }
            assert(event::event_views(events@) =~= seen);
        }
        match find_key_index_by_value(key_value) {
            Some(k) => {
                match key_index_to_mode(k) {
                    Some((mode_value, mode_name)) => {
                        events.push(mode_dial(mode_name, mode_value));
                    },
                    None => {},
                }
            },
            None => {},
        }
        assert(event::event_views(events@) =~= seen + consumer_mode(key_value));
        events
    }
}

/// What the consumer channel of the aggregator holds is what the tracker holds.
pub open spec fn in_step(m: MonitorView) -> bool {
    m.aggregator.consumer == m.consumer.held
}

/// The tracker and the aggregator stay in step over every consumer report.
pub proof fn law_the_consumer_channel_follows_the_tracker(m: MonitorView, value: u16, now_ns: u64)
    requires
        in_step(m),
    ensures
        in_step(after_consumer_value(m, value, now_ns).0),
{
    reveal_with_fuel(key_aggregator::after_batches, 3);
}

/// Turning the knob releases no key that is held, whatever else is down.
pub proof fn law_a_knob_turn_releases_no_held_key(
    m: MonitorView,
    value: u16,
    now_ns: u64,
    k: usize,
)
    requires
        m.inv(),
        protocol_hid::key_index_of_value(value) matches Some(i) && protocol_hid::is_knob_pulse(i),
        key_aggregator::names_key(m.consumer.held, k),
    ensures
        after_consumer_value(m, value, now_ns).0.consumer.held == m.consumer.held,
        forall|e: EventView| #[trigger]
            after_consumer_value(m, value, now_ns).1.contains(e) ==> !key_aggregator::is_release(
                e,
                k,
            ),
{
    let frame = consumer_hold::consumer_step(m.consumer, value, now_ns).1;
    consumer_hold::law_knob_pulse_keeps_every_held_key(m.consumer, value, now_ns, k);
    let keyed = key_aggregator::after_batches(
        m.aggregator,
        KeySource::Consumer,
        frame.batches,
        frame.batches.len() as int,
    ).1;
    key_aggregator::law_a_key_named_throughout_is_not_released(
        m.aggregator,
        KeySource::Consumer,
        frame.batches,
        frame.batches.len() as int,
        k,
    );
    let all = after_consumer_value(m, value, now_ns).1;
    let first = if protocol_hid::is_ai_voice_code(value) {
        seq![voice_event(true)]
    } else {
        Seq::empty()
    };
    assert forall|e: EventView| #[trigger] all.contains(e) implies !key_aggregator::is_release(e, k) by {
        let i = all.index_of(e);
        if first.len() <= i < first.len() + keyed.len() {
            assert(all[i] == keyed[i - first.len()]);
            assert(keyed.contains(e));
        }
    }
}

/// The voice key stays down, and nothing says otherwise, until all keys go up: neither a knob
/// turn nor the zero that ends it releases it.
pub proof fn law_the_voice_key_outlives_a_knob_turn(
    m: MonitorView,
    value: u16,
    turn_ns: u64,
    zero_ns: u64,
)
    requires
        m.ai_voice_pressed,
        protocol_hid::key_index_of_value(value) matches Some(i) && protocol_hid::is_knob_pulse(i),
        zero_ns - turn_ns <= consumer_hold::KNOB_PULSE_TAIL_WINDOW_NS,
    ensures
        ({
            let turned = after_consumer_value(m, value, turn_ns);
            let ended = after_consumer_value(turned.0, 0, zero_ns);
            &&& ended.0.ai_voice_pressed
            &&& !turned.1.contains(voice_event(false))
            &&& ended.1 == Seq::<EventView>::empty()
        }),
{
    let frame = consumer_hold::consumer_step(m.consumer, value, turn_ns).1;
    let keyed = key_aggregator::after_batches(
        m.aggregator,
        KeySource::Consumer,
        frame.batches,
        frame.batches.len() as int,
    ).1;
    key_aggregator::lemma_batches_cause_key_events(
        m.aggregator,
        KeySource::Consumer,
        frame.batches,
        frame.batches.len() as int,
    );
    let turned = after_consumer_value(m, value, turn_ns);
    let first = if protocol_hid::is_ai_voice_code(value) {
        seq![voice_event(true)]
    } else {
        Seq::empty()
    };
    let all = turned.1;
    if all.contains(voice_event(false)) {
        let i = all.index_of(voice_event(false));
        if first.len() <= i < first.len() + keyed.len() {
            assert(all[i] == keyed[i - first.len()]);
            assert(keyed.contains(voice_event(false)));
        }
    }
    reveal_with_fuel(key_aggregator::after_batches, 2);
    let ended = after_consumer_value(turned.0, 0, zero_ns);
    assert(ended.1 =~= Seq::<EventView>::empty());
}

/// When the config loop ends, its channel holds nothing, and every key that no other channel
/// holds is reported as released.
pub proof fn law_leaving_the_config_loop_releases_its_keys(m: MonitorView, k: usize)
    requires
        m.inv(),
        key_aggregator::names_key(m.aggregator.config, k),
        !key_aggregator::names_key(m.aggregator.consumer, k),
        !key_aggregator::names_key(m.aggregator.gatt, k),
    ensures
        after_config_exit(m).0.aggregator.config.len() == 0,
        !after_config_exit(m).0.running,
        after_config_exit(m).1.contains(key_aggregator::release_of(k, KeySource::Config)),
{
    let next = after_config_exit(m).0.aggregator;
    key_aggregator::lemma_after_report_inv(m.aggregator, KeySource::Config, Seq::empty(), None);
    assert(m.aggregator.holds(k));
    assert(m.aggregator.all_pressed.contains(k));
    assert(!next.holds(k));
    assert(!next.all_pressed.contains(k));
    key_aggregator::law_a_release_is_reported_iff_the_key_went_up(
        KeySource::Config,
        m.aggregator.all_pressed,
        next.all_pressed,
        Seq::empty(),
        next.last_config_mask,
        k,
    );
}

/// When the consumer loop ends, its channel holds nothing, every key that no other channel holds
/// is reported as released, and so is the voice key if it was down.
pub proof fn law_leaving_the_consumer_loop_releases_its_keys(m: MonitorView, k: usize)
    requires
        m.inv(),
    ensures
        after_consumer_exit(m).0.aggregator.consumer.len() == 0,
        !after_consumer_exit(m).0.running,
        !after_consumer_exit(m).0.ai_voice_pressed,
        m.ai_voice_pressed ==> after_consumer_exit(m).1.contains(voice_event(false)),
        key_aggregator::names_key(m.aggregator.consumer, k) && !key_aggregator::names_key(
            m.aggregator.config,
            k,
        ) && !key_aggregator::names_key(m.aggregator.gatt, k) ==> after_consumer_exit(m).1.contains(
            key_aggregator::release_of(k, KeySource::Consumer),
        ),
{
    let (exited, all) = after_consumer_exit(m);
    let next = exited.aggregator;
    key_aggregator::lemma_after_report_inv(m.aggregator, KeySource::Consumer, Seq::empty(), None);
    let released = key_aggregator::change_events(
        KeySource::Consumer,
        m.aggregator.all_pressed,
        next.all_pressed,
        Seq::empty(),
        next.last_config_mask,
    );
    if m.ai_voice_pressed {
        assert(all[released.len() as int] == voice_event(false));
    }
    if key_aggregator::names_key(m.aggregator.consumer, k) && !key_aggregator::names_key(
        m.aggregator.config,
        k,
    ) && !key_aggregator::names_key(m.aggregator.gatt, k) {
        assert(m.aggregator.holds(k));
        assert(m.aggregator.all_pressed.contains(k));
        assert(!next.holds(k));
        assert(!next.all_pressed.contains(k));
        key_aggregator::law_a_release_is_reported_iff_the_key_went_up(
            KeySource::Consumer,
            m.aggregator.all_pressed,
            next.all_pressed,
            Seq::empty(),
            next.last_config_mask,
            k,
        );
        let i = released.index_of(key_aggregator::release_of(k, KeySource::Consumer));
        assert(all[i] == released[i]);
    }
}

proof fn lemma_mask_keys(mask: u8)
    ensures
        key_aggregator::names_key(mask_metas(mask), 0) <==> mask & 0x08 != 0,
        key_aggregator::names_key(mask_metas(mask), 1) <==> mask & 0x10 != 0,
        key_aggregator::names_key(mask_metas(mask), 2) <==> mask & 0x20 != 0,
        key_aggregator::names_key(mask_metas(mask), 6) <==> mask & 0x01 != 0,
        key_aggregator::names_key(mask_metas(mask), 7) <==> mask & 0x02 != 0,
        key_aggregator::names_key(mask_metas(mask), 8) <==> mask & 0x04 != 0,
        mask_keys(mask).len() == 0 ==> mask & 0x08 == 0 && mask & 0x10 == 0 && mask & 0x20 == 0
            && mask & 0x01 == 0 && mask & 0x02 == 0 && mask & 0x04 == 0,
        forall|i: int|
            0 <= i < mask_metas(mask).len() ==> (#[trigger] mask_metas(mask)[i]).key_value == mask
                && mask_metas(mask)[i].source == KeySource::Config && (
            mask_metas(mask)[i].key_index <= 2 || 6 <= mask_metas(mask)[i].key_index <= 8),
{
    let a0 = mask_key(mask, 0x08, 0, "音量A相(KEY0)"@);
    let a1 = mask_key(mask, 0x10, 1, "音量B相(KEY1)"@);
    let a2 = mask_key(mask, 0x20, 2, "音量按压(KEY2)"@);
    let a6 = mask_key(mask, 0x01, 6, "AI语音(KEY6)"@);
    let a7 = mask_key(mask, 0x02, 7, "Action键(KEY7)"@);
    let a8 = mask_key(mask, 0x04, 8, "Enter键(KEY8)"@);
    let keys = mask_keys(mask);
    let metas = mask_metas(mask);
    let n1 = a0.len() as int;
    let n2 = n1 + a1.len();
    let n3 = n2 + a2.len();
    let n4 = n3 + a6.len();
    let n5 = n4 + a7.len();
    assert(keys =~= a0 + a1 + a2 + a6 + a7 + a8);
    assert forall|i: int| 0 <= i < keys.len() implies (#[trigger] keys[i]).0 == (if i < n1 {
        0
    } else if i < n2 {
        1
    } else if i < n3 {
        2
    } else if i < n4 {
        6
    } else if i < n5 {
        7
    } else {
        8int
    }) by {}
    if mask & 0x08 != 0 {
        assert(metas[0].key_index == 0);
    }
    if mask & 0x10 != 0 {
        assert(metas[n1].key_index == 1);
    }
    if mask & 0x20 != 0 {
        assert(metas[n2].key_index == 2);
    }
    if mask & 0x01 != 0 {
        assert(metas[n3].key_index == 6);
    }
    if mask & 0x02 != 0 {
        assert(metas[n4].key_index == 7);
    }
    if mask & 0x04 != 0 {
        assert(metas[n5].key_index == 8);
    }
}

/// A key report of the config interface names the keys that its mask has bits for, the knob and
/// the three keys below it and no other, each with the whole mask as its value; what the config
/// channel held before is replaced, and the other channels are left alone.
pub proof fn law_a_mask_presses_the_keys_of_its_bits(m: MonitorView, buf: Seq<u8>, len: int)
    requires
        4 <= len <= buf.len(),
        buf[0] == 2,
    ensures
        ({
            let mask = buf[3];
            let (next, events) = after_config_data(m, buf, len);
            let held = next.aggregator.config;
            let any = mask & 0x3F != 0;
            &&& key_aggregator::names_key(held, 0) <==> mask & 0x08 != 0
            &&& key_aggregator::names_key(held, 1) <==> mask & 0x10 != 0
            &&& key_aggregator::names_key(held, 2) <==> mask & 0x20 != 0
            &&& key_aggregator::names_key(held, 6) <==> mask & 0x01 != 0
            &&& key_aggregator::names_key(held, 7) <==> mask & 0x02 != 0
            &&& key_aggregator::names_key(held, 8) <==> mask & 0x04 != 0
            &&& forall|i: int|
                0 <= i < held.len() ==> (#[trigger] held[i]).key_value == mask && held[i].source
                    == KeySource::Config && (held[i].key_index <= 2 || 6 <= held[i].key_index <= 8)
            &&& next.aggregator.last_config_mask == (if any {
                Some(mask)
            } else {
                None
            })
            &&& next.aggregator.consumer == m.aggregator.consumer
            &&& next.aggregator.gatt == m.aggregator.gatt
            &&& next.consumer == m.consumer && next.ai_voice_pressed == m.ai_voice_pressed
            &&& next.stats.key_event_count == (if any {
                (m.stats.key_event_count + 1) % 0x1_0000_0000_0000_0000
            } else {
                m.stats.key_event_count as int
            })
            &&& events == key_aggregator::report_events(
                m.aggregator,
                KeySource::Config,
                held,
                next.aggregator.last_config_mask,
            )
        }),
{
    let mask = buf[3];
    lemma_mask_keys(mask);
    assert(mask & 0x3F != 0 <==> mask & 0x08 != 0 || mask & 0x10 != 0 || mask & 0x20 != 0 || mask
        & 0x01 != 0 || mask & 0x02 != 0 || mask & 0x04 != 0) by (bit_vector);
    if mask_keys(mask).len() > 0 {
        let metas = mask_metas(mask);
        let k = metas[0].key_index;
        assert(key_aggregator::names_key(metas, k));
        assert(metas[0].key_index == mask_keys(mask)[0].0);
        assert(mask & 0x3F != 0) by {
            if mask & 0x3F == 0 {
                assert(mask_keys(mask) =~= Seq::empty());
            }
        }
    }
}

/// A status report that carries a work mode moves the lever to that mode, and is the only report
/// that does: it says 0x12, at least two bytes, 0xC9 and the mode.
pub proof fn law_a_status_report_moves_the_mode(m: MonitorView, buf: Seq<u8>, len: int)
    requires
        3 <= len <= buf.len(),
        buf.len() >= 5,
        buf[0] == 0x0A,
        buf[1] != 0x6D,
    ensures
        ({
            let (next, events) = after_config_data(m, buf, len);
            let mode = if buf[4] == 0 || buf[4] == 0x0C {
                Some("CHAT"@)
            } else if buf[4] == 1 || buf[4] == 0x0A {
                Some("YOLO"@)
            } else if buf[4] == 2 || buf[4] == 0x0B || buf[4] == 0x0F {
                Some("PLAN"@)
            } else {
                None
            };
            &&& buf[1] == 0x12 && buf[2] >= 2 && buf[3] == 0xC9 && mode is Some ==> events.len() == 1
                && events[0] == (EventView::ModeChange {
                mode: mode.unwrap(),
                mode_value: buf[4],
                source: ModeSource::Dial,
            }) && next.stats.status_event_count == (m.stats.status_event_count + 1)
                % 0x1_0000_0000_0000_0000
            &&& !(buf[1] == 0x12 && buf[2] >= 2 && buf[3] == 0xC9 && mode is Some) ==> events.len()
                == 0 && next == m
            &&& next.aggregator == m.aggregator
        }),
{
}

/// The reports of the consumer interface carry one key value, low byte first, behind a report id;
/// shorter ones are nothing. What the held-key tracker makes of the value is reported on the
/// consumer channel, set after set.
pub proof fn law_a_consumer_report_is_a_key_value(m: MonitorView, value: u16, now_ns: u64)
    ensures
        ({
            let (held, frame) = consumer_hold::consumer_step(m.consumer, value, now_ns);
            let (next, events) = after_consumer_value(m, value, now_ns);
            let keyed = key_aggregator::after_batches(
                m.aggregator,
                KeySource::Consumer,
                frame.batches,
                frame.batches.len() as int,
            );
            let down = value == 0x0F04 || value == 0x0F99;
            let was_down = m.ai_voice_pressed || down;
            let lead = if down {
                1int
            } else {
                0int
            };
            let n = keyed.1.len();
            let lever = value == 0x0F0A || value == 0x0F0B || value == 0x0F0C;
            &&& next.consumer == held && next.aggregator == keyed.0
            &&& events.len() == lead + n + (if frame.cleared && was_down {
                1int
            } else {
                0int
            }) + (if lever {
                1int
            } else {
                0int
            })
            &&& down ==> events[0] == EventView::AiVoiceKey(AiVoiceKeyEvent { pressed: true })
            &&& events.subrange(lead, lead + n) == keyed.1
            &&& frame.cleared && was_down ==> events[lead + n] == EventView::AiVoiceKey(
                AiVoiceKeyEvent { pressed: false },
            )
            &&& next.ai_voice_pressed == (was_down && !frame.cleared)
            &&& value == 0x0F0A ==> events.last() == (EventView::ModeChange {
                mode: "YOLO"@,
                mode_value: 1,
                source: ModeSource::Dial,
            })
            &&& value == 0x0F0B ==> events.last() == (EventView::ModeChange {
                mode: "PLAN"@,
                mode_value: 2,
                source: ModeSource::Dial,
            })
            &&& value == 0x0F0C ==> events.last() == (EventView::ModeChange {
                mode: "CHAT"@,
                mode_value: 0,
                source: ModeSource::Dial,
            })
            &&& next.stats.key_event_count == (if frame.counts_as_key_event {
                (m.stats.key_event_count + 1) % 0x1_0000_0000_0000_0000
            } else {
                m.stats.key_event_count as int
            })
        }),
{
    let (held, frame) = consumer_hold::consumer_step(m.consumer, value, now_ns);
    let (next, events) = after_consumer_value(m, value, now_ns);
    let keyed = key_aggregator::after_batches(
        m.aggregator,
        KeySource::Consumer,
        frame.batches,
        frame.batches.len() as int,
    );
    let down = value == 0x0F04 || value == 0x0F99;
    let lead = if down {
        1int
    } else {
        0int
    };
    assert(events.subrange(lead, lead + keyed.1.len()) =~= keyed.1);
}

/// A report is taken in by its loop, and starts that loop's count of errors anew: the config loop
/// takes what it read as it is, the consumer loop the key value in bytes 1 and 2.
pub proof fn law_a_good_read_is_taken_in(m: MonitorView, buf: &[u8], len: usize, now_ns: u64)
    requires
        len <= buf@.len(),
    ensures
        ({
            let read = MonitorRead::Report { buf, len };
            let config = config_turn_outcome(m, read);
            let consumer = consumer_turn_outcome(m, read, now_ns);
            let fresh = MonitorView { config_errors: 0, ..m };
            let renewed = MonitorView { consumer_errors: 0, ..m };
            &&& len > 0 ==> (config.0, config.1) == after_config_data(fresh, buf@, len as int)
            &&& len == 0 ==> config.0 == m && config.1.len() == 0
            &&& len >= 3 ==> (consumer.0, consumer.1) == after_consumer_value(
                renewed,
                (buf@[1] + 256 * buf@[2]) as u16,
                now_ns,
            )
            &&& len < 3 ==> consumer.0 == m && consumer.1.len() == 0
            &&& !config.2 && !consumer.2
        }),
{
}

/// A loop ends with its fifth failed read in a row, at once with an error that names a device that
/// is gone, and when its interface is taken away; it then lets go of its keys. Any other failure is
/// only counted.
pub proof fn law_failed_reads_end_a_loop_at_the_fifth(m: MonitorView, message: &str, now_ns: u64)
    requires
        m.config_errors <= 4,
        m.consumer_errors <= 4,
    ensures
        ({
            let gone = text::contains_text(message@, "device"@) || text::contains_text(
                message@,
                "disconnect"@,
            ) || text::contains_text(message@, "removed"@);
            let config = config_turn_outcome(m, MonitorRead::Failed(message));
            let consumer = consumer_turn_outcome(m, MonitorRead::Failed(message), now_ns);
            let config_closed = config_turn_outcome(m, MonitorRead::Closed);
            let consumer_closed = consumer_turn_outcome(m, MonitorRead::Closed, now_ns);
            &&& config.2 <==> m.config_errors == 4 || gone
            &&& consumer.2 <==> m.consumer_errors == 4 || gone
            &&& config.0.config_errors == m.config_errors + 1
            &&& consumer.0.consumer_errors == m.consumer_errors + 1
            &&& !config.2 ==> config.1.len() == 0 && config.0.aggregator == m.aggregator
            &&& !consumer.2 ==> consumer.1.len() == 0 && consumer.0.aggregator == m.aggregator
            &&& config_closed.2 && consumer_closed.2
            &&& config.2 ==> config.1 == config_closed.1 && config.0.aggregator
                == config_closed.0.aggregator && !config.0.running
            &&& consumer.2 ==> consumer.1 == consumer_closed.1 && consumer.0.aggregator
                == consumer_closed.0.aggregator && !consumer.0.running
            &&& config_closed.1 == key_aggregator::report_events(
                m.aggregator,
                KeySource::Config,
                Seq::empty(),
                None,
            )
            &&& consumer_closed.1 == key_aggregator::report_events(
                m.aggregator,
                KeySource::Consumer,
                Seq::empty(),
                None,
            ) + (if m.ai_voice_pressed {
                seq![EventView::AiVoiceKey(AiVoiceKeyEvent { pressed: false })]
            } else {
                Seq::empty()
            })
        }),
{
}

/// A monitor that has seen nothing holds no keys, has counted nothing and does not run.
pub proof fn law_a_new_monitor_is_idle()
    ensures
        ({
            let m = idle_monitor();
            &&& m.aggregator.config.len() == 0
            &&& m.aggregator.consumer.len() == 0
            &&& m.aggregator.gatt.len() == 0
            &&& m.aggregator.all_pressed.len() == 0
            &&& m.aggregator.last_config_mask is None
            &&& m.consumer.held.len() == 0
            &&& m.consumer.last_knob_pulse_ns is None
            &&& !m.ai_voice_pressed && !m.running && !m.paused
            &&& m.config_errors == 0 && m.consumer_errors == 0
            &&& m.stats.key_event_count == 0 && m.stats.status_event_count == 0
            &&& m.stats.audio_frame_total == 0
        }),
{
}

/// A read error tells of a lost device exactly when it holds one of three words.
pub proof fn law_three_words_tell_of_a_lost_device(message: Seq<char>)
    ensures
        names_disconnect(message) <==> text::contains_text(message, "device"@)
            || text::contains_text(message, "disconnect"@) || text::contains_text(
            message,
            "removed"@,
        ),
{
}

/// Failures are counted one by one and no further than the five that end a loop.
pub proof fn law_failures_are_counted_up_to_five(errors: u32)
    ensures
        errors < 5 ==> failures_after(errors) == errors + 1,
        errors >= 5 ==> failures_after(errors) == 5,
{
}

/// The lever tells a mode by its name and number, as an event of the dial.
pub proof fn law_the_lever_tells_its_mode(mode: Seq<char>, value: u8)
    ensures
        dial_event(mode, value) == (EventView::ModeChange {
            mode,
            mode_value: value,
            source: ModeSource::Dial,
        }),
{
}

/// A list of named keys is seen key by key, each with its position and its name.
pub proof fn law_named_keys_are_seen_one_by_one(list: Seq<(usize, &'static str)>, i: int)
    requires
        0 <= i < list.len(),
    ensures
        named_keys(list).len() == list.len(),
        named_keys(list)[i].0 == list[i].0,
        named_keys(list)[i].1 == list[i].1@,
{
}

} // verus!
