//! Which keys the consumer channel still holds down.
//!
//! The channel reports one key value at a time, over USB and over BLE alike. Turning the knob
//! while a key is held overwrites the report, but does not mean that the key went up. Two rules
//! recover the real state: a new key value is added to the keys that are held, and a zero right
//! after a knob pulse ends that pulse and nothing else. "Right after" is judged by time, since
//! other frames can come in between.

use vstd::prelude::*;
use super::event::KeySource;
use super::key_aggregator;
use super::key_aggregator::{clone_metas, MetaView, PressedKeyMeta};
use super::protocol_hid;
use super::protocol_hid::{find_key_index_by_value, get_key_name, is_knob_pulse_key_index};

verus! {

/// Longest time between a knob pulse and the zero that ends it, in nanoseconds. A pulse ends
/// after a millisecond or two, a hand lets go after hundreds.
pub const KNOB_PULSE_TAIL_WINDOW_NS: u64 = 100_000_000;

/// What follows from one frame of the channel.
pub struct ConsumerFrame {
    /// Key sets to report one after another; none when nothing changes.
    pub batches: Vec<Vec<PressedKeyMeta>>,
    /// All keys went up.
    pub cleared: bool,
    /// The frame counts as a key event.
    pub counts_as_key_event: bool,
}

/// Mathematical form of `ConsumerFrame`.
pub struct FrameView {
    pub batches: Seq<Seq<MetaView>>,
    pub cleared: bool,
    pub counts_as_key_event: bool,
}

impl View for ConsumerFrame {
    type V = FrameView;

    open spec fn view(&self) -> FrameView {
        FrameView {
            batches: key_aggregator::batch_views(self.batches@),
            cleared: self.cleared,
            counts_as_key_event: self.counts_as_key_event,
        }
    }
}

/// The keys that are held, in the order they went down, and the time of the last knob pulse that
/// still waits for its end.
pub struct ConsumerHeldTracker {
    pub held: Vec<PressedKeyMeta>,
    pub last_knob_pulse_ns: Option<u64>,
}

/// Mathematical form of the tracker.
pub struct HeldView {
    pub held: Seq<MetaView>,
    pub last_knob_pulse_ns: Option<u64>,
}

impl View for ConsumerHeldTracker {
    type V = HeldView;

    open spec fn view(&self) -> HeldView {
        HeldView {
            held: key_aggregator::meta_views(self.held@),
            last_knob_pulse_ns: self.last_knob_pulse_ns,
        }
    }
}

impl HeldView {
    /// No key is held twice, and no knob phase is held.
    pub open spec fn inv(&self) -> bool {
        &&& forall|i: int, j: int|
            0 <= i < j < self.held.len() ==> (#[trigger] self.held[i]).key_index != (
            #[trigger] self.held[j]).key_index
        &&& forall|i: int|
            0 <= i < self.held.len() ==> !protocol_hid::is_knob_pulse(
                (#[trigger] self.held[i]).key_index,
            )
    }

    /// A zero at time `now` ends the last knob pulse.
    pub open spec fn ends_pulse(&self, now_ns: u64) -> bool {
        self.last_knob_pulse_ns matches Some(at) && now_ns - at <= KNOB_PULSE_TAIL_WINDOW_NS
    }
}

/// Entry of the key at position `k` with its value.
pub open spec fn consumer_entry(k: usize, value: u16) -> MetaView {
    MetaView {
        key_index: k,
        key_name: protocol_hid::key_name(k),
        key_value: value,
        source: KeySource::Consumer,
    }
}

/// A frame that changes nothing.
pub open spec fn quiet_frame() -> FrameView {
    FrameView { batches: Seq::empty(), cleared: false, counts_as_key_event: false }
}

/// Tracker and frame after the channel reported `value`.
pub open spec fn consumer_step(s: HeldView, value: u16, now_ns: u64) -> (HeldView, FrameView) {
    if value == 0 {
        if s.ends_pulse(now_ns) {
            (HeldView { held: s.held, last_knob_pulse_ns: None }, quiet_frame())
        } else {
            (
                HeldView { held: Seq::empty(), last_knob_pulse_ns: s.last_knob_pulse_ns },
                FrameView {
                    batches: seq![Seq::<MetaView>::empty()],
                    cleared: true,
                    counts_as_key_event: false,
                },
            )
        }
    } else {
        match protocol_hid::key_index_of_value(value) {
            None => (s, quiet_frame()),
            Some(k) => {
                let entry = consumer_entry(k, value);
                if protocol_hid::is_knob_pulse(k) {
                    (
                        HeldView { held: s.held, last_knob_pulse_ns: Some(now_ns) },
                        FrameView {
                            batches: seq![s.held.push(entry), s.held],
                            cleared: false,
                            counts_as_key_event: true,
                        },
                    )
                } else {
                    let held = if key_aggregator::names_key(s.held, k) {
                        s.held
                    } else {
                        s.held.push(entry)
                    };
                    (
                        HeldView { held, last_knob_pulse_ns: None },
                        FrameView {
                            batches: seq![held],
                            cleared: false,
                            counts_as_key_event: true,
                        },
                    )
                }
            },
        }
    }
}

impl Default for ConsumerHeldTracker {
    fn default() -> (r: Self)
        ensures
            r@.inv(),
            r@ == (HeldView { held: Seq::empty(), last_knob_pulse_ns: None }),
    {
        let r = ConsumerHeldTracker { held: Vec::new(), last_knob_pulse_ns: None };
        assert(r@.held =~= Seq::empty());
        r
    }
}

impl ConsumerHeldTracker {
    /// Takes in one raw key value at a monotonic time and tells what to report.
    pub fn on_frame(&mut self, key_value: u16, now_ns: u64) -> (r: ConsumerFrame)
        requires
            old(self)@.inv(),
        ensures
            final(self)@.inv(),
            (final(self)@, r@) == consumer_step(old(self)@, key_value, now_ns),
    {
        let ghost before = self@;
        if key_value == 0x0000 {
            let ends_pulse: bool = match self.last_knob_pulse_ns {
                Some(at) => now_ns.saturating_sub(at) <= KNOB_PULSE_TAIL_WINDOW_NS,
                None => false,
            };
            if ends_pulse {
                self.last_knob_pulse_ns = None;
                let r = ConsumerFrame {
                    batches: Vec::new(),
                    cleared: false,
                    counts_as_key_event: false,
                };
                assert(r@.batches =~= Seq::empty());
                return r;
            }
            self.held = Vec::new();
            let mut batches: Vec<Vec<PressedKeyMeta>> = Vec::new();
            let empty: Vec<PressedKeyMeta> = Vec::new();
            assert(key_aggregator::meta_views(empty@) =~= Seq::empty());
            batches.push(empty);
            let r = ConsumerFrame { batches, cleared: true, counts_as_key_event: false };
            assert(r@.batches =~= seq![Seq::<MetaView>::empty()]);
            assert(self@.held =~= Seq::empty());
            return r;
        }
        let key_index: usize = match find_key_index_by_value(key_value) {
            Some(k) => k,
            None => {
                let r = ConsumerFrame {
                    batches: Vec::new(),
                    cleared: false,
                    counts_as_key_event: false,
                };
                assert(r@.batches =~= Seq::empty());
                return r;
            },
        };
        let meta = PressedKeyMeta {
            key_index,
            key_name: get_key_name(key_index).to_string(),
            key_value,
            source: KeySource::Consumer,
        };
        let ghost entry = consumer_entry(key_index, key_value);
        assert(meta@ == entry);
        if is_knob_pulse_key_index(key_index) {
            let mut with_pulse: Vec<PressedKeyMeta> = clone_metas(&self.held);
            with_pulse.push(meta);
            assert(key_aggregator::meta_views(with_pulse@) =~= before.held.push(entry));
            self.last_knob_pulse_ns = Some(now_ns);
            let mut batches: Vec<Vec<PressedKeyMeta>> = Vec::new();
            batches.push(with_pulse);
            batches.push(clone_metas(&self.held));
            let r = ConsumerFrame { batches, cleared: false, counts_as_key_event: true };
            assert(r@.batches =~= seq![before.held.push(entry), before.held]);
            return r;
        }
        let mut known: bool = false;
        let mut i: usize = 0;
        while i < self.held.len()
            invariant
                i <= self.held@.len(),
                self@ == before,
                known == exists|j: int| 0 <= j < i && (#[trigger] before.held[j]).key_index == key_index,
            decreases self.held@.len() - i,
        {
            assert(before.held[i as int].key_index == self.held@[i as int].key_index);
            if self.held[i].key_index == key_index {
                known = true;
            }
            i = i + 1;
        }
        assert(known == key_aggregator::names_key(before.held, key_index));
        if !known {
            self.held.push(meta);
            assert(self@.held =~= before.held.push(entry));
        }
        self.last_knob_pulse_ns = None;
        let mut batches: Vec<Vec<PressedKeyMeta>> = Vec::new();
        batches.push(clone_metas(&self.held));
        let r = ConsumerFrame { batches, cleared: false, counts_as_key_event: true };
        assert(r@.batches =~= seq![self@.held]);
        r
    }

    /// Positions of the keys that are held.
    pub fn held_indices(&self) -> (r: Vec<usize>)
        ensures
            r@ == Seq::new(self@.held.len(), |i: int| self@.held[i].key_index),
    {
        let mut out: Vec<usize> = Vec::with_capacity(self.held.len());
        let mut i: usize = 0;
        while i < self.held.len()
            invariant
                i <= self.held@.len(),
                out@.len() == i,
                forall|j: int| 0 <= j < i ==> #[trigger] out@[j] == self@.held[j].key_index,
            decreases self.held@.len() - i,
        {
            out.push(self.held[i].key_index);
            i = i + 1;
        }
        assert(out@ =~= Seq::new(self@.held.len(), |i: int| self@.held[i].key_index));
        out
    }
}

/// Turning the knob leaves the held keys alone, and every set reported for the turn still names
/// them all.
pub proof fn law_knob_pulse_keeps_every_held_key(s: HeldView, value: u16, now_ns: u64, k: usize)
    requires
        protocol_hid::key_index_of_value(value) matches Some(i) && protocol_hid::is_knob_pulse(i),
        key_aggregator::names_key(s.held, k),
    ensures
        consumer_step(s, value, now_ns).0.held == s.held,
        forall|b: int|
            0 <= b < consumer_step(s, value, now_ns).1.batches.len() ==> key_aggregator::names_key(
                #[trigger] consumer_step(s, value, now_ns).1.batches[b],
                k,
            ),
{
    let i = choose|i: int| 0 <= i < s.held.len() && (#[trigger] s.held[i]).key_index == k;
    let knob = protocol_hid::key_index_of_value(value).unwrap();
    let with_pulse = s.held.push(consumer_entry(knob, value));
    assert(with_pulse[i].key_index == k);
}

/// The zero that ends a pulse reports nothing and leaves the held keys alone; the next zero lets
/// everything go, however soon it comes.
pub proof fn law_one_pulse_swallows_one_zero(s: HeldView, first_ns: u64, second_ns: u64)
    requires
        s.ends_pulse(first_ns),
    ensures
        consumer_step(s, 0, first_ns).0.held == s.held,
        consumer_step(s, 0, first_ns).1 == quiet_frame(),
        consumer_step(consumer_step(s, 0, first_ns).0, 0, second_ns).0.held == Seq::<MetaView>::empty(),
        consumer_step(consumer_step(s, 0, first_ns).0, 0, second_ns).1.cleared,
{
}

/// A zero later than the window after the last pulse lets everything go.
pub proof fn law_a_late_zero_lets_everything_go(s: HeldView, now_ns: u64)
    requires
        s.last_knob_pulse_ns matches Some(at) ==> now_ns - at > KNOB_PULSE_TAIL_WINDOW_NS,
    ensures
        consumer_step(s, 0, now_ns).0.held == Seq::<MetaView>::empty(),
        consumer_step(s, 0, now_ns).1.cleared,
{
}

/// Pressing a key means that the next zero is a release, not the end of an earlier pulse.
pub proof fn law_a_key_press_cancels_the_pulse(
    s: HeldView,
    value: u16,
    now_ns: u64,
    zero_ns: u64,
)
    requires
        protocol_hid::key_index_of_value(value) matches Some(i) && !protocol_hid::is_knob_pulse(i),
    ensures
        consumer_step(consumer_step(s, value, now_ns).0, 0, zero_ns).1.cleared,
{
}

/// A value that belongs to no key changes nothing.
pub proof fn law_an_unknown_value_changes_nothing(s: HeldView, value: u16, now_ns: u64)
    requires
        value != 0,
        protocol_hid::key_index_of_value(value) is None,
    ensures
        consumer_step(s, value, now_ns) == (s, quiet_frame()),
{
}

/// The report of a key that is no knob phase adds that key to those that are held, behind them and
/// once, with the value that was reported; all of them together are reported as down, and it
/// counts as a key event.
pub proof fn law_a_pressed_key_joins_the_held_ones(s: HeldView, value: u16, now_ns: u64, k: usize)
    requires
        value != 0,
        protocol_hid::key_index_of_value(value) == Some(k),
        k > 1,
    ensures
        ({
            let (next, frame) = consumer_step(s, value, now_ns);
            let known = exists|i: int| 0 <= i < s.held.len() && (#[trigger] s.held[i]).key_index == k;
            &&& known ==> next.held == s.held
            &&& !known ==> next.held == s.held.push(
                MetaView {
                    key_index: k,
                    key_name: protocol_hid::key_name(k),
                    key_value: value,
                    source: KeySource::Consumer,
                },
            )
            &&& frame.batches.len() == 1 && frame.batches[0] == next.held
            &&& !frame.cleared && frame.counts_as_key_event
        }),
{
}

/// A turn of the knob is a tap of its phase: the phase goes down beside the keys that are held and
/// up again, in two sets, and it counts as a key event.
pub proof fn law_a_knob_turn_is_a_tap(s: HeldView, value: u16, now_ns: u64, k: usize)
    requires
        value != 0,
        protocol_hid::key_index_of_value(value) == Some(k),
        k <= 1,
    ensures
        ({
            let (next, frame) = consumer_step(s, value, now_ns);
            &&& next.held == s.held
            &&& frame.batches.len() == 2
            &&& frame.batches[0].drop_last() == s.held
            &&& frame.batches[0].len() == s.held.len() + 1
            &&& frame.batches[0].last().key_index == k
            &&& frame.batches[0].last().key_value == value
            &&& frame.batches[1] == s.held
            &&& !frame.cleared && frame.counts_as_key_event
        }),
{
    let (next, frame) = consumer_step(s, value, now_ns);
    assert(frame.batches[0].drop_last() =~= s.held);
}

/// A zero within a tenth of a second of a knob turn ends the turn and changes nothing else,
/// whatever is held and however often unknown values came in between; every other zero is a
/// release of everything.
pub proof fn law_a_zero_ends_a_recent_turn_or_everything(
    s: HeldView,
    turn: u16,
    unknown: u16,
    turn_ns: u64,
    between_ns: u64,
    zero_ns: u64,
)
    requires
        protocol_hid::key_index_of_value(turn) matches Some(k) && k <= 1,
        turn != 0,
        unknown != 0,
        protocol_hid::key_index_of_value(unknown) is None,
    ensures
        ({
            let turned = consumer_step(s, turn, turn_ns).0;
            let after = consumer_step(turned, unknown, between_ns).0;
            let (next, frame) = consumer_step(after, 0, zero_ns);
            let recent = zero_ns - turn_ns <= 100_000_000;
            &&& recent ==> next.held == s.held && frame.batches.len() == 0 && !frame.cleared
                && !frame.counts_as_key_event
            &&& !recent ==> next.held.len() == 0 && frame.cleared && frame.batches.len() == 1
                && frame.batches[0].len() == 0 && !frame.counts_as_key_event
        }),
        s.last_knob_pulse_ns is None ==> consumer_step(s, 0, zero_ns).0.held.len() == 0
            && consumer_step(s, 0, zero_ns).1.cleared,
{
}

} // verus!
