//! Audio over the vendor HID interface: reports are read into a bounded queue and decoded from
//! it. When the queue is full the oldest report goes, and the loss is noted on the report that
//! follows it, apart from what the board itself lost. The queue and the decoder are apart, so that
//! a read never waits for the decoder.

use vstd::prelude::*;
use std::collections::VecDeque;
use crate::kernel::audio::{AudioFrame, AudioFrameView};
use crate::kernel::protocol_hid;
use crate::kernel::protocol_hid::{parse_usb_audio_report, PACKET_SIZE};
use crate::kernel::sink;
use crate::kernel::sink::{EncodedAudioDecoderSink, SinkView};

verus! {

/// Reports that the queue holds.
pub const QUEUE_CAPACITY: usize = 64;

/// A report, and how many were dropped right before it.
#[derive(Debug, Clone, Copy)]
pub struct QueuedReport {
    pub report: [u8; 64],
    pub local_drop_packets: u64,
}

/// The least of a number and the largest 64-bit number.
pub open spec fn saturated(n: int) -> u64 {
    if n > u64::MAX {
        u64::MAX
    } else {
        n as u64
    }
}

/// The queue without its oldest report, whose loss is noted on the next one.
pub open spec fn drop_oldest(q: Seq<QueuedReport>) -> Seq<QueuedReport> {
    let rest = q.subrange(1, q.len() as int);
    if rest.len() == 0 {
        rest
    } else {
        rest.update(
            0,
            QueuedReport {
                report: rest[0].report,
                local_drop_packets: saturated(
                    rest[0].local_drop_packets + q[0].local_drop_packets + 1,
                ),
            },
        )
    }
}

/// The queue after a report was read.
pub open spec fn enqueued(q: Seq<QueuedReport>, report: [u8; 64]) -> Seq<QueuedReport> {
    let room = if q.len() >= QUEUE_CAPACITY {
        drop_oldest(q)
    } else {
        q
    };
    room.push(QueuedReport { report, local_drop_packets: 0 })
}

/// Reports that the queue accounts for: those that it holds and those noted as dropped.
pub open spec fn accounted(q: Seq<QueuedReport>) -> int
    decreases q.len(),
{
    if q.len() == 0 {
        0
    } else {
        1 + q[0].local_drop_packets + accounted(q.subrange(1, q.len() as int))
    }
}

/// Outcome of a read of the audio interface.
pub enum AudioRead {
    /// Bytes read into a report buffer; 0 when nothing came.
    Report([u8; 64], usize),
    /// The read failed.
    Failed,
}

/// What a report gave.
pub enum DecodeStep {
    /// The report held no audio packet.
    Malformed,
    /// The report was decoded; a frame to deliver, if there is one.
    Decoded(Option<AudioFrame>),
}

/// The reader of one connection.
pub struct UsbVendorAudioReader {
    running: bool,
    queue: VecDeque<QueuedReport>,
    short_reads: u64,
}

/// Mathematical form of the reader.
pub struct ReaderView {
    pub running: bool,
    pub queue: Seq<QueuedReport>,
    pub short_reads: u64,
}

impl View for UsbVendorAudioReader {
    type V = ReaderView;

    closed spec fn view(&self) -> ReaderView {
        ReaderView { running: self.running, queue: self.queue@, short_reads: self.short_reads }
    }
}

/// The decoder of one connection's reports.
pub struct ReportDecoder {
    sink: EncodedAudioDecoderSink,
    parse_failures: u64,
}

/// Mathematical form of the decoder.
pub struct DecoderView {
    pub sink: SinkView,
    pub parse_failures: u64,
}

impl View for ReportDecoder {
    type V = DecoderView;

    closed spec fn view(&self) -> DecoderView {
        DecoderView { sink: self.sink@, parse_failures: self.parse_failures }
    }
}

/// The read brought a report that is not complete.
pub open spec fn is_short_read(read: AudioRead) -> bool {
    read matches AudioRead::Report(_, len) && len != 0 && len != PACKET_SIZE
}

/// The reader after a read of the interface. Only complete reports are queued.
pub open spec fn after_audio_read(r: ReaderView, read: AudioRead) -> ReaderView {
    match read {
        AudioRead::Report(report, len) => if len == PACKET_SIZE {
            ReaderView { queue: enqueued(r.queue, report), ..r }
        } else if len == 0 {
            r
        } else {
            ReaderView { short_reads: saturated(r.short_reads + 1), ..r }
        },
        AudioRead::Failed => ReaderView { running: false, ..r },
    }
}

/// The reader after the oldest report was taken off the queue, and that report.
pub open spec fn after_taking(r: ReaderView) -> (ReaderView, Option<QueuedReport>) {
    if r.queue.len() == 0 {
        (r, None)
    } else {
        (
            ReaderView { queue: r.queue.subrange(1, r.queue.len() as int), ..r },
            Some(r.queue[0]),
        )
    }
}

/// Mathematical form of a decode step: nothing for a malformed report, or what the report gave.
pub open spec fn decode_view(step: DecodeStep) -> Option<Option<AudioFrameView>> {
    match step {
        DecodeStep::Malformed => None,
        DecodeStep::Decoded(Some(f)) => Some(Some(f@)),
        DecodeStep::Decoded(None) => Some(None),
    }
}

/// The decoder and the decode step after a report.
pub open spec fn after_decode(d: DecoderView, queued: QueuedReport, now_ns: u64) -> (
    DecoderView,
    Option<Option<AudioFrameView>>,
) {
    match protocol_hid::usb_audio_packet(queued.report@) {
        Some(packet) => {
            let (next, frame) = sink::sink_step(
                d.sink,
                packet,
                queued.local_drop_packets,
                now_ns,
            );
            (DecoderView { sink: next, ..d }, Some(frame))
        },
        None => (
            DecoderView { parse_failures: saturated(d.parse_failures + 1), ..d },
            None,
        ),
    }
}

impl UsbVendorAudioReader {
    /// The queue keeps to its capacity.
    pub closed spec fn inv(&self) -> bool {
        self.queue@.len() <= QUEUE_CAPACITY
    }

    /// A reader for a connection, running, with nothing queued, and the decoder of its reports.
    pub fn start(connection_epoch: u64) -> (r: (Self, ReportDecoder))
        ensures
            r.0.inv(),
            r.0@ == (ReaderView { running: true, queue: Seq::empty(), short_reads: 0 }),
            r.1.inv(),
            r.1@ == (DecoderView {
                sink: SinkView {
                    synthesis: crate::kernel::msbc::initial_state(),
                    last_sequence: None,
                    connection_epoch,
                },
                parse_failures: 0,
            }),
    {
        (
            UsbVendorAudioReader {
                running: true,
                queue: VecDeque::with_capacity(QUEUE_CAPACITY),
                short_reads: 0,
            },
            ReportDecoder { sink: EncodedAudioDecoderSink::new(connection_epoch), parse_failures: 0 },
        )
    }

    /// Stops the reader.
    pub fn stop(&mut self)
        requires
            old(self).inv(),
        ensures
            final(self).inv(),
            final(self)@ == (ReaderView { running: false, ..old(self)@ }),
    {
        self.running = false;
    }

    /// The reader runs.
    pub fn is_running(&self) -> (r: bool)
        ensures
            r == self@.running,
    {
        self.running
    }

    /// Reports that wait for the decoder.
    pub fn queued(&self) -> (r: usize)
        requires
            self.inv(),
        ensures
            r == self@.queue.len(),
            r <= QUEUE_CAPACITY,
    {
        self.queue.len()
    }

    /// Incomplete reports that were read so far.
    pub fn short_reads(&self) -> (r: u64)
        ensures
            r == self@.short_reads,
    {
        self.short_reads
    }

    fn enqueue(&mut self, report: [u8; 64])
        requires
            old(self).inv(),
        ensures
            final(self).inv(),
            final(self)@ == (ReaderView { queue: enqueued(old(self)@.queue, report), ..old(self)@ }),
    {
        let ghost before = self.queue@;
        if self.queue.len() >= QUEUE_CAPACITY {
            match self.queue.pop_front() {
                Some(dropped) => {
                    match self.queue.pop_front() {
                        Some(next) => {
                            self.queue.push_front(
                                QueuedReport {
                                    report: next.report,
                                    local_drop_packets: next.local_drop_packets.saturating_add(
                                        dropped.local_drop_packets,
                                    ).saturating_add(1),
                                },
                            );
                        },
                        None => {},
                    }
                },
                None => {},
            }
            assert(self.queue@ =~= drop_oldest(before));
        }
        self.queue.push_back(QueuedReport { report, local_drop_packets: 0 });
    }

    /// Takes in a read of the interface.
    pub fn on_read(&mut self, read: AudioRead)
        requires
            old(self).inv(),
        ensures
            final(self).inv(),
            final(self)@ == after_audio_read(old(self)@, read),
    {
        match read {
            AudioRead::Report(report, len) => {
                if len == PACKET_SIZE {
                    self.enqueue(report);
                } else if len != 0 {
                    self.short_reads = self.short_reads.saturating_add(1);
                }
            },
            AudioRead::Failed => {
                self.running = false;
            },
        }
    }

    /// Takes the oldest report off the queue.
    pub fn next_report(&mut self) -> (r: Option<QueuedReport>)
        requires
            old(self).inv(),
        ensures
            final(self).inv(),
            (final(self)@, r) == after_taking(old(self)@),
    {
        let ghost before = self.queue@;
        let r = self.queue.pop_front();
        if r.is_some() {
            assert(self.queue@ =~= before.subrange(1, before.len() as int));
        }
        r
    }
}

impl ReportDecoder {
    /// The decoder of the samples is sound.
    pub closed spec fn inv(&self) -> bool {
        self.sink.inv()
    }

    /// Reports without an audio packet that were decoded so far.
    pub fn parse_failures(&self) -> (r: u64)
        ensures
            r == self@.parse_failures,
    {
        self.parse_failures
    }

    /// Decodes a report.
    pub fn decode(&mut self, queued: &QueuedReport, captured_at_ns: u64) -> (r: DecodeStep)
        requires
            old(self).inv(),
        ensures
            final(self).inv(),
            (final(self)@, decode_view(r)) == after_decode(old(self)@, *queued, captured_at_ns),
    {
        match parse_usb_audio_report(&queued.report) {
            Some(packet) => {
                let frame = self.sink.on_packet(packet, queued.local_drop_packets, captured_at_ns);
                DecodeStep::Decoded(frame)
            },
            None => {
                self.parse_failures = self.parse_failures.saturating_add(1);
                DecodeStep::Malformed
            },
        }
    }
}

/// A warning is due for the `count`-th fault: the first three, then every hundredth.
pub open spec fn warning_due(count: int) -> bool {
    count <= 3 || count % 100 == 0
}

/// Tells whether a warning is due for the `count`-th fault.
pub fn is_fault_reported(count: u64) -> (r: bool)
    ensures
        r == warning_due(count as int),
{
    count <= 3 || count % 100 == 0
}

proof fn lemma_accounted_push(q: Seq<QueuedReport>, x: QueuedReport)
    ensures
        accounted(q.push(x)) == accounted(q) + 1 + x.local_drop_packets,
    decreases q.len(),
{
    if q.len() == 0 {
        assert(q.push(x).subrange(1, 1) =~= Seq::<QueuedReport>::empty());
        assert(accounted(q.push(x).subrange(1, 1)) == 0);
    } else {
        let rest = q.subrange(1, q.len() as int);
        lemma_accounted_push(rest, x);
        assert(q.push(x).subrange(1, (q.len() + 1) as int) =~= rest.push(x));
    }
}

proof fn lemma_accounted_at_least_len(q: Seq<QueuedReport>)
    ensures
        accounted(q) >= q.len(),
    decreases q.len(),
{
    if q.len() > 0 {
        lemma_accounted_at_least_len(q.subrange(1, q.len() as int));
    }
}

/// No report vanishes from the accounts: each report that is read raises the number of reports
/// held or noted as dropped by exactly one, whether or not an old one had to go.
pub proof fn law_every_report_is_accounted_for(q: Seq<QueuedReport>, report: [u8; 64])
    requires
        accounted(q) <= u64::MAX,
    ensures
        accounted(enqueued(q, report)) == accounted(q) + 1,
        q.len() <= QUEUE_CAPACITY ==> enqueued(q, report).len() <= QUEUE_CAPACITY,
{
    let room = if q.len() >= QUEUE_CAPACITY {
        drop_oldest(q)
    } else {
        q
    };
    lemma_accounted_push(room, QueuedReport { report, local_drop_packets: 0 });
    if q.len() >= QUEUE_CAPACITY {
        let rest = q.subrange(1, q.len() as int);
        let tail = rest.subrange(1, rest.len() as int);
        assert(room.subrange(1, room.len() as int) =~= tail);
        lemma_accounted_at_least_len(tail);
        assert(accounted(q) == 1 + q[0].local_drop_packets + accounted(rest));
        assert(accounted(rest) == 1 + rest[0].local_drop_packets + accounted(tail));
        assert(accounted(room) == 1 + room[0].local_drop_packets + accounted(tail));
    }
}

/// The reader after several reads, the oldest first.
pub open spec fn after_audio_reads(r: ReaderView, reads: Seq<AudioRead>) -> ReaderView
    decreases reads.len(),
{
    if reads.len() == 0 {
        r
    } else {
        after_audio_read(after_audio_reads(r, reads.drop_last()), reads.last())
    }
}

/// How many of the reads were short.
pub open spec fn short_reads_in(reads: Seq<AudioRead>) -> nat
    decreases reads.len(),
{
    if reads.len() == 0 {
        0
    } else {
        short_reads_in(reads.drop_last()) + if is_short_read(reads.last()) {
            1nat
        } else {
            0nat
        }
    }
}

/// The decoder after several reports, each with the time at which it was decoded.
pub open spec fn after_decodes(d: DecoderView, reports: Seq<(QueuedReport, u64)>) -> DecoderView
    decreases reports.len(),
{
    if reports.len() == 0 {
        d
    } else {
        after_decode(
            after_decodes(d, reports.drop_last()),
            reports.last().0,
            reports.last().1,
        ).0
    }
}

/// How many of the reports hold no audio packet.
pub open spec fn malformed_in(reports: Seq<(QueuedReport, u64)>) -> nat
    decreases reports.len(),
{
    if reports.len() == 0 {
        0
    } else {
        malformed_in(reports.drop_last()) + if protocol_hid::usb_audio_packet(
            reports.last().0.report@,
        ) is None {
            1nat
        } else {
            0nat
        }
    }
}

/// The count of short reads is exact, so a short read is warned of by its number on the
/// connection: the first three, then every hundredth.
pub proof fn law_short_reads_are_warned_of_sparingly(
    r: ReaderView,
    reads: Seq<AudioRead>,
    read: AudioRead,
)
    requires
        r.short_reads == 0,
        is_short_read(read),
        short_reads_in(reads) < u64::MAX,
    ensures
        after_audio_reads(r, reads.push(read)).short_reads == short_reads_in(reads) + 1,
        warning_due(after_audio_reads(r, reads.push(read)).short_reads as int) <==> (short_reads_in(
            reads,
        ) < 3 || (short_reads_in(reads) + 1) % 100 == 0),
{
    lemma_short_reads_counted(r, reads);
    assert(reads.push(read).drop_last() =~= reads);
}

proof fn lemma_short_reads_counted(r: ReaderView, reads: Seq<AudioRead>)
    requires
        r.short_reads == 0,
        short_reads_in(reads) <= u64::MAX,
    ensures
        after_audio_reads(r, reads).short_reads == short_reads_in(reads),
    decreases reads.len(),
{
    if reads.len() > 0 {
        lemma_short_reads_counted(r, reads.drop_last());
    }
}

/// The count of malformed reports is exact, so one is warned of by its number on the connection:
/// the first three, then every hundredth.
pub proof fn law_malformed_reports_are_warned_of_sparingly(
    d: DecoderView,
    reports: Seq<(QueuedReport, u64)>,
    report: QueuedReport,
    now_ns: u64,
)
    requires
        d.parse_failures == 0,
        protocol_hid::usb_audio_packet(report.report@) is None,
        malformed_in(reports) < u64::MAX,
    ensures
        after_decodes(d, reports.push((report, now_ns))).parse_failures == malformed_in(reports) + 1,
        warning_due(after_decodes(d, reports.push((report, now_ns))).parse_failures as int) <==> (
        malformed_in(reports) < 3 || (malformed_in(reports) + 1) % 100 == 0),
{
    lemma_malformed_counted(d, reports);
    assert(reports.push((report, now_ns)).drop_last() =~= reports);
}

proof fn lemma_malformed_counted(d: DecoderView, reports: Seq<(QueuedReport, u64)>)
    requires
        d.parse_failures == 0,
        malformed_in(reports) <= u64::MAX,
    ensures
        after_decodes(d, reports).parse_failures == malformed_in(reports),
    decreases reports.len(),
{
    if reports.len() > 0 {
        lemma_malformed_counted(d, reports.drop_last());
    }
}

/// Reports leave the queue in the order they were read, and a report that was read while there
/// was room carries no loss.
pub proof fn law_reports_keep_their_order(q: Seq<QueuedReport>, report: [u8; 64])
    requires
        q.len() <= QUEUE_CAPACITY,
    ensures
        ({
            let next = enqueued(q, report);
            &&& next.last() == (QueuedReport { report, local_drop_packets: 0 })
            &&& q.len() < QUEUE_CAPACITY ==> next.drop_last() == q
            &&& q.len() == QUEUE_CAPACITY ==> forall|i: int|
                0 <= i < QUEUE_CAPACITY - 1 ==> (#[trigger] next[i]).report == q[i + 1].report
        }),
{
    let next = enqueued(q, report);
    if q.len() < QUEUE_CAPACITY {
        assert(next.drop_last() =~= q);
    }
}

/// A complete report of 64 bytes is queued, an empty read changes nothing, a read of any other
/// length is only counted, and a failed read stops the reader and keeps what is queued.
pub proof fn law_only_complete_reports_are_queued(r: ReaderView, report: [u8; 64], len: usize)
    ensures
        ({
            let n = after_audio_read(r, AudioRead::Report(report, len));
            &&& n.running == r.running
            &&& len != 64 ==> n.queue == r.queue
            &&& len == 0 || len == 64 ==> n.short_reads == r.short_reads
            &&& len != 0 && len != 64 ==> n.short_reads == (if r.short_reads == u64::MAX {
                u64::MAX as int
            } else {
                r.short_reads + 1
            })
            &&& len == 64 && r.queue.len() < 64 ==> n.queue == r.queue.push(
                QueuedReport { report, local_drop_packets: 0 },
            )
            &&& len == 64 && r.queue.len() == 64 ==> n.queue.len() == 64 && n.queue[63] == (
            QueuedReport { report, local_drop_packets: 0 })
        }),
        after_audio_read(r, AudioRead::Failed) == (ReaderView { running: false, ..r }),
{
}

/// A report that comes while the queue is full pushes out the oldest one. What was noted on that
/// one and the report itself are added to the losses before the next one, and all the others stay
/// as they were.
pub proof fn law_a_full_queue_gives_up_its_oldest_report(
    r: ReaderView,
    report: [u8; 64],
    i: int,
)
    requires
        r.queue.len() == 64,
        1 <= i < 63,
    ensures
        ({
            let n = after_audio_read(r, AudioRead::Report(report, 64));
            &&& n.queue[0].report == r.queue[1].report
            &&& r.queue[0].local_drop_packets + r.queue[1].local_drop_packets < u64::MAX
                ==> n.queue[0].local_drop_packets == r.queue[0].local_drop_packets
                + r.queue[1].local_drop_packets + 1
            &&& r.queue[0].local_drop_packets + r.queue[1].local_drop_packets >= u64::MAX
                ==> n.queue[0].local_drop_packets == u64::MAX
            &&& n.queue[i] == r.queue[i + 1]
        }),
{
}

/// The oldest report is taken, and the others stay in order; an empty queue gives nothing and
/// stays.
pub proof fn law_the_oldest_report_is_taken(r: ReaderView)
    ensures
        r.queue.len() == 0 ==> after_taking(r) == (r, None::<QueuedReport>),
        r.queue.len() > 0 ==> ({
            let (n, taken) = after_taking(r);
            &&& taken == Some(r.queue[0])
            &&& n.queue.len() == r.queue.len() - 1
            &&& forall|i: int| 0 <= i < n.queue.len() ==> #[trigger] n.queue[i] == r.queue[i + 1]
            &&& n.running == r.running && n.short_reads == r.short_reads
        }),
{
}

/// A report with an audio packet goes to the sink with the losses noted on it and the time of its
/// capture; one without is counted and leaves the sink alone.
pub proof fn law_a_report_is_decoded_or_counted(d: DecoderView, queued: QueuedReport, now_ns: u64)
    ensures
        ({
            let (n, step) = after_decode(d, queued, now_ns);
            let found = protocol_hid::usb_audio_packet(queued.report@);
            &&& (found matches Some(packet) ==> ({
                let (next, frame) = sink::sink_step(
                    d.sink,
                    packet,
                    queued.local_drop_packets,
                    now_ns,
                );
                n.sink == next && step == Some(frame) && n.parse_failures == d.parse_failures
            }))
            &&& found is None ==> step is None && n.sink == d.sink && n.parse_failures == (
            if d.parse_failures == u64::MAX {
                u64::MAX as int
            } else {
                d.parse_failures + 1
            })
        }),
{
}

/// Of the faults of a kind the first three are warned of, and then one in a hundred.
pub proof fn law_warnings_are_rare(count: int)
    requires
        count > 3,
    ensures
        warning_due(1) && warning_due(2) && warning_due(3),
        warning_due(count) <==> count % 100 == 0,
        warning_due(count) ==> forall|k: int| count < k < count + 100 ==> !warning_due(k),
{
}

/// A decode step is seen as it is: a malformed report as nothing, and a decoded one with its frame.
pub proof fn law_a_decode_step_is_seen_as_it_is(frame: AudioFrame)
    ensures
        decode_view(DecodeStep::Malformed) is None,
        decode_view(DecodeStep::Decoded(None)) == Some(None::<AudioFrameView>),
        decode_view(DecodeStep::Decoded(Some(frame))) == Some(Some(frame@)),
{
}

} // verus!
