//! Decodes audio packets and accounts for lost audio.

use vstd::prelude::*;
use super::audio;
use super::audio::{
    AudioFrame, AudioFrameView, EncodedAudioPacket, PacketView, SequenceDisposition,
    SequenceTracker,
};
use super::msbc;
use super::msbc::synthesis::SynthesisState;
use super::msbc::{MsbcDecoder, MSBC_FRAME_SIZE, MSBC_SAMPLE_RATE};

verus! {

/// Bytes of one sample as it is handed to the host, a 32-bit float.
pub const HOST_SAMPLE_BYTES: u64 = 4;

/// Counts frames and bytes without looking at them. The counters wrap.
pub struct CountingSink {
    pub frames: u64,
    pub bytes: u64,
}

/// The counters of `before` after `samples` samples more.
pub open spec fn counted(before: CountingSink, samples: nat) -> CountingSink {
    CountingSink {
        frames: before.frames.wrapping_add(1),
        bytes: before.bytes.wrapping_add((samples as u64).wrapping_mul(HOST_SAMPLE_BYTES)),
    }
}

impl Default for CountingSink {
    fn default() -> (r: Self)
        ensures
            r == (CountingSink { frames: 0, bytes: 0 }),
    {
        CountingSink::new()
    }
}

impl CountingSink {
    /// Both counters at zero.
    pub fn new() -> (r: Self)
        ensures
            r == (CountingSink { frames: 0, bytes: 0 }),
    {
        CountingSink { frames: 0, bytes: 0 }
    }

    /// Frames so far.
    pub fn frame_count(&self) -> (r: u64)
        ensures
            r == self.frames,
    {
        self.frames
    }

    /// Bytes so far.
    pub fn byte_count(&self) -> (r: u64)
        ensures
            r == self.bytes,
    {
        self.bytes
    }

    /// Counts a run of samples as one frame.
    pub fn on_pcm(&mut self, samples: &[i16])
        ensures
            *final(self) == counted(*old(self), samples@.len()),
    {
        self.frames = self.frames.wrapping_add(1);
        self.bytes = self.bytes.wrapping_add((samples.len() as u64).wrapping_mul(HOST_SAMPLE_BYTES));
    }

    /// Counts a decoded frame.
    pub fn on_audio_frame(&mut self, frame: &AudioFrame)
        ensures
            *final(self) == counted(*old(self), frame.pcm@.len()),
    {
        self.on_pcm(frame.pcm.as_slice());
    }
}

/// Chunk `i` of a payload, in encoded frames.
pub open spec fn encoded_frame(payload: Seq<u8>, i: int) -> Seq<u8> {
    payload.subrange(57 * i, 57 * i + 57)
}

/// Filterbank memory, samples and number of undecodable frames after the first `n` whole frames
/// of a payload. A bad frame costs only itself.
pub open spec fn decoded_payload(s: SynthesisState, payload: Seq<u8>, n: int) -> (
    SynthesisState,
    Seq<i16>,
    nat,
)
    decreases n,
{
    if n <= 0 {
        (s, Seq::empty(), 0)
    } else {
        let (prior, samples, bad) = decoded_payload(s, payload, n - 1);
        let frame = encoded_frame(payload, n - 1);
        if msbc::is_msbc_frame(frame) {
            let (next, more) = msbc::decoded_blocks(prior, frame, 15);
            (next, samples + more, bad)
        } else {
            (prior, samples, bad + 1)
        }
    }
}

/// Packets that the sequence says are missing.
pub open spec fn missing_packets(d: SequenceDisposition) -> int {
    match d {
        SequenceDisposition::Gap { missing } => missing as int,
        _ => 0,
    }
}

/// Missing packets that were lost on this side. Local losses are part of a later jump in the
/// sequence, so the jump bounds them; without a sequence they count as they are.
pub open spec fn local_missing(packet: PacketView, d: SequenceDisposition, local_drops: u64) -> int {
    if packet.sequence is Some && local_drops > missing_packets(d) {
        missing_packets(d)
    } else {
        local_drops as int
    }
}

/// `x`, but at most `limit`.
pub open spec fn capped(x: int, limit: int) -> int {
    if x < limit {
        x
    } else {
        limit
    }
}

/// Frames lost on the wire before the packet.
pub open spec fn wire_gap_frames(packet: PacketView, d: SequenceDisposition, local_drops: u64) -> int {
    let wire = missing_packets(d) - local_missing(packet, d, local_drops);
    if wire <= 0 {
        0
    } else {
        capped(wire * (packet.payload.len() as int / 57), u16::MAX as int)
    }
}

/// Frames lost on this side: dropped packets before this one, and frames of this one that could
/// not be decoded, an incomplete one at the end among them.
pub open spec fn local_drop_frames(
    packet: PacketView,
    d: SequenceDisposition,
    local_drops: u64,
    bad: nat,
) -> int {
    let dropped = capped(
        local_missing(packet, d, local_drops) * (packet.payload.len() as int / 57),
        u64::MAX as int,
    );
    let tail: int = if packet.payload.len() % 57 != 0 {
        1
    } else {
        0
    };
    capped(dropped + bad + tail, u64::MAX as int)
}

/// Mathematical form of the decoder sink.
pub struct SinkView {
    pub synthesis: SynthesisState,
    pub last_sequence: Option<u16>,
    pub connection_epoch: u64,
}

/// Disposition of a packet against the number that the sink remembers.
pub open spec fn disposition_of(s: SinkView, packet: PacketView) -> SequenceDisposition {
    match packet.sequence {
        Some(sequence) => audio::disposition_after(
            if packet.device_discontinuity {
                None
            } else {
                s.last_sequence
            },
            sequence,
        ),
        None => SequenceDisposition::First,
    }
}

/// Sink and delivered frame after a packet. A break announced by the board makes its sequence
/// start anew; a repeated or late packet is dropped whole; a packet without a decodable frame
/// delivers nothing.
pub open spec fn sink_step(s: SinkView, packet: PacketView, local_drops: u64, now_ns: u64) -> (
    SinkView,
    Option<AudioFrameView>,
) {
    let last = if packet.device_discontinuity {
        None
    } else {
        s.last_sequence
    };
    let d = disposition_of(s, packet);
    let next_last = match packet.sequence {
        Some(sequence) => if audio::is_fresh(d) {
            Some(sequence)
        } else {
            last
        },
        None => last,
    };
    if !audio::is_fresh(d) {
        (
            SinkView {
                synthesis: s.synthesis,
                last_sequence: next_last,
                connection_epoch: s.connection_epoch,
            },
            None,
        )
    } else {
        let (synthesis, pcm, bad) = decoded_payload(
            s.synthesis,
            packet.payload,
            packet.payload.len() as int / 57,
        );
        let next = SinkView {
            synthesis,
            last_sequence: next_last,
            connection_epoch: s.connection_epoch,
        };
        if pcm.len() == 0 {
            (next, None)
        } else {
            (
                next,
                Some(
                    AudioFrameView {
                        pcm,
                        sample_rate: MSBC_SAMPLE_RATE,
                        channels: 1,
                        transport: packet.transport,
                        connection_epoch: s.connection_epoch,
                        sequence: packet.sequence,
                        captured_at_ns: now_ns,
                        device_discontinuity: packet.device_discontinuity,
                        sequence_gap_frames: wire_gap_frames(packet, d, local_drops) as u16,
                        local_drop_frames: local_drop_frames(packet, d, local_drops, bad) as u64,
                    },
                ),
            )
        }
    }
}

/// Decodes packets of one connection to frames with their loss accounts.
pub struct EncodedAudioDecoderSink {
    decoder: MsbcDecoder,
    sequence: SequenceTracker,
    connection_epoch: u64,
}

impl View for EncodedAudioDecoderSink {
    type V = SinkView;

    closed spec fn view(&self) -> SinkView {
        SinkView {
            synthesis: self.decoder@,
            last_sequence: self.sequence.last,
            connection_epoch: self.connection_epoch,
        }
    }
}

/// `x * y`, but at most `u64::MAX`.
fn saturating_product(x: u64, y: u64) -> (r: u64)
    ensures
        r == capped(x * y, u64::MAX as int),
{
    match x.checked_mul(y) {
        Some(v) => v,
        None => u64::MAX,
    }
}

impl EncodedAudioDecoderSink {
    pub closed spec fn inv(&self) -> bool {
        self.decoder.inv()
    }

    /// A fresh decoder for a connection.
    pub fn new(connection_epoch: u64) -> (r: Self)
        ensures
            r.inv(),
            r@ == (SinkView {
                synthesis: msbc::initial_state(),
                last_sequence: None,
                connection_epoch,
            }),
    {
        EncodedAudioDecoderSink {
            decoder: MsbcDecoder::new(),
            sequence: SequenceTracker::default(),
            connection_epoch,
        }
    }

    /// Makes the sequence start anew.
    pub fn reset_sequence(&mut self)
        requires
            old(self).inv(),
        ensures
            final(self).inv(),
            final(self)@ == (SinkView {
                synthesis: old(self)@.synthesis,
                last_sequence: None,
                connection_epoch: old(self)@.connection_epoch,
            }),
    {
        self.sequence.reset();
    }

    /// Takes in a packet, with the number of packets dropped on this side before it, and returns
    /// the frame to deliver, if any.
    pub fn on_packet(
        &mut self,
        packet: EncodedAudioPacket<'_>,
        local_drop_packets: u64,
        captured_at_ns: u64,
    ) -> (r: Option<AudioFrame>)
        requires
            old(self).inv(),
        ensures
            final(self).inv(),
            final(self)@ == sink_step(old(self)@, packet@, local_drop_packets, captured_at_ns).0,
            match r {
                Some(f) => sink_step(old(self)@, packet@, local_drop_packets, captured_at_ns).1
                    == Some(f@),
                None => sink_step(
                    old(self)@,
                    packet@,
                    local_drop_packets,
                    captured_at_ns,
                ).1 is None,
            },
    {
        if packet.device_discontinuity {
            self.sequence.reset();
        }
        let disposition: SequenceDisposition = match packet.sequence {
            Some(sequence) => self.sequence.observe(sequence),
            None => SequenceDisposition::First,
        };
        match disposition {
            SequenceDisposition::Duplicate => {
                return None;
            },
            SequenceDisposition::OutOfOrder => {
                return None;
            },
            _ => {},
        }
        let payload_len: usize = packet.payload.len();
        let whole_frames: usize = payload_len / MSBC_FRAME_SIZE;
        let packet_frames: u64 = whole_frames as u64;
        let sequence_missing: u64 = match disposition {
            SequenceDisposition::Gap { missing } => missing as u64,
            _ => 0,
        };
        let local_missing_packets: u64 = if packet.sequence.is_some() && local_drop_packets
            > sequence_missing {
            sequence_missing
        } else {
            local_drop_packets
        };
        let wire_missing: u64 = sequence_missing.saturating_sub(local_missing_packets);
        let wire_frames: u64 = saturating_product(wire_missing, packet_frames);
        let sequence_gap_frames: u16 = if wire_frames < 65535 { wire_frames as u16 } else { 65535 };
        let dropped_before: u64 = saturating_product(local_missing_packets, packet_frames);
        proof {
            assert(0 * packet_frames == 0);
        }
        let ghost start = self.decoder@;
        let mut pcm: Vec<i16> = Vec::new();
        let mut bad_frames: u64 = 0;
        let mut i: usize = 0;
        while i < whole_frames
            invariant
                i <= whole_frames,
                payload_len == packet.payload@.len(),
                whole_frames == payload_len / 57,
                self.decoder.inv(),
                bad_frames <= i,
                self.decoder@ == decoded_payload(start, packet.payload@, i as int).0,
                pcm@ == decoded_payload(start, packet.payload@, i as int).1,
                bad_frames == decoded_payload(start, packet.payload@, i as int).2,
                self.connection_epoch == old(self).connection_epoch,
                self.sequence.last == sink_step(
                    old(self)@,
                    packet@,
                    local_drop_packets,
                    captured_at_ns,
                ).0.last_sequence,
            decreases whole_frames - i,
        {
            let encoded: &[u8] = &packet.payload[57 * i..57 * i + 57];
            assert(encoded@ == encoded_frame(packet.payload@, i as int));
            match self.decoder.decode_frame(encoded) {
                Ok(samples) => {
                    let ghost before = pcm@;
                    let mut k: usize = 0;
                    while k < samples.len()
                        invariant
                            k <= samples@.len(),
                            pcm@ == before + samples@.subrange(0, k as int),
                        decreases samples@.len() - k,
                    {
                        pcm.push(samples[k]);
                        assert(samples@.subrange(0, k + 1) =~= samples@.subrange(0, k as int).push(
                            samples@[k as int],
                        ));
                        k = k + 1;
                    }
                    assert(samples@.subrange(0, samples@.len() as int) =~= samples@);
                },
                Err(_) => {
                    bad_frames = bad_frames + 1;
                },
            }
            i = i + 1;
        }
        if pcm.len() == 0 {
            return None;
        }
        if payload_len % MSBC_FRAME_SIZE != 0 {
            bad_frames = bad_frames + 1;
        }
        let local_drop_frames: u64 = dropped_before.saturating_add(bad_frames);
        Some(
            AudioFrame {
                pcm,
                sample_rate: MSBC_SAMPLE_RATE,
                channels: 1,
                transport: packet.transport,
                connection_epoch: self.connection_epoch,
                sequence: packet.sequence,
                captured_at_ns,
                device_discontinuity: packet.device_discontinuity,
                sequence_gap_frames,
                local_drop_frames,
            },
        )
    }
}

/// A break announced by the board never makes its packet count as late: its audio is taken,
/// whatever number came before.
pub proof fn law_a_device_break_restarts_the_sequence(
    s: SinkView,
    packet: PacketView,
    sequence: u16,
    local_drops: u64,
    now_ns: u64,
)
    requires
        packet.device_discontinuity,
        packet.sequence == Some(sequence),
    ensures
        sink_step(s, packet, local_drops, now_ns).0.last_sequence == Some(sequence),
        sink_step(s, packet, local_drops, now_ns).0.synthesis == decoded_payload(
            s.synthesis,
            packet.payload,
            packet.payload.len() as int / 57,
        ).0,
{
}

/// A jump in the sequence is split between local and wire loss without counting a packet twice:
/// for a sequenced packet the two parts add up to the jump.
pub proof fn law_a_jump_is_split_not_doubled(
    packet: PacketView,
    d: SequenceDisposition,
    local_drops: u64,
)
    requires
        packet.sequence is Some,
    ensures
        0 <= local_missing(packet, d, local_drops) <= missing_packets(d),
        local_missing(packet, d, local_drops) <= local_drops,
        missing_packets(d) - local_missing(packet, d, local_drops) >= 0,
{
}

/// A whole frame decodes whatever stands beside it: the samples of a payload are those of its
/// good frames, 120 each.
pub proof fn law_good_frames_survive_bad_neighbours(s: SynthesisState, payload: Seq<u8>, n: int)
    requires
        0 <= n,
        57 * n <= payload.len(),
    ensures
        decoded_payload(s, payload, n).1.len() == 120 * (n - decoded_payload(s, payload, n).2),
    decreases n,
{
    if n > 0 {
        law_good_frames_survive_bad_neighbours(s, payload, n - 1);
        let prior = decoded_payload(s, payload, n - 1).0;
        lemma_blocks_len(prior, encoded_frame(payload, n - 1), 15);
    }
}

/// A delivered frame says that audio is missing exactly when some is: the board announced a
/// break, the sequence jumped, packets without a sequence were dropped on this side, or a frame
/// of the packet itself could not be decoded or came incomplete.
pub proof fn law_missing_audio_is_reported(
    s: SinkView,
    packet: PacketView,
    local_drops: u64,
    now_ns: u64,
)
    requires
        packet.payload.len() <= usize::MAX,
    ensures
        sink_step(s, packet, local_drops, now_ns).1 matches Some(f) ==> (f.is_discontinuous()
            <==> packet.device_discontinuity || missing_packets(disposition_of(s, packet)) > 0 || packet.sequence is None && local_drops > 0 || decoded_payload(
            s.synthesis,
            packet.payload,
            packet.payload.len() as int / 57,
        ).2 > 0 || packet.payload.len() % 57 != 0),
{
    let d = disposition_of(s, packet);
    let n = packet.payload.len() as int / 57;
    let bad = decoded_payload(s.synthesis, packet.payload, n).2;
    if sink_step(s, packet, local_drops, now_ns).1 is Some {
        if n <= 0 {
            assert(decoded_payload(s.synthesis, packet.payload, n).1.len() == 0);
        }
        assert(n >= 1);
        let local = local_missing(packet, d, local_drops);
        let wire = missing_packets(d) - local;
        assert(local * n >= local) by (nonlinear_arith)
            requires
                local >= 0,
                n >= 1,
        ;
        assert(local == 0 ==> local * n == 0) by (nonlinear_arith);
        if wire > 0 {
            assert(wire * n >= 1) by (nonlinear_arith)
                requires
                    wire >= 1,
                    n >= 1,
            ;
        }
        assert(0 <= wire_gap_frames(packet, d, local_drops) <= u16::MAX);
        assert(0 <= local_drop_frames(packet, d, local_drops, bad) <= u64::MAX);
    }
}

proof fn lemma_blocks_len(s: SynthesisState, frame: Seq<u8>, blocks: int)
    requires
        0 <= blocks,
    ensures
        msbc::decoded_blocks(s, frame, blocks).1.len() == 8 * blocks,
    decreases blocks,
{
    if blocks > 0 {
        lemma_blocks_len(s, frame, blocks - 1);
    }
}

/// A packet that is only a payload: no sequence, and no break announced.
pub open spec fn bare_packet(payload: Seq<u8>, transport: audio::AudioTransport) -> PacketView {
    PacketView { payload, transport, sequence: None, device_discontinuity: false }
}

/// The samples that were delivered.
pub open spec fn samples_in(delivered: Option<AudioFrameView>) -> Seq<i16> {
    match delivered {
        Some(f) => f.pcm,
        None => Seq::empty(),
    }
}

proof fn lemma_payload_prefix(s: SynthesisState, p: Seq<u8>, q: Seq<u8>, n: int)
    requires
        0 <= n,
        57 * n <= p.len(),
    ensures
        decoded_payload(s, p + q, n) == decoded_payload(s, p, n),
    decreases n,
{
    if n > 0 {
        lemma_payload_prefix(s, p, q, n - 1);
        assert(encoded_frame(p + q, n - 1) =~= encoded_frame(p, n - 1));
    }
}

proof fn lemma_payload_concat(s: SynthesisState, p: Seq<u8>, q: Seq<u8>, n: int, k: int)
    requires
        p.len() == 57 * n,
        0 <= k,
        57 * k <= q.len(),
    ensures
        ({
            let first = decoded_payload(s, p, n);
            let second = decoded_payload(first.0, q, k);
            decoded_payload(s, p + q, n + k) == (
                second.0,
                first.1 + second.1,
                first.2 + second.2,
            )
        }),
    decreases k,
{
    let first = decoded_payload(s, p, n);
    let second = decoded_payload(first.0, q, k);
    if k == 0 {
        lemma_payload_prefix(s, p, q, n);
        assert(first.1 + second.1 =~= first.1);
    } else {
        lemma_payload_concat(s, p, q, n, k - 1);
        assert(encoded_frame(p + q, n + k - 1) =~= encoded_frame(q, k - 1));
        let prior = decoded_payload(first.0, q, k - 1);
        let frame = encoded_frame(q, k - 1);
        if msbc::is_msbc_frame(frame) {
            let more = msbc::decoded_blocks(prior.0, frame, 15).1;
            assert(first.1 + (prior.1 + more) =~= (first.1 + prior.1) + more);
        }
    }
}

/// The frames of a payload are decoded front to back by one decoder: a payload of whole frames
/// followed by another payload gives the samples of the one and then those of the other, and
/// leaves the decoder as the two packets would, one after the other.
pub proof fn law_a_payload_is_decoded_front_to_back(
    s: SinkView,
    p: Seq<u8>,
    q: Seq<u8>,
    transport: audio::AudioTransport,
    now_ns: u64,
)
    requires
        p.len() % 57 == 0,
    ensures
        ({
            let joined = sink_step(s, bare_packet(p + q, transport), 0, now_ns);
            let first = sink_step(s, bare_packet(p, transport), 0, now_ns);
            let second = sink_step(first.0, bare_packet(q, transport), 0, now_ns);
            &&& samples_in(joined.1) == samples_in(first.1) + samples_in(second.1)
            &&& joined.0 == second.0
        }),
{
    let n = p.len() as int / 57;
    let k = q.len() as int / 57;
    assert((p + q).len() as int / 57 == n + k);
    lemma_payload_concat(s.synthesis, p, q, n, k);
    let joined = sink_step(s, bare_packet(p + q, transport), 0, now_ns);
    let first = sink_step(s, bare_packet(p, transport), 0, now_ns);
    let second = sink_step(first.0, bare_packet(q, transport), 0, now_ns);
    assert(samples_in(first.1) =~= decoded_payload(s.synthesis, p, n).1);
    assert(samples_in(second.1) =~= decoded_payload(first.0.synthesis, q, k).1);
    assert(samples_in(joined.1) =~= decoded_payload(s.synthesis, p + q, n + k).1);
}

/// A payload of one frame gives what the decoder makes of that frame, 120 samples; a frame with
/// another first byte gives nothing and leaves the decoder alone.
pub proof fn law_one_frame_is_what_the_decoder_makes_of_it(
    s: SinkView,
    frame: Seq<u8>,
    transport: audio::AudioTransport,
    now_ns: u64,
)
    requires
        frame.len() == 57,
    ensures
        ({
            let r = sink_step(s, bare_packet(frame, transport), 0, now_ns);
            &&& frame[0] == 0xAD ==> r.1 is Some && samples_in(r.1).len() == 120 && (
            r.0.synthesis,
            samples_in(r.1),
            ) == msbc::decoded_blocks(s.synthesis, frame, 15)
            &&& frame[0] != 0xAD ==> r.1 is None && r.0.synthesis == s.synthesis
        }),
{
    assert(encoded_frame(frame, 0) =~= frame);
    reveal_with_fuel(decoded_payload, 2);
    lemma_blocks_len(s.synthesis, frame, 15);
    let r = sink_step(s, bare_packet(frame, transport), 0, now_ns);
    assert(decoded_payload(s.synthesis, frame, 0) == (s.synthesis, Seq::<i16>::empty(), 0nat));
    if frame[0] == 0xAD {
        assert(samples_in(r.1) =~= msbc::decoded_blocks(s.synthesis, frame, 15).1);
    }
}

/// Bytes behind the last whole frame add no sample and do not touch the decoder.
pub proof fn law_an_incomplete_end_adds_nothing(
    s: SinkView,
    p: Seq<u8>,
    end: Seq<u8>,
    transport: audio::AudioTransport,
    now_ns: u64,
)
    requires
        p.len() % 57 == 0,
        end.len() < 57,
    ensures
        samples_in(sink_step(s, bare_packet(p + end, transport), 0, now_ns).1) == samples_in(
            sink_step(s, bare_packet(p, transport), 0, now_ns).1,
        ),
        sink_step(s, bare_packet(p + end, transport), 0, now_ns).0 == sink_step(
            s,
            bare_packet(p, transport),
            0,
            now_ns,
        ).0,
{
    lemma_payload_prefix(s.synthesis, p, end, p.len() as int / 57);
    assert((p + end).len() as int / 57 == p.len() as int / 57);
}

/// What a packet delivers is its payload's samples, whatever number or break it carries, as 16 kHz
/// mono with the packet's own particulars and the sink's connection.
pub proof fn law_a_delivery_is_the_payload_with_its_particulars(
    s: SinkView,
    packet: PacketView,
    local_drops: u64,
    now_ns: u64,
)
    ensures
        sink_step(s, packet, local_drops, now_ns).1 matches Some(f) ==> {
            let bare = sink_step(s, bare_packet(packet.payload, packet.transport), 0, now_ns);
            &&& f.pcm == samples_in(bare.1)
            &&& sink_step(s, packet, local_drops, now_ns).0.synthesis == bare.0.synthesis
            &&& f.sample_rate == 16000 && f.channels == 1
            &&& f.transport == packet.transport && f.sequence == packet.sequence
            &&& f.device_discontinuity == packet.device_discontinuity
            &&& f.captured_at_ns == now_ns
            &&& f.connection_epoch == s.connection_epoch
        },
        sink_step(s, packet, local_drops, now_ns).0.connection_epoch == s.connection_epoch,
{
}

/// A packet whose number was seen already, or lies up to half the circle behind, changes nothing
/// and delivers nothing.
pub proof fn law_a_late_packet_is_dropped_whole(
    s: SinkView,
    packet: PacketView,
    last: u16,
    behind: int,
    local_drops: u64,
    now_ns: u64,
)
    requires
        s.last_sequence == Some(last),
        !packet.device_discontinuity,
        0 <= behind <= 0x8000,
        packet.sequence == Some(((last - behind) % 0x1_0000) as u16),
    ensures
        sink_step(s, packet, local_drops, now_ns) == (s, None::<AudioFrameView>),
{
}

/// The number of a packet that is taken in is what the next one is held against.
pub proof fn law_the_last_number_is_remembered(
    s: SinkView,
    packet: PacketView,
    last: u16,
    missing: int,
    local_drops: u64,
    now_ns: u64,
)
    requires
        s.last_sequence == Some(last),
        !packet.device_discontinuity,
        0 <= missing < 0x7FFF,
        packet.sequence == Some(((last + 1 + missing) % 0x1_0000) as u16),
    ensures
        sink_step(s, packet, local_drops, now_ns).0.last_sequence == packet.sequence,
{
}

/// The accounts of a delivered packet that comes after `missing` others are missing: each missing
/// packet counts as many frames as this one holds, on this side as far as packets were dropped
/// here and on the wire for the rest, and each frame of its own that gave no samples, an
/// incomplete one at the end among them, counts on this side.
pub proof fn law_losses_are_counted_in_frames(
    s: SinkView,
    packet: PacketView,
    last: u16,
    missing: int,
    local_drops: u64,
    now_ns: u64,
)
    requires
        s.last_sequence == Some(last),
        !packet.device_discontinuity,
        0 <= missing < 0x7FFF,
        packet.sequence == Some(((last + 1 + missing) % 0x1_0000) as u16),
        packet.payload.len() <= u32::MAX,
    ensures
        sink_step(s, packet, local_drops, now_ns).1 matches Some(f) ==> {
            let frames = packet.payload.len() as int / 57;
            let here = if local_drops < missing {
                local_drops as int
            } else {
                missing
            };
            let wire = (missing - here) * frames;
            &&& f.sequence_gap_frames == (if wire < 65535 {
                wire
            } else {
                65535
            })
            &&& f.local_drop_frames == here * frames + (frames - f.pcm.len() as int / 120) + (
            if packet.payload.len() % 57 == 0 {
                0int
            } else {
                1int
            })
        },
{
    let frames = packet.payload.len() as int / 57;
    let d = disposition_of(s, packet);
    assert(missing_packets(d) == missing);
    law_good_frames_survive_bad_neighbours(s.synthesis, packet.payload, frames);
    let bad = decoded_payload(s.synthesis, packet.payload, frames).2;
    lemma_bad_frames(s.synthesis, packet.payload, frames);
    let here = local_missing(packet, d, local_drops);
    assert(0 <= here * frames <= 0x7FFF * 0x1_0000_0000) by (nonlinear_arith)
        requires
            0 <= here <= 0x7FFF,
            0 <= frames <= 0x1_0000_0000,
    ;
    assert(missing == here ==> (missing - here) * frames == 0) by (nonlinear_arith);
    assert(0 <= (missing - here) * frames) by (nonlinear_arith)
        requires
            0 <= missing - here,
            0 <= frames,
    ;
    assert((120 * (frames - bad)) / 120 == frames - bad);
}

proof fn lemma_bad_frames(s: SynthesisState, payload: Seq<u8>, n: int)
    requires
        0 <= n,
    ensures
        decoded_payload(s, payload, n).2 <= n,
    decreases n,
{
    if n > 0 {
        lemma_bad_frames(s, payload, n - 1);
    }
}

/// Packets without numbers: every packet dropped on this side counts its frames, and nothing is
/// ever missing on the wire.
pub proof fn law_losses_without_numbers_are_local(
    s: SinkView,
    packet: PacketView,
    local_drops: u64,
    now_ns: u64,
)
    requires
        packet.sequence is None,
        packet.payload.len() <= u16::MAX,
        local_drops <= u32::MAX,
    ensures
        sink_step(s, packet, local_drops, now_ns).1 matches Some(f) ==> {
            let frames = packet.payload.len() as int / 57;
            &&& f.sequence_gap_frames == 0
            &&& f.local_drop_frames == local_drops * frames + (frames - f.pcm.len() as int / 120) + (
            if packet.payload.len() % 57 == 0 {
                0int
            } else {
                1int
            })
        },
{
    let frames = packet.payload.len() as int / 57;
    law_good_frames_survive_bad_neighbours(s.synthesis, packet.payload, frames);
    lemma_bad_frames(s.synthesis, packet.payload, frames);
    let bad = decoded_payload(s.synthesis, packet.payload, frames).2;
    assert(0 <= local_drops * frames <= 0x1_0000_0000 * 0x1_0000) by (nonlinear_arith)
        requires
            0 <= local_drops <= u32::MAX,
            0 <= frames <= 0x1_0000,
    ;
    assert((120 * (frames - bad)) / 120 == frames - bad);
}

/// A counting sink counts one frame more each time, and four bytes for each sample; both counters
/// start again at zero when they are full.
pub proof fn law_a_counting_sink_counts_four_bytes_a_sample(before: CountingSink, samples: nat)
    requires
        samples <= u64::MAX,
    ensures
        counted(before, samples).frames == (before.frames + 1) % 0x1_0000_0000_0000_0000,
        counted(before, samples).bytes == (before.bytes + 4 * samples) % 0x1_0000_0000_0000_0000,
{
    let m: int = 0x1_0000_0000_0000_0000;
    let product = (samples as u64).wrapping_mul(4u64);
    assert(product == (4 * samples as int) % m);
    vstd::arithmetic::div_mod::lemma_add_mod_noop(before.bytes as int, (4 * samples) as int, m);
    vstd::arithmetic::div_mod::lemma_add_mod_noop(
        before.bytes as int,
        product as int,
        m,
    );
}

} // verus!
