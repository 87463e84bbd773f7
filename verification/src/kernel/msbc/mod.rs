//! mSBC decoder: 16 kHz mono, 8 subbands, 15 blocks, bitpool 26.
//!
//! A frame is 57 bytes (sync word, two header bytes, CRC, 53 payload bytes) and
//! decodes to 120 samples.

pub mod allocation;
pub mod bits;
pub mod synthesis;
pub mod tables;

use vstd::prelude::*;
use allocation::calculate_bits;
use bits::BitReader;
use synthesis::{synthesis, SynthesisState};

verus! {

/// Bytes of one encoded frame.
pub const MSBC_FRAME_SIZE: usize = 57;

/// First byte of every frame.
pub const MSBC_SYNC_WORD: u8 = 0xAD;

/// Sample rate of the decoded audio.
pub const MSBC_SAMPLE_RATE: u32 = 16000;

/// Blocks of eight samples in one frame.
pub const MSBC_BLOCKS: usize = 15;

/// Samples of one decoded frame.
pub const SAMPLES_PER_FRAME: usize = 120;

/// The payload behind the sync word, the header bytes and the CRC.
pub open spec fn payload_of(frame: Seq<u8>) -> Seq<u8> {
    frame.subrange(4, frame.len() as int)
}

/// The eight 4-bit scale factors at the start of the payload.
pub open spec fn scale_factors_of(frame: Seq<u8>) -> Seq<u8> {
    Seq::new(8, |sb: int| bits::bits_value(payload_of(frame), 4 * sb, 4) as u8)
}

/// Sample step of a scale factor.
pub open spec fn step_of(sf: u8) -> i32 {
    1i32 << ((sf + 3) as u32)
}

/// Number of quantisation levels of `bits` bits.
pub open spec fn levels_of(bits: u8) -> int {
    (1i32 << (bits as u32)) - 1
}

/// Maps the quantised value `raw` of `bits` bits back to a subband sample. The product wraps, and
/// the division truncates toward zero.
pub open spec fn dequantized(raw: int, bits: u8, sf: u8) -> int {
    let product = synthesis::wrap32((2 * raw + 1) * step_of(sf));
    let quotient = if product >= 0 {
        product / levels_of(bits)
    } else {
        -((-product) / levels_of(bits))
    };
    quotient - step_of(sf)
}

/// First bit of subband `sb` in block `block`.
pub open spec fn sample_pos(bits: Seq<u8>, block: int, sb: int) -> int {
    32 + block * allocation::bits_sum(bits, 8) + allocation::bits_sum(bits, sb)
}

/// The eight subband samples of one block.
pub open spec fn subband_samples(frame: Seq<u8>, block: int) -> Seq<i32> {
    let sf = scale_factors_of(frame);
    let bits = allocation::bit_allocation(sf);
    Seq::new(
        8,
        |sb: int|
            if bits[sb] == 0 {
                0i32
            } else {
                dequantized(
                    bits::bits_value(payload_of(frame), sample_pos(bits, block, sb), bits[sb] as nat) as int,
                    bits[sb],
                    sf[sb],
                ) as i32
            },
    )
}

/// Filterbank memory and samples after the first `blocks` blocks of `frame`.
pub open spec fn decoded_blocks(s: SynthesisState, frame: Seq<u8>, blocks: int) -> (
    SynthesisState,
    Seq<i16>,
)
    decreases blocks,
{
    if blocks <= 0 {
        (s, Seq::empty())
    } else {
        let (prior, samples) = decoded_blocks(s, frame, blocks - 1);
        let next = synthesis::matrix_step(prior, subband_samples(frame, blocks - 1), 16);
        (next, samples + synthesis::window_step(next))
    }
}

/// A frame that decodes: complete, and with the sync word in front.
pub open spec fn is_msbc_frame(frame: Seq<u8>) -> bool {
    frame.len() >= MSBC_FRAME_SIZE && frame[0] == MSBC_SYNC_WORD
}

fn dequantize(raw: u16, bits: u8, sf: u8) -> (r: i32)
    requires
        1 <= bits <= 16,
        sf <= 15,
        raw < (1u32 << (bits as u32)),
    ensures
        r == dequantized(raw as int, bits, sf),
{
    let shift: u32 = sf as u32 + 3;
    let count: u32 = bits as u32;
    assert(3 <= shift && shift <= 18 ==> 8 <= (1i32 << shift) && (1i32 << shift) <= 262144) by (bit_vector);
    assert(1 <= count && count <= 16 ==> 2 <= (1i32 << count) && (1i32 << count) <= 65536) by (bit_vector);
    assert(2 <= count && count <= 16 ==> 4 <= (1i32 << count)) by (bit_vector);
    let step: i32 = 1i32 << shift;
    let levels: i32 = (1i32 << count) - 1;
    let odd: i32 = 2 * (raw as i32) + 1;
    let product: i32 = odd.wrapping_mul(step);
    proof {
        assert(product == synthesis::wrap32((2 * raw + 1) * step));
        if bits == 1 {
            assert(1i32 << 1u32 == 2 && 1u32 << 1u32 == 2) by (bit_vector);
            assert(0 <= odd * step <= 3 * 262144) by (nonlinear_arith)
                requires
                    1 <= odd <= 3,
                    8 <= step <= 262144,
            ;
            assert(0 <= product <= 786432);
        } else {
            assert(-0x3000_0000 <= (if product >= 0 { product as int / levels as int } else { -((-product) / levels as int) })
                <= 0x3000_0000) by (nonlinear_arith)
                requires
                    levels >= 3,
                    -0x8000_0000 <= product <= 0x7fff_ffff,
            ;
        }
    }
    product / levels - step
}

/// Decoder state: the filterbank memory carried from frame to frame.
pub struct MsbcDecoder {
    v: [i32; 170],
    offset: [i32; 16],
}

impl View for MsbcDecoder {
    type V = SynthesisState;

    closed spec fn view(&self) -> SynthesisState {
        SynthesisState { v: self.v@, offset: self.offset@ }
    }
}

/// Filterbank memory of a decoder that has seen no frame.
pub open spec fn initial_state() -> SynthesisState {
    SynthesisState {
        v: Seq::new(170, |k: int| 0i32),
        offset: Seq::new(16, |i: int| (10 * i + 10) as i32),
    }
}

impl Default for MsbcDecoder {
    fn default() -> (r: Self)
        ensures
            r.inv(),
            r@ == initial_state(),
    {
        MsbcDecoder::new()
    }
}

impl MsbcDecoder {
    /// Every ring offset lies in the ring.
    pub open spec fn inv(&self) -> bool {
        synthesis::synthesis_inv(self@)
    }

    /// A decoder with silent filterbank memory.
    pub fn new() -> (r: Self)
        ensures
            r.inv(),
            r@ == initial_state(),
    {
        let mut offset: [i32; 16] = [0; 16];
        let mut i: usize = 0;
        while i < 16
            invariant
                i <= 16,
                forall|k: int| 0 <= k < i ==> #[trigger] offset@[k] == 10 * k + 10,
            decreases 16 - i,
        {
            offset[i] = 10 * (i as i32) + 10;
            i = i + 1;
        }
        let r = MsbcDecoder { v: [0; 170], offset };
        assert(r@.v =~= initial_state().v);
        assert(r@.offset =~= initial_state().offset);
        r
    }

    /// Decodes one frame to 120 samples. Only a short frame or a wrong sync word is refused, and
    /// a refused frame leaves the decoder as it was.
    pub fn decode_frame(&mut self, frame: &[u8]) -> (r: Result<Vec<i16>, &'static str>)
        requires
            old(self).inv(),
        ensures
            final(self).inv(),
            r is Ok <==> is_msbc_frame(frame@),
            r matches Ok(samples) ==> samples@ == decoded_blocks(old(self)@, frame@, 15).1
                && samples@.len() == SAMPLES_PER_FRAME && final(self)@ == decoded_blocks(
                old(self)@,
                frame@,
                15,
            ).0,
            r matches Err(e) ==> final(self)@ == old(self)@ && e@ == (if frame@.len()
                < MSBC_FRAME_SIZE {
                "frame too short"@
            } else {
                "invalid sync word"@
            }),
    {
        if frame.len() < MSBC_FRAME_SIZE {
            return Err("frame too short");
        }
        if frame[0] != MSBC_SYNC_WORD {
            return Err("invalid sync word");
        }
        let payload: &[u8] = &frame[4..frame.len()];
        let mut reader = BitReader::new(payload);
        let mut scale_factors: [u8; 8] = [0; 8];
        let ghost sf = scale_factors_of(frame@);
        let mut sb: usize = 0;
        while sb < 8
            invariant
                sb <= 8,
                payload@ == payload_of(frame@),
                payload@.len() >= 53,
                reader.inv(),
                reader.data == payload,
                reader.pos() == 4 * sb,
                sf == scale_factors_of(frame@),
                forall|i: int| 0 <= i < sb ==> #[trigger] scale_factors@[i] == sf[i] && sf[i] <= 15,
            decreases 8 - sb,
        {
            match reader.read(4) {
                Ok(v) => {
                    proof {
                        bits::lemma_bits_value_bound(payload@, 4 * sb, 4);
                        assert(1u32 << 4u32 == 16) by (bit_vector);
                        assert(sf[sb as int] == bits::bits_value(payload_of(frame@), 4 * sb, 4) as u8);
                    }
                    scale_factors[sb] = v as u8;
                },
                Err(_) => {
                    return Err("bitstream overflow reading scale factors");
                },
            }
            sb = sb + 1;
        }
        assert(scale_factors@ =~= sf);
        let bits: [u8; 8] = calculate_bits(&scale_factors);
        let ghost start = self@;
        let ghost total = allocation::bits_sum(bits@, 8);
        let mut samples: Vec<i16> = Vec::with_capacity(SAMPLES_PER_FRAME);
        let mut block: usize = 0;
        proof {
            allocation::lemma_bits_sum_monotone(bits@, 0, 8);
            assert(0 * total == 0);
        }
        while block < MSBC_BLOCKS
            invariant
                block <= 15,
                self.inv(),
                payload@ == payload_of(frame@),
                payload@.len() >= 53,
                is_msbc_frame(frame@),
                reader.inv(),
                reader.data == payload,
                reader.pos() == 32 + block * total,
                sf == scale_factors_of(frame@),
                scale_factors@ == sf,
                forall|i: int| 0 <= i < 8 ==> #[trigger] sf[i] <= 15,
                bits@ == allocation::bit_allocation(sf),
                total == allocation::bits_sum(bits@, 8),
                0 <= total <= 26,
                forall|i: int| 0 <= i < 8 ==> #[trigger] bits@[i] <= 16,
                start == old(self)@,
                self@ == decoded_blocks(start, frame@, block as int).0,
                samples@ == decoded_blocks(start, frame@, block as int).1,
                samples@.len() == 8 * block,
            decreases 15 - block,
        {
            let mut subband: [i32; 8] = [0; 8];
            let ghost expected = subband_samples(frame@, block as int);
            proof {
                assert((block + 1) * total == block * total + total) by (nonlinear_arith);
                assert((block + 1) * total <= 390) by (nonlinear_arith)
                    requires
                        0 <= block < 15,
                        0 <= total <= 26,
                ;
            }
            let mut sb: usize = 0;
            while sb < 8
                invariant
                    sb <= 8,
                    block < 15,
                    payload@ == payload_of(frame@),
                    payload@.len() >= 53,
                    is_msbc_frame(frame@),
                    reader.inv(),
                    reader.data == payload,
                    sf == scale_factors_of(frame@),
                    scale_factors@ == sf,
                    forall|i: int| 0 <= i < 8 ==> #[trigger] sf[i] <= 15,
                    bits@ == allocation::bit_allocation(sf),
                    total == allocation::bits_sum(bits@, 8),
                    0 <= total <= 26,
                    block * total + total <= 390,
                    forall|i: int| 0 <= i < 8 ==> #[trigger] bits@[i] <= 16,
                    reader.pos() == sample_pos(bits@, block as int, sb as int),
                    expected == subband_samples(frame@, block as int),
                    forall|i: int| 0 <= i < sb ==> #[trigger] subband@[i] == expected[i],
                    forall|i: int| sb <= i < 8 ==> #[trigger] subband@[i] == 0,
                decreases 8 - sb,
            {
                let count: u8 = bits[sb];
                proof {
                    allocation::lemma_bits_sum_monotone(bits@, sb + 1, 8);
                    assert(allocation::bits_sum(bits@, sb + 1) == allocation::bits_sum(bits@, sb as int) + count);
                }
                if count != 0 {
                    match reader.read(count) {
                        Ok(raw) => {
                            proof {
                                bits::lemma_bits_value_bound(
                                    payload@,
                                    sample_pos(bits@, block as int, sb as int),
                                    count as nat,
                                );
                            }
                            subband[sb] = dequantize(raw, count, scale_factors[sb]);
                        },
                        Err(_) => {
                            return Err("bitstream overflow reading samples");
                        },
                    }
                }
                sb = sb + 1;
            }
            assert(subband@ =~= expected);
            let pcm: [i16; 8] = synthesis(&mut self.v, &mut self.offset, &subband);
            let mut i: usize = 0;
            let ghost before = samples@;
            while i < 8
                invariant
                    i <= 8,
                    samples@ == before + pcm@.subrange(0, i as int),
                decreases 8 - i,
            {
                samples.push(pcm[i]);
                assert(pcm@.subrange(0, i + 1) =~= pcm@.subrange(0, i as int).push(pcm@[i as int]));
                i = i + 1;
            }
            assert(pcm@.subrange(0, 8) =~= pcm@);
            block = block + 1;
        }
        Ok(samples)
    }
}

/// A frame is decoded by its length and its first byte alone: at least 57 bytes, led by the sync
/// word. The header bytes and the checksum behind it are not looked at.
pub proof fn law_length_and_sync_word_make_a_frame(frame: Seq<u8>)
    ensures
        is_msbc_frame(frame) <==> frame.len() >= 57 && frame[0] == 0xAD,
{
}

/// The scale factors are the half bytes of the first four payload bytes, the upper half first.
pub proof fn law_scale_factors_are_half_bytes(frame: Seq<u8>, i: int)
    requires
        frame.len() >= 57,
        0 <= i < 4,
    ensures
        scale_factors_of(frame).len() == 8,
        scale_factors_of(frame)[2 * i] == frame[4 + i] / 16,
        scale_factors_of(frame)[2 * i + 1] == frame[4 + i] % 16,
{
    let data = payload_of(frame);
    bits::law_a_byte_is_its_eight_bits(data, i);
    bits::law_a_number_can_be_read_in_pieces(data, 8 * i, 4, 4);
    vstd::arithmetic::power2::lemma2_to64();
    lemma_half_byte(data, 8 * i);
    lemma_half_byte(data, 8 * i + 4);
    assert(4 * (2 * i) == 8 * i && 4 * (2 * i + 1) == 8 * i + 4);
}

proof fn lemma_half_byte(data: Seq<u8>, pos: int)
    ensures
        bits::bits_value(data, pos, 4) < 16,
{
    bits::lemma_bits_value_bound(data, pos, 4);
    assert(1u32 << 4u32 == 16) by (bit_vector);
}

/// The samples stand one behind the other: those of a block in the order of the subbands, each as
/// wide as its subband's bits, and the blocks in turn, right behind the scale factors.
pub proof fn law_samples_stand_one_behind_the_other(bits: Seq<u8>, block: int, sb: int)
    requires
        bits.len() == 8,
        0 <= block,
        0 <= sb < 8,
    ensures
        sample_pos(bits, 0, 0) == 32,
        sample_pos(bits, block, sb + 1) == sample_pos(bits, block, sb) + bits[sb],
        sample_pos(bits, block + 1, 0) == sample_pos(bits, block, 8),
{
    let total = allocation::bits_sum(bits, 8);
    assert((block + 1) * total == block * total + total) by (nonlinear_arith);
    assert(0 * total == 0);
}

/// A subband without bits is silent in every block. Any other takes its sample from its own bits
/// at its own place.
pub proof fn law_a_subband_is_read_at_its_place(frame: Seq<u8>, block: int, sb: int)
    requires
        0 <= sb < 8,
    ensures
        ({
            let sf = scale_factors_of(frame);
            let bits = allocation::bit_allocation(sf);
            let sample = subband_samples(frame, block)[sb];
            &&& bits[sb] == 0 ==> sample == 0
            &&& bits[sb] != 0 ==> sample == dequantized(
                bits::bits_value(
                    payload_of(frame),
                    sample_pos(bits, block, sb),
                    bits[sb] as nat,
                ) as int,
                bits[sb],
                sf[sb],
            ) as i32
        }),
{
}

/// While the product fits 32 bits, a quantised value is the rounded-down fraction of the double
/// step that its odd number stands for, taken down by one step.
pub proof fn law_a_quantised_value_is_a_fraction_of_its_step(raw: int, bits: u8, sf: u8)
    requires
        1 <= bits <= 16,
        sf <= 15,
        0 <= raw,
        (2 * raw + 1) * (1i32 << ((sf + 3) as u32)) <= i32::MAX,
    ensures
        ({
            let step: int = (1i32 << ((sf + 3) as u32)) as int;
            let levels: int = (1i32 << (bits as u32)) - 1;
            let part: int = dequantized(raw, bits, sf) + step;
            &&& part * levels <= (2 * raw + 1) * step
            &&& (2 * raw + 1) * step < (part + 1) * levels
        }),
{
    let shift: u32 = (sf + 3) as u32;
    let count: u32 = bits as u32;
    assert(3 <= shift && shift <= 18 ==> 8 <= (1i32 << shift)) by (bit_vector);
    assert(1 <= count && count <= 16 ==> 2 <= (1i32 << count)) by (bit_vector);
    let step: int = (1i32 << shift) as int;
    let levels: int = (1i32 << count) - 1;
    let product = (2 * raw + 1) * step;
    assert(product >= 0) by (nonlinear_arith)
        requires
            product == (2 * raw + 1) * step,
            raw >= 0,
            step >= 8,
    ;
    let part = product / levels;
    vstd::arithmetic::div_mod::lemma_fundamental_div_mod(product, levels);
    assert(part * levels <= product < (part + 1) * levels) by (nonlinear_arith)
        requires
            product == levels * part + product % levels,
            0 <= product % levels < levels,
    ;
}

/// A frame gives eight samples for each block, the blocks in turn: the samples of fewer blocks are
/// the beginning of the samples of more.
pub proof fn law_blocks_are_decoded_in_turn(s: SynthesisState, frame: Seq<u8>, a: int, b: int)
    requires
        0 <= a <= b,
    ensures
        decoded_blocks(s, frame, b).1.len() == 8 * b,
        decoded_blocks(s, frame, a).1 == decoded_blocks(s, frame, b).1.subrange(0, 8 * a),
        decoded_blocks(s, frame, 0).0 == s,
    decreases b,
{
    if b == a {
        if b > 0 {
            law_blocks_are_decoded_in_turn(s, frame, b - 1, b - 1);
        }
        assert(decoded_blocks(s, frame, b).1.subrange(0, 8 * b) =~= decoded_blocks(s, frame, b).1);
    } else {
        law_blocks_are_decoded_in_turn(s, frame, a, b - 1);
        let before = decoded_blocks(s, frame, b - 1).1;
        let now = decoded_blocks(s, frame, b).1;
        assert(now.subrange(0, 8 * a) =~= before.subrange(0, 8 * a));
    }
}

/// Two frames with the same 53 payload bytes decode alike, whatever their headers hold and
/// whatever follows the frame.
pub proof fn law_only_the_payload_counts(s: SynthesisState, f: Seq<u8>, g: Seq<u8>, blocks: int)
    requires
        f.len() >= 57,
        g.len() >= 57,
        f.subrange(4, 57) == g.subrange(4, 57),
        0 <= blocks <= 15,
    ensures
        decoded_blocks(s, f, blocks) == decoded_blocks(s, g, blocks),
    decreases blocks,
{
    if blocks > 0 {
        law_only_the_payload_counts(s, f, g, blocks - 1);
        lemma_same_subbands(f, g, blocks - 1);
    }
}

proof fn lemma_same_bits(f: Seq<u8>, g: Seq<u8>, pos: int, n: nat)
    requires
        f.len() >= 57,
        g.len() >= 57,
        f.subrange(4, 57) == g.subrange(4, 57),
        0 <= pos,
        pos + n <= 424,
    ensures
        bits::bits_value(payload_of(f), pos, n) == bits::bits_value(payload_of(g), pos, n),
{
    let p = payload_of(f);
    let q = payload_of(g);
    assert forall|i: int| pos / 8 <= i && 8 * i < pos + n implies p[i] == q[i] by {
        assert(f.subrange(4, 57)[i] == g.subrange(4, 57)[i]);
    }
    bits::law_a_number_depends_on_its_own_bits(p, q, pos, n);
}

proof fn lemma_same_subbands(f: Seq<u8>, g: Seq<u8>, block: int)
    requires
        f.len() >= 57,
        g.len() >= 57,
        f.subrange(4, 57) == g.subrange(4, 57),
        0 <= block < 15,
    ensures
        subband_samples(f, block) == subband_samples(g, block),
{
    let sf = scale_factors_of(f);
    assert forall|i: int| 0 <= i < 8 implies sf[i] == scale_factors_of(g)[i] && sf[i] <= 15 by {
        lemma_same_bits(f, g, 4 * i, 4);
        lemma_half_byte(payload_of(f), 4 * i);
    }
    assert(sf =~= scale_factors_of(g));
    let bits = allocation::bit_allocation(sf);
    allocation::law_the_pool_is_used_up(sf);
    reveal_with_fuel(allocation::bits_sum, 9);
    let total = allocation::bits_sum(bits, 8);
    assert(total == 26);
    assert forall|sb: int| 0 <= sb < 8 implies subband_samples(f, block)[sb] == subband_samples(
        g,
        block,
    )[sb] by {
        allocation::lemma_bits_sum_monotone(bits, sb + 1, 8);
        allocation::lemma_bits_sum_monotone(bits, 0, sb);
        assert(allocation::bits_sum(bits, sb + 1) == allocation::bits_sum(bits, sb) + bits[sb]);
        let pos = sample_pos(bits, block, sb);
        assert(block * total == block * 26);
        lemma_same_bits(f, g, pos, bits[sb] as nat);
    }
    assert(subband_samples(f, block) =~= subband_samples(g, block));
}

/// A decoder begins with silent memory, each of its sixteen phases ten places behind the one
/// before.
pub proof fn law_a_decoder_begins_silent(k: int, i: int)
    requires
        0 <= k < 170,
        0 <= i < 16,
    ensures
        initial_state().v.len() == 170,
        initial_state().v[k] == 0,
        initial_state().offset.len() == 16,
        initial_state().offset[i] == 10 * (i + 1),
{
}

} // verus!
