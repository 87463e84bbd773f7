//! Eight-subband synthesis filterbank in 32-bit wrapping fixed point.

use vstd::prelude::*;
use super::tables::{PROTO_80M0, PROTO_80M1, SYNMATRIX8};

verus! {

/// `x` reduced modulo 2^32 into the range of `i32`.
pub open spec fn wrap32(x: int) -> int {
    let m = x % 0x1_0000_0000;
    if m > i32::MAX {
        m - 0x1_0000_0000
    } else {
        m
    }
}

/// A wrapped accumulator scaled down by 15 fractional bits, rounding toward minus infinity.
pub open spec fn scaled(x: int) -> int {
    wrap32(x) / 32768
}

/// `v` cut to the range of a 16-bit sample.
pub open spec fn saturated(v: int) -> int {
    if v < -32768 {
        -32768
    } else if v > 32767 {
        32767
    } else {
        v
    }
}

/// Sum of the first `k` products of two rows.
pub open spec fn dot(a: Seq<i32>, b: Seq<i32>, k: int) -> int
    decreases k,
{
    if k <= 0 {
        0
    } else {
        dot(a, b, k - 1) + a[k - 1] * b[k - 1]
    }
}

/// Filterbank memory: 160 ring positions with the first nine repeated behind them, and the ring
/// offset of each of the sixteen phases.
pub struct SynthesisState {
    pub v: Seq<i32>,
    pub offset: Seq<i32>,
}

/// Offsets that a finished step leaves behind, or that a new decoder starts with.
pub open spec fn synthesis_inv(s: SynthesisState) -> bool {
    &&& s.v.len() == 170
    &&& s.offset.len() == 16
    &&& forall|i: int| 0 <= i < 16 ==> 0 <= #[trigger] s.offset[i] <= 160
}

/// Repeats the first nine ring positions behind the ring.
pub open spec fn mirrored(v: Seq<i32>) -> Seq<i32> {
    Seq::new(170, |k: int| if 160 <= k < 169 { v[k - 160] } else { v[k] })
}

/// Moves phase `i` one position back in the ring and stores its matrix product there.
pub open spec fn phase_step(s: SynthesisState, subband: Seq<i32>, i: int) -> SynthesisState {
    let wraps = s.offset[i] == 0;
    let at = if wraps { 159 } else { s.offset[i] - 1 };
    let v = if wraps { mirrored(s.v) } else { s.v };
    SynthesisState {
        v: v.update(at, scaled(dot(SYNMATRIX8@[i]@, subband, 8)) as i32),
        offset: s.offset.update(i, at as i32),
    }
}

/// The first `n` phases of the matrix step.
pub open spec fn matrix_step(s: SynthesisState, subband: Seq<i32>, n: int) -> SynthesisState
    decreases n,
{
    if n <= 0 {
        s
    } else {
        phase_step(matrix_step(s, subband, n - 1), subband, n - 1)
    }
}

/// Windowed sum of the first `m` pairs of taps of output sample `i`.
pub open spec fn window_sum(s: SynthesisState, i: int, m: int) -> int
    decreases m,
{
    if m <= 0 {
        0
    } else {
        window_sum(s, i, m - 1) + s.v[s.offset[i] + 2 * (m - 1)] * PROTO_80M0@[5 * i + m - 1]
            + s.v[s.offset[(i + 8) % 16] + 2 * (m - 1) + 1] * PROTO_80M1@[5 * i + m - 1]
    }
}

/// The eight samples that the filterbank yields after the matrix step.
pub open spec fn window_step(s: SynthesisState) -> Seq<i16> {
    Seq::new(8, |i: int| saturated(scaled(window_sum(s, i, 5))) as i16)
}

proof fn lemma_wrap32(x: int, y: int)
    ensures
        wrap32(wrap32(x) + y) == wrap32(x + y),
        i32::MIN <= wrap32(x) <= i32::MAX,
{
    let m: int = 0x1_0000_0000;
    let w = wrap32(x);
    assert(w % m == x % m);
    vstd::arithmetic::div_mod::lemma_add_mod_noop(w, y, m);
    vstd::arithmetic::div_mod::lemma_add_mod_noop(x, y, m);
}

/// `acc + a * b` in wrapping arithmetic.
fn multiply_add(acc: i32, a: i32, b: i32) -> (r: i32)
    ensures
        r == wrap32(acc + a * b),
{
    proof {
        lemma_wrap32(a * b, acc as int);
        assert(a * b + acc == acc + a * b);
    }
    acc.wrapping_add(a.wrapping_mul(b))
}

/// Scales a wrapped accumulator down.
fn scale_down(acc: i32) -> (r: i32)
    ensures
        r == acc as int / 32768,
        -65536 <= r < 65536,
{
    assert((acc >> 15u32) == acc / 32768 && -65536 <= (acc >> 15u32) && (acc >> 15u32) < 65536)
        by (bit_vector);
    acc >> 15u32
}

/// Cuts a sample to 16 bits.
pub fn saturate_i16(v: i32) -> (r: i16)
    ensures
        r == saturated(v as int),
{
    if v < -32768 {
        -32768
    } else if v > 32767 {
        32767
    } else {
        v as i16
    }
}

fn dot8(row: &[i32; 8], s: &[i32; 8]) -> (r: i32)
    ensures
        r == scaled(dot(row@, s@, 8)),
{
    let mut acc: i32 = 0;
    let mut j: usize = 0;
    while j < 8
        invariant
            j <= 8,
            acc == wrap32(dot(row@, s@, j as int)),
        decreases 8 - j,
    {
        proof {
            lemma_wrap32(dot(row@, s@, j as int), row@[j as int] * s@[j as int]);
        }
        acc = multiply_add(acc, row[j], s[j]);
        j = j + 1;
    }
    scale_down(acc)
}

/// Runs one block of subband samples through the filterbank.
pub fn synthesis(v: &mut [i32; 170], offset: &mut [i32; 16], subband: &[i32; 8]) -> (r: [i16; 8])
    requires
        synthesis_inv((SynthesisState { v: old(v)@, offset: old(offset)@ })),
    ensures
        synthesis_inv((SynthesisState { v: final(v)@, offset: final(offset)@ })),
        (SynthesisState { v: final(v)@, offset: final(offset)@ }) == matrix_step(
            (SynthesisState { v: old(v)@, offset: old(offset)@ }),
            subband@,
            16,
        ),
        r@ == window_step((SynthesisState { v: final(v)@, offset: final(offset)@ })),
{
    let ghost start = SynthesisState { v: v@, offset: offset@ };
    let mut i: usize = 0;
    while i < 16
        invariant
            i <= 16,
            forall|k: int| 0 <= k < i ==> 0 <= #[trigger] offset@[k] <= 159,
            forall|k: int| i <= k < 16 ==> 0 <= #[trigger] offset@[k] <= 160,
            (SynthesisState { v: v@, offset: offset@ }) == matrix_step(start, subband@, i as int),
        decreases 16 - i,
    {
        let ghost before = SynthesisState { v: v@, offset: offset@ };
        let mut at: i32 = offset[i] - 1;
        if at < 0 {
            at = 159;
            let mut k: usize = 0;
            while k < 9
                invariant
                    k <= 9,
                    before.v.len() == 170,
                    forall|j: int| 0 <= j < 170 ==> #[trigger] v@[j] == (if 160 <= j < 160 + k {
                        before.v[j - 160]
                    } else {
                        before.v[j]
                    }),
                decreases 9 - k,
            {
                v[160 + k] = v[k];
                k = k + 1;
            }
            assert(v@ =~= mirrored(before.v));
        }
        offset[i] = at;
        v[at as usize] = dot8(&SYNMATRIX8[i], subband);
        assert((SynthesisState { v: v@, offset: offset@ }) == phase_step(before, subband@, i as int));
        i = i + 1;
    }
    let ghost s = SynthesisState { v: v@, offset: offset@ };
    let mut output: [i16; 8] = [0; 8];
    let mut i: usize = 0;
    while i < 8
        invariant
            i <= 8,
            s.v == v@,
            s.offset == offset@,
            forall|k: int| 0 <= k < 16 ==> 0 <= #[trigger] offset@[k] <= 159,
            forall|k: int| 0 <= k < i ==> #[trigger] output@[k] == window_step(s)[k],
        decreases 8 - i,
    {
        let oi: usize = offset[i] as usize;
        let ok: usize = offset[(i + 8) % 16] as usize;
        assert(oi == offset@[i as int] && ok == offset@[(i + 8) % 16]);
        let mut acc: i32 = 0;
        let mut m: usize = 0;
        while m < 5
            invariant
                m <= 5,
                i < 8,
                oi <= 159,
                ok <= 159,
                s.v == v@,
                oi == s.offset[i as int],
                ok == s.offset[(i + 8) % 16],
                acc == wrap32(window_sum(s, i as int, m as int)),
            decreases 5 - m,
        {
            proof {
                let sum = window_sum(s, i as int, m as int);
                let even = s.v[oi + 2 * m] * PROTO_80M0@[5 * i + m];
                let odd = s.v[ok + 2 * m + 1] * PROTO_80M1@[5 * i + m];
                lemma_wrap32(sum, even);
                lemma_wrap32(sum + even, odd);
                assert(window_sum(s, i as int, m + 1) == sum + even + odd);
            }
            acc = multiply_add(acc, v[oi + 2 * m], PROTO_80M0[5 * i + m]);
            acc = multiply_add(acc, v[ok + 2 * m + 1], PROTO_80M1[5 * i + m]);
            m = m + 1;
        }
        output[i] = saturate_i16(scale_down(acc));
        i = i + 1;
    }
    assert(output@ =~= window_step(s));
    output
}

/// A wrapped number fits 32 bits and differs from the exact one by a multiple of 2^32; one that
/// fits already stays.
pub proof fn law_wrapping_keeps_the_low_bits(x: int)
    ensures
        i32::MIN <= wrap32(x) <= i32::MAX,
        (x - wrap32(x)) % 0x1_0000_0000 == 0,
        i32::MIN <= x <= i32::MAX ==> wrap32(x) == x,
{
}

/// Scaling divides by 2^15 and rounds down, for negative numbers too.
pub proof fn law_scaling_rounds_down(x: int)
    requires
        i32::MIN <= x <= i32::MAX,
    ensures
        scaled(x) * 32768 <= x < scaled(x) * 32768 + 32768,
{
}

/// A sample that fits sixteen bits stays, and any other becomes the nearest one that does.
pub proof fn law_loud_samples_are_cut(v: int)
    ensures
        -32768 <= saturated(v) <= 32767,
        -32768 <= v <= 32767 ==> saturated(v) == v,
        v > 32767 ==> saturated(v) == 32767,
        v < -32768 ==> saturated(v) == -32768,
{
}

/// A phase moves back by one place in its ring of 160, from the front to the end, and writes
/// there. Elsewhere the memory stays, but for the nine places behind the ring, which get a copy of
/// the first nine when the phase goes round.
pub proof fn law_a_phase_writes_one_place(s: SynthesisState, subband: Seq<i32>, i: int, k: int)
    requires
        synthesis_inv(s),
        0 <= i < 16,
        0 <= k < 170,
    ensures
        ({
            let n = phase_step(s, subband, i);
            let at = if s.offset[i] == 0 {
                159
            } else {
                s.offset[i] - 1
            };
            &&& n.offset[i] == at
            &&& forall|j: int| 0 <= j < 16 && j != i ==> #[trigger] n.offset[j] == s.offset[j]
            &&& k != at && (s.offset[i] != 0 || k < 160 || k == 169) ==> n.v[k] == s.v[k]
            &&& s.offset[i] == 0 && 160 <= k < 169 ==> n.v[k] == s.v[k - 160]
            &&& n.v[at] == scaled(dot(SYNMATRIX8@[i]@, subband, 8)) as i32
        }),
{
}

/// The product of two rows adds up the products of their eight pairs.
pub proof fn law_a_row_product_adds_eight_pairs(a: Seq<i32>, b: Seq<i32>)
    ensures
        dot(a, b, 8) == a[0] * b[0] + a[1] * b[1] + a[2] * b[2] + a[3] * b[3] + a[4] * b[4] + a[5]
            * b[5] + a[6] * b[6] + a[7] * b[7],
{
    reveal_with_fuel(dot, 9);
}

/// Every phase moves in a block, each exactly once: a full step takes every ring offset back by
/// one.
pub proof fn law_a_block_moves_every_phase_once(s: SynthesisState, subband: Seq<i32>, i: int)
    requires
        synthesis_inv(s),
        0 <= i < 16,
    ensures
        matrix_step(s, subband, 16).offset[i] == (if s.offset[i] == 0 {
            159
        } else {
            s.offset[i] - 1
        }),
        synthesis_inv(matrix_step(s, subband, 16)),
{
    lemma_matrix_offsets(s, subband, 16, i);
    assert forall|k: int| 0 <= k < 16 implies 0 <= #[trigger] matrix_step(
        s,
        subband,
        16,
    ).offset[k] <= 160 by {
        lemma_matrix_offsets(s, subband, 16, k);
    }
}

proof fn lemma_matrix_offsets(s: SynthesisState, subband: Seq<i32>, n: int, i: int)
    requires
        synthesis_inv(s),
        0 <= n <= 16,
        0 <= i < 16,
    ensures
        ({
            let m = matrix_step(s, subband, n);
            &&& m.v.len() == 170
            &&& m.offset.len() == 16
            &&& m.offset[i] == (if i >= n {
                s.offset[i] as int
            } else if s.offset[i] == 0 {
                159
            } else {
                s.offset[i] - 1
            })
        }),
    decreases n,
{
    if n > 0 {
        lemma_matrix_offsets(s, subband, n - 1, i);
        lemma_matrix_offsets(s, subband, n - 1, n - 1);
    }
}

/// Silence stays silence: where the memory and the subbands are zero, so are the memory and the
/// samples after the block.
pub proof fn law_silence_stays_silent(s: SynthesisState, subband: Seq<i32>)
    requires
        synthesis_inv(s),
        subband.len() == 8,
        forall|k: int| 0 <= k < 170 ==> #[trigger] s.v[k] == 0,
        forall|k: int| 0 <= k < 8 ==> #[trigger] subband[k] == 0,
    ensures
        forall|k: int| 0 <= k < 170 ==> #[trigger] matrix_step(s, subband, 16).v[k] == 0,
        forall|k: int| 0 <= k < 8 ==> #[trigger] window_step(matrix_step(s, subband, 16))[k] == 0,
{
    lemma_silent_memory(s, subband, 16);
    let m = matrix_step(s, subband, 16);
    law_a_block_moves_every_phase_once(s, subband, 0);
    assert forall|k: int| 0 <= k < 8 implies #[trigger] window_step(m)[k] == 0 by {
        law_a_block_moves_every_phase_once(s, subband, k);
        law_a_block_moves_every_phase_once(s, subband, (k + 8) % 16);
        lemma_silent_window(m, k, 5);
    }
}

proof fn lemma_silent_memory(s: SynthesisState, subband: Seq<i32>, n: int)
    requires
        synthesis_inv(s),
        0 <= n <= 16,
        subband.len() == 8,
        forall|k: int| 0 <= k < 170 ==> #[trigger] s.v[k] == 0,
        forall|k: int| 0 <= k < 8 ==> #[trigger] subband[k] == 0,
    ensures
        matrix_step(s, subband, n).v.len() == 170,
        forall|k: int| 0 <= k < 170 ==> #[trigger] matrix_step(s, subband, n).v[k] == 0,
    decreases n,
{
    if n > 0 {
        lemma_silent_memory(s, subband, n - 1);
        lemma_matrix_offsets(s, subband, n - 1, n - 1);
        lemma_silent_dot(SYNMATRIX8@[n - 1]@, subband, 8);
    }
}

proof fn lemma_silent_dot(row: Seq<i32>, subband: Seq<i32>, k: int)
    requires
        0 <= k <= 8,
        subband.len() == 8,
        forall|j: int| 0 <= j < 8 ==> #[trigger] subband[j] == 0,
    ensures
        dot(row, subband, k) == 0,
    decreases k,
{
    if k > 0 {
        lemma_silent_dot(row, subband, k - 1);
        assert(row[k - 1] * subband[k - 1] == 0) by (nonlinear_arith)
            requires
                subband[k - 1] == 0,
        ;
    }
}

proof fn lemma_silent_window(s: SynthesisState, i: int, m: int)
    requires
        0 <= i < 8,
        0 <= m <= 5,
        0 <= s.offset[i] <= 159,
        0 <= s.offset[(i + 8) % 16] <= 159,
        s.v.len() == 170,
        forall|k: int| 0 <= k < 170 ==> #[trigger] s.v[k] == 0,
    ensures
        window_sum(s, i, m) == 0,
    decreases m,
{
    if m > 0 {
        lemma_silent_window(s, i, m - 1);
        let a = s.v[s.offset[i] + 2 * (m - 1)];
        let b = s.v[s.offset[(i + 8) % 16] + 2 * (m - 1) + 1];
        assert(a * PROTO_80M0@[5 * i + m - 1] == 0) by (nonlinear_arith)
            requires
                a == 0,
        ;
        assert(b * PROTO_80M1@[5 * i + m - 1] == 0) by (nonlinear_arith)
            requires
                b == 0,
        ;
    }
}

} // verus!
