//! Capture through the system's audio input: which device and configuration to take, and the
//! timing of the conversion to 16 kHz.

use vstd::prelude::*;
use crate::kernel::error;
use crate::kernel::error::BoardError;
use crate::kernel::types;
use crate::kernel::types::is_usb_audio_device_name;

verus! {

/// Sample rate that is delivered.
pub const OUTPUT_SAMPLE_RATE: u32 = 16_000;

/// Times that the search for the device is repeated, one second apart.
pub const MAX_DEVICE_RETRIES: u32 = 10;

/// Converts interleaved samples of any rate to 16 kHz mono. The phase lives on between buffers,
/// so that the ratio does not drift.
pub struct PcmNormalizer {
    input_sample_rate: u32,
    channels: usize,
    phase: u64,
}

/// Mathematical form of the normalizer.
pub struct NormalizerView {
    pub rate: nat,
    pub channels: nat,
    pub phase: nat,
}

impl View for PcmNormalizer {
    type V = NormalizerView;

    closed spec fn view(&self) -> NormalizerView {
        NormalizerView {
            rate: self.input_sample_rate as nat,
            channels: self.channels as nat,
            phase: self.phase as nat,
        }
    }
}

impl NormalizerView {
    /// Rate and channel count are positive, and the phase has not reached the rate.
    pub open spec fn inv(&self) -> bool {
        self.rate > 0 && self.channels > 0 && self.phase < self.rate && self.rate <= u32::MAX
    }
}

/// Samples delivered up to and including the `n`-th frame from a phase.
pub open spec fn delivered_after(s: NormalizerView, n: nat) -> nat {
    ((s.phase + n * OUTPUT_SAMPLE_RATE) / s.rate as int) as nat
}

/// The phase after `n` frames.
pub open spec fn phase_after(s: NormalizerView, n: nat) -> nat {
    ((s.phase + n * OUTPUT_SAMPLE_RATE) % s.rate as int) as nat
}

impl PcmNormalizer {
    /// A normalizer for an input; a rate or channel count of 0 counts as 1.
    pub fn new(input_sample_rate: u32, channels: usize) -> (r: Self)
        ensures
            r@.inv(),
            r@ == (NormalizerView {
                rate: if input_sample_rate == 0 {
                    1
                } else {
                    input_sample_rate as nat
                },
                channels: if channels == 0 {
                    1
                } else {
                    channels as nat
                },
                phase: 0,
            }),
    {
        PcmNormalizer {
            input_sample_rate: if input_sample_rate == 0 {
                1
            } else {
                input_sample_rate
            },
            channels: if channels == 0 {
                1
            } else {
                channels
            },
            phase: 0,
        }
    }

    /// Channels of the input.
    pub fn channels(&self) -> (r: usize)
        ensures
            r == self@.channels,
    {
        self.channels
    }

    /// Takes in one frame and tells how many samples it is to be delivered as.
    pub fn repeats(&mut self) -> (r: u64)
        requires
            old(self)@.inv(),
        ensures
            final(self)@.inv(),
            r == delivered_after(old(self)@, 1),
            final(self)@ == (NormalizerView { phase: phase_after(old(self)@, 1), ..old(self)@ }),
    {
        let total: u64 = self.phase + OUTPUT_SAMPLE_RATE as u64;
        let rate: u64 = self.input_sample_rate as u64;
        let r: u64 = total / rate;
        self.phase = total % rate;
        r
    }

    /// Takes in a buffer of interleaved samples and tells, for each whole frame in it, how many
    /// samples it is to be delivered as.
    pub fn process(&mut self, interleaved: usize) -> (r: Vec<u64>)
        requires
            old(self)@.inv(),
        ensures
            final(self)@.inv(),
            r@.len() == interleaved as int / old(self)@.channels as int,
            forall|i: int|
                0 <= i < r@.len() ==> #[trigger] r@[i] == delivered_after(old(self)@, (i + 1) as nat)
                    - delivered_after(old(self)@, i as nat),
            final(self)@ == (NormalizerView {
                phase: phase_after(old(self)@, r@.len()),
                ..old(self)@
            }),
    {
        let ghost start = self@;
        let frames: usize = interleaved / self.channels;
        let mut out: Vec<u64> = Vec::new();
        proof {
            lemma_no_frames(start);
        }
        let mut i: usize = 0;
        while i < frames
            invariant
                i <= frames,
                out@.len() == i,
                start.inv(),
                self@.inv(),
                self@ == (NormalizerView { phase: phase_after(start, i as nat), ..start }),
                forall|j: int|
                    0 <= j < i ==> #[trigger] out@[j] == delivered_after(start, (j + 1) as nat)
                        - delivered_after(start, j as nat),
            decreases frames - i,
        {
            proof {
                lemma_one_more_frame(start, i as nat);
            }
            let copies: u64 = self.repeats();
            out.push(copies);
            i = i + 1;
        }
        out
    }
}

proof fn lemma_no_frames(s: NormalizerView)
    requires
        s.inv(),
    ensures
        delivered_after(s, 0) == 0,
        phase_after(s, 0) == s.phase,
{
    assert(s.phase + 0nat * OUTPUT_SAMPLE_RATE == s.phase);
    vstd::arithmetic::div_mod::lemma_basic_div(s.phase as int, s.rate as int);
    vstd::arithmetic::div_mod::lemma_small_mod(s.phase, s.rate);
}

proof fn lemma_one_more_frame(s: NormalizerView, n: nat)
    requires
        s.inv(),
    ensures
        ({
            let now = NormalizerView { phase: phase_after(s, n), ..s };
            &&& delivered_after(now, 1) == delivered_after(s, n + 1) - delivered_after(s, n)
            &&& phase_after(now, 1) == phase_after(s, n + 1)
        }),
{
    law_the_ratio_survives_a_buffer_boundary(s, n, 1);
}

/// Splitting the input into buffers changes nothing: what is delivered over `a` frames and then
/// over `b` more is what is delivered over all of them at once, and the phase agrees too.
pub proof fn law_the_ratio_survives_a_buffer_boundary(s: NormalizerView, a: nat, b: nat)
    requires
        s.inv(),
    ensures
        ({
            let now = NormalizerView { phase: phase_after(s, a), ..s };
            &&& now.inv()
            &&& delivered_after(s, a) + delivered_after(now, b) == delivered_after(s, a + b)
            &&& phase_after(now, b) == phase_after(s, a + b)
        }),
{
    let d = s.rate as int;
    let x = s.phase + a * OUTPUT_SAMPLE_RATE;
    let y = b * OUTPUT_SAMPLE_RATE;
    assert((a + b) * OUTPUT_SAMPLE_RATE == a * OUTPUT_SAMPLE_RATE + b * OUTPUT_SAMPLE_RATE)
        by (nonlinear_arith);
    assert(x >= 0 && y >= 0) by (nonlinear_arith)
        requires
            x == s.phase + a * OUTPUT_SAMPLE_RATE,
            y == b * OUTPUT_SAMPLE_RATE,
            s.phase >= 0,
            a >= 0,
            b >= 0,
    ;
    vstd::arithmetic::div_mod::lemma_fundamental_div_mod(x, d);
    vstd::arithmetic::div_mod::lemma_mod_bound(x, d);
    let q = x / d;
    let r = x % d;
    vstd::arithmetic::div_mod::lemma_hoist_over_denominator(r + y, q, d as nat);
    assert((r + y) / d + q == (r + y + q * d) / d);
    assert(x + y == r + y + q * d) by (nonlinear_arith)
        requires
            x == d * q + r,
    ;
    vstd::arithmetic::div_mod::lemma_mod_multiples_vanish(q, r + y, d);
    assert(d * q + (r + y) == x + y);
    vstd::arithmetic::div_mod::lemma_div_pos_is_pos(x, d);
    vstd::arithmetic::div_mod::lemma_div_pos_is_pos(r + y, d);
    vstd::arithmetic::div_mod::lemma_div_pos_is_pos(x + y, d);
    vstd::arithmetic::div_mod::lemma_mod_bound(r + y, d);
    vstd::arithmetic::div_mod::lemma_mod_bound(x + y, d);
}

/// An input configuration that the device offers.
#[derive(Debug, Clone, Copy, PartialEq, Eq, Structural)]
pub struct InputConfig {
    pub channels: u16,
    /// Samples are 32-bit floating point numbers.
    pub is_float: bool,
    pub min_sample_rate: u32,
    pub max_sample_rate: u32,
}

impl InputConfig {
    /// Mono floating point at 16 kHz.
    pub open spec fn is_preferred(&self) -> bool {
        self.channels == 1 && self.is_float && self.min_sample_rate <= OUTPUT_SAMPLE_RATE
            <= self.max_sample_rate
    }
}

/// The first configuration that needs no conversion.
pub fn preferred_config(configs: &[InputConfig]) -> (r: Option<usize>)
    ensures
        match r {
            Some(i) => i < configs@.len() && configs@[i as int].is_preferred() && forall|j: int|
                0 <= j < i ==> !(#[trigger] configs@[j]).is_preferred(),
            None => forall|j: int|
                0 <= j < configs@.len() ==> !(#[trigger] configs@[j]).is_preferred(),
        },
{
    let mut i: usize = 0;
    while i < configs.len()
        invariant
            i <= configs@.len(),
            forall|j: int| 0 <= j < i ==> !(#[trigger] configs@[j]).is_preferred(),
        decreases configs@.len() - i,
    {
        let c: InputConfig = configs[i];
        if c.channels == 1 && c.is_float && c.min_sample_rate <= OUTPUT_SAMPLE_RATE
            && c.max_sample_rate >= OUTPUT_SAMPLE_RATE {
            return Some(i);
        }
        i = i + 1;
    }
    None
}

/// The input at position `i` is named like the board's audio.
pub open spec fn is_board_input(names: Seq<Option<String>>, i: int) -> bool {
    names[i] matches Some(name) && types::names_board_audio(name@)
}

/// What follows from one look at the audio inputs.
pub enum CaptureSearch {
    /// Take the input at this position.
    Found(usize),
    /// Look again after a second.
    Retry(u32),
    /// Give up.
    NotFound(BoardError),
}

/// Looks for the board among the inputs; an input whose name cannot be told never is.
pub fn find_usb_audio_device(names: &Vec<Option<String>>, running: bool, retry: u32) -> (r:
    CaptureSearch)
    ensures
        match r {
            CaptureSearch::Found(i) => i < names@.len() && is_board_input(names@, i as int)
                && forall|j: int| 0 <= j < i ==> !is_board_input(names@, j),
            CaptureSearch::Retry(next) => running && retry < MAX_DEVICE_RETRIES && next == retry + 1
                && forall|j: int| 0 <= j < names@.len() ==> !is_board_input(names@, j),
            CaptureSearch::NotFound(e) => (!running || retry >= MAX_DEVICE_RETRIES) && (forall|j: int|
                0 <= j < names@.len() ==> !is_board_input(names@, j)) && (
            e matches BoardError::Other(m) && m@ == "未找到 USB Audio (UAC) 设备"@),
        },
{
    let mut i: usize = 0;
    while i < names.len()
        invariant
            i <= names@.len(),
            forall|j: int| 0 <= j < i ==> !is_board_input(names@, j),
        decreases names@.len() - i,
    {
        match &names[i] {
            Some(name) => {
                if is_usb_audio_device_name(name.as_str()) {
                    return CaptureSearch::Found(i);
                }
            },
            None => {},
        }
        i = i + 1;
    }
    if !running || retry >= MAX_DEVICE_RETRIES {
        return CaptureSearch::NotFound(error::other_error("未找到 USB Audio (UAC) 设备"));
    }
    CaptureSearch::Retry(retry + 1)
}

/// From the start of a capture, the samples delivered over any number of frames are 16000 for every
/// `rate` frames taken in, rounded down: the ratio holds exactly, however long it lasts.
pub proof fn law_sixteen_thousand_samples_a_second(rate: nat, channels: nat, n: nat)
    requires
        0 < rate <= u32::MAX,
        channels > 0,
    ensures
        ({
            let s = NormalizerView { rate, channels, phase: 0 };
            &&& delivered_after(s, n) * rate <= n * 16000 < (delivered_after(s, n) + 1) * rate
            &&& delivered_after(s, n) * rate + phase_after(s, n) == n * 16000
            &&& phase_after(s, n) < rate
        }),
{
    let s = NormalizerView { rate, channels, phase: 0 };
    let x = n * 16000;
    let d = rate as int;
    assert(x >= 0) by (nonlinear_arith)
        requires
            x == n * 16000,
            n >= 0,
    ;
    vstd::arithmetic::div_mod::lemma_fundamental_div_mod(x as int, d);
    vstd::arithmetic::div_mod::lemma_mod_bound(x as int, d);
    vstd::arithmetic::div_mod::lemma_div_pos_is_pos(x as int, d);
    let q = x as int / d;
    assert(d * q == q * d) by (nonlinear_arith);
    assert((q + 1) * d == q * d + d) by (nonlinear_arith);
}

/// Each second of input, in whole frames of its own rate, is one second of output.
pub proof fn law_a_second_in_is_a_second_out(s: NormalizerView, seconds: nat)
    requires
        s.inv(),
    ensures
        delivered_after(s, seconds * s.rate) == seconds * 16000,
        phase_after(s, seconds * s.rate) == s.phase,
{
    let d = s.rate as int;
    let q = (seconds * 16000) as int;
    assert((seconds * s.rate) * 16000 == d * q) by (nonlinear_arith)
        requires
            q == seconds * 16000,
            d == s.rate,
    ;
    assert(q >= 0);
    vstd::arithmetic::div_mod::lemma_hoist_over_denominator(s.phase as int, q, s.rate);
    vstd::arithmetic::div_mod::lemma_basic_div(s.phase as int, d);
    vstd::arithmetic::div_mod::lemma_mod_multiples_vanish(q, s.phase as int, d);
    vstd::arithmetic::div_mod::lemma_small_mod(s.phase, s.rate);
    assert(s.phase + q * d == s.phase + (seconds * s.rate) * 16000) by (nonlinear_arith)
        requires
            (seconds * s.rate) * 16000 == d * q,
    ;
    assert(d * q + s.phase == s.phase + (seconds * s.rate) * 16000);
}

/// A configuration is preferred exactly when it is mono, in floating point, and has 16 kHz within
/// its range.
pub proof fn law_mono_float_at_sixteen_kilohertz_is_preferred(c: InputConfig)
    ensures
        c.is_preferred() <==> c.channels == 1 && c.is_float && c.min_sample_rate <= 16000
            && 16000 <= c.max_sample_rate,
{
}

/// An input without a readable name is never the board's; any other is by its name.
pub proof fn law_an_input_without_a_name_is_not_the_boards(names: Seq<Option<String>>, i: int)
    ensures
        names[i] is None ==> !is_board_input(names, i),
        names[i] matches Some(name) ==> is_board_input(names, i) == types::names_board_audio(name@),
{
}

} // verus!
