//! The sample pipeline of a capture session: silence gating, a fixed gain
//! stage and saturating quantization to 16-bit PCM.
//!
//! Samples arrive as IEEE-754 binary32 values; the library receives each one
//! as its bit pattern, so that every step below is exact integer arithmetic.

use vstd::prelude::*;
use vstd::arithmetic::power2::{pow2, lemma_pow2_pos, lemma2_to64};
use vstd::bits::lemma_u64_shr_is_div;

use crate::error::AudioError;

verus! {

/// Bit pattern of the binary32 value `1.0`.
pub const ONE_BITS: u32 = 0x3F80_0000;

/// Bit pattern of the binary32 value `-1.0`.
pub const MINUS_ONE_BITS: u32 = 0xBF80_0000;

/// Bit pattern of the binary32 value `1.0e-5`, the default silence threshold.
pub const DEFAULT_SILENCE_THRESHOLD: u32 = 0x3727_C5AC;

/// The default gain that compensates the attenuation introduced by tapping.
pub const DEFAULT_GAIN: u16 = 10;

/// Largest and smallest 16-bit PCM sample.
pub const PCM_MAX: i16 = 32767;
pub const PCM_MIN: i16 = -32768;

pub open spec fn is_negative(bits: u32) -> bool {
    bits >= 0x8000_0000
}

/// The bit pattern with the sign cleared: the absolute value.
pub open spec fn magnitude_bits(bits: u32) -> u32 {
    bits % 0x8000_0000
}

pub open spec fn exponent_field(bits: u32) -> nat {
    (magnitude_bits(bits) / 0x80_0000) as nat
}

pub open spec fn fraction_field(bits: u32) -> nat {
    (magnitude_bits(bits) % 0x80_0000) as nat
}

pub open spec fn is_nan(bits: u32) -> bool {
    exponent_field(bits) == 255 && fraction_field(bits) != 0
}

pub open spec fn is_infinite(bits: u32) -> bool {
    exponent_field(bits) == 255 && fraction_field(bits) == 0
}

/// The integer significand: a finite value is `significand * 2^(scale_exponent - 150)`.
pub open spec fn significand(bits: u32) -> nat {
    if exponent_field(bits) == 0 {
        fraction_field(bits)
    } else {
        fraction_field(bits) + 0x80_0000
    }
}

pub open spec fn scale_exponent(bits: u32) -> nat {
    if exponent_field(bits) == 0 {
        1
    } else {
        exponent_field(bits)
    }
}

/// `|x| * gain * 32768`, truncated toward zero, for a finite sample `x`.
pub open spec fn scaled_magnitude(bits: u32, gain: u16) -> nat {
    let m: nat = (significand(bits) * gain * 32768) as nat;
    if scale_exponent(bits) >= 150 {
        m * pow2((scale_exponent(bits) - 150) as nat)
    } else {
        m / pow2((150 - scale_exponent(bits)) as nat)
    }
}

/// The PCM value of a sample: `x * gain * 32768` truncated toward zero and
/// clamped to `[-32768, 32767]`, so that `[-1, 1]` spans the whole 16-bit
/// range; NaN (and infinity times a zero gain) gives 0.
pub open spec fn quantized_value(bits: u32, gain: u16) -> int {
    if exponent_field(bits) == 255 {
        if fraction_field(bits) != 0 || gain == 0 {
            0
        } else if is_negative(bits) {
            -32768
        } else {
            32767
        }
    } else if is_negative(bits) {
        -(if scaled_magnitude(bits, gain) < 32768 { scaled_magnitude(bits, gain) as int } else { 32768 })
    } else {
        if scaled_magnitude(bits, gain) < 32767 { scaled_magnitude(bits, gain) as int } else { 32767 }
    }
}

/// Whether some sample that is a number has an absolute value above the
/// threshold (for values that are not NaN, the order of the magnitude bit
/// patterns is the order of the absolute values).
pub open spec fn above_threshold(samples: Seq<u32>, threshold: u32) -> bool {
    exists|i: int|
        0 <= i < samples.len() && !is_nan(#[trigger] samples[i]) && magnitude_bits(samples[i])
            > threshold
}

pub open spec fn quantized_seq(samples: Seq<u32>, gain: u16) -> Seq<i16> {
    Seq::new(samples.len(), |i: int| quantized_value(samples[i], gain) as i16)
}

/// Quantizes one sample to 16-bit PCM after applying the gain.
pub fn quantize_sample(bits: u32, gain: u16) -> (r: i16)
    ensures
        r as int == quantized_value(bits, gain),
{
    let negative = bits >= 0x8000_0000;
    let magnitude = bits % 0x8000_0000;
    let exponent = magnitude / 0x80_0000;
    let fraction = magnitude % 0x80_0000;
    if exponent == 255 {
        if fraction != 0 || gain == 0 {
            return 0;
        }
        return if negative { PCM_MIN } else { PCM_MAX };
    }
    let limit: u64 = if negative { 32768 } else { 32767 };
    let sig: u64 = if exponent == 0 { fraction as u64 } else { fraction as u64 + 0x80_0000 };
    let e: u32 = if exponent == 0 { 1 } else { exponent };
    assert(sig < 0x100_0000);
    assert(sig * (gain as u64) < 0x100_0000 * 0x1_0000) by (nonlinear_arith)
        requires sig < 0x100_0000, gain < 0x1_0000;
    let m: u64 = sig * (gain as u64) * 32768;
    assert(m as nat == significand(bits) * gain * 32768);
    let scaled: u64;
    if e >= 150 {
        proof {
            lemma_pow2_pos((e - 150) as nat);
            let p = pow2((e - 150) as nat);
            assert(m * p >= m) by (nonlinear_arith) requires p >= 1;
            if m > 0 {
                assert(sig >= 0x80_0000);
                if gain == 0 {
                    assert(sig * 0 * 32768 == 0);
                }
                assert(sig * gain * 32768 >= 0x80_0000 * 1 * 32768) by (nonlinear_arith)
                    requires sig >= 0x80_0000, gain >= 1;
            }
        }
        scaled = if m == 0 { 0 } else { limit };
    } else {
        let shift: u32 = 150 - e;
        if shift >= 64 {
            proof {
                lemma2_to64();
                if shift > 64 {
                    vstd::arithmetic::power2::lemma_pow2_strictly_increases(64, shift as nat);
                }
                vstd::arithmetic::div_mod::lemma_basic_div(m as int, pow2(shift as nat) as int);
            }
            scaled = 0;
        } else {
            proof {
                lemma_u64_shr_is_div(m, shift as u64);
            }
            scaled = m >> (shift as u64);
        }
        proof {
            assert(scaled as nat == scaled_magnitude(bits, gain));
        }
    }
    let clamped: u64 = if scaled < limit { scaled } else { limit };
    if negative {
        (0i32 - clamped as i32) as i16
    } else {
        clamped as i16
    }
}

/// Largest absolute value, as a bit pattern, over the samples that are numbers
/// (0 when there is none): the peak amplitude of a buffer.
pub fn peak_amplitude(input: &[u32]) -> (r: u32)
    ensures
        forall|i: int|
            0 <= i < input@.len() && !is_nan(#[trigger] input@[i]) ==> magnitude_bits(input@[i])
                <= r,
        r == 0 || exists|i: int|
            0 <= i < input@.len() && !is_nan(#[trigger] input@[i]) && magnitude_bits(input@[i])
                == r,
{
    let mut peak: u32 = 0;
    let mut i: usize = 0;
    while i < input.len()
        invariant
            0 <= i <= input@.len(),
            forall|j: int|
                0 <= j < i && !is_nan(#[trigger] input@[j]) ==> magnitude_bits(input@[j]) <= peak,
            peak == 0 || exists|j: int|
                0 <= j < i && !is_nan(#[trigger] input@[j]) && magnitude_bits(input@[j]) == peak,
        decreases input@.len() - i,
    {
        let magnitude = input[i] % 0x8000_0000;
        if magnitude <= 0x7F80_0000 && magnitude > peak {
            peak = magnitude;
        }
        i += 1;
    }
    peak
}

/// The silence gate: whether the buffer's peak amplitude exceeds the threshold.
pub fn has_signal(input: &[u32], threshold: u32) -> (r: bool)
    ensures
        r == above_threshold(input@, threshold),
{
    let peak = peak_amplitude(input);
    proof {
        if above_threshold(input@, threshold) {
            let i = choose|i: int|
                0 <= i < input@.len() && !is_nan(#[trigger] input@[i]) && magnitude_bits(input@[i])
                    > threshold;
            assert(magnitude_bits(input@[i]) <= peak);
        }
    }
    peak > threshold
}

/// Appends the quantized form of every sample of `input` to `out`.
pub fn write_input_data(input: &[u32], gain: u16, out: &mut Vec<i16>)
    ensures
        final(out)@ == old(out)@ + quantized_seq(input@, gain),
{
    let mut i: usize = 0;
    while i < input.len()
        invariant
            0 <= i <= input@.len(),
            out@ == old(out)@ + quantized_seq(input@.subrange(0, i as int), gain),
        decreases input@.len() - i,
    {
        let q = quantize_sample(input[i], gain);
        out.push(q);
        proof {
            assert(quantized_seq(input@.subrange(0, i + 1), gain) =~= quantized_seq(
                input@.subrange(0, i as int),
                gain,
            ).push(q));
        }
        i += 1;
    }
    assert(input@.subrange(0, input@.len() as int) =~= input@);
}

/// What the encoder receives for one buffer: its quantized samples when the
/// buffer carries signal, nothing otherwise.
pub open spec fn gated_samples(input: Seq<u32>, gain: u16, threshold: u32) -> Seq<i16> {
    if above_threshold(input, threshold) {
        quantized_seq(input, gain)
    } else {
        Seq::empty()
    }
}

/// Negotiated stream parameters of a capture.
#[derive(Clone, Copy, Debug, PartialEq, Eq, Structural)]
pub struct CaptureConfig {
    pub sample_rate: u32,
    pub channels: u16,
}

/// Layout of the encoded PCM container.
#[derive(Clone, Copy, Debug, PartialEq, Eq, Structural)]
pub struct WavFormat {
    pub channels: u16,
    pub sample_rate: u32,
    pub bits_per_sample: u16,
}

/// The container layout for a capture: the capture's rate and channels,
/// 16-bit integer samples.
pub fn wav_spec_from_config(config: &CaptureConfig) -> (r: WavFormat)
    ensures
        r.channels == config.channels,
        r.sample_rate == config.sample_rate,
        r.bits_per_sample == 16,
{
    WavFormat { channels: config.channels, sample_rate: config.sample_rate, bits_per_sample: 16 }
}

/// One capture: its configuration, gain and silence threshold, and how many
/// samples it has handed to the encoder.
pub struct CaptureSession {
    pub config: CaptureConfig,
    pub gain: u16,
    pub threshold: u32,
    pub samples_written: u64,
    pub open: bool,
}

impl CaptureSession {
    pub fn open(config: CaptureConfig, gain: u16, threshold: u32) -> (r: CaptureSession)
        ensures
            r.config == config,
            r.gain == gain,
            r.threshold == threshold,
            r.samples_written == 0,
            r.open,
    {
        CaptureSession { config, gain, threshold, samples_written: 0, open: true }
    }

    pub fn format(&self) -> (r: WavFormat)
        ensures
            r.channels == self.config.channels,
            r.sample_rate == self.config.sample_rate,
            r.bits_per_sample == 16,
    {
        wav_spec_from_config(&self.config)
    }

    /// Handles one buffer from the stream: the samples to hand to the encoder.
    /// A closed session forwards nothing.
    pub fn on_data(&mut self, input: &[u32]) -> (r: Vec<i16>)
        requires
            old(self).samples_written + input@.len() <= u64::MAX,
        ensures
            r@ == (if old(self).open {
                gated_samples(input@, old(self).gain, old(self).threshold)
            } else {
                Seq::empty()
            }),
            final(self).samples_written == old(self).samples_written + r@.len(),
            final(self).config == old(self).config,
            final(self).gain == old(self).gain,
            final(self).threshold == old(self).threshold,
            final(self).open == old(self).open,
    {
        let mut out: Vec<i16> = Vec::new();
        if self.open && has_signal(input, self.threshold) {
            write_input_data(input, self.gain, &mut out);
            assert(out@ =~= quantized_seq(input@, self.gain));
        } else {
            assert(out@ =~= Seq::<i16>::empty());
        }
        self.samples_written = self.samples_written + out.len() as u64;
        out
    }

    /// Closes the session: the number of samples handed to the encoder.
    /// Closing twice is a lifecycle error.
    pub fn close(&mut self) -> (r: Result<u64, AudioError>)
        ensures
            old(self).open ==> r == Ok::<u64, AudioError>(old(self).samples_written),
            !old(self).open ==> r == Err::<u64, AudioError>(AudioError::NotStarted),
            !final(self).open,
            final(self).samples_written == old(self).samples_written,
            final(self).config == old(self).config,
            final(self).gain == old(self).gain,
            final(self).threshold == old(self).threshold,
    {
        if self.open {
            self.open = false;
            Ok(self.samples_written)
        } else {
            Err(AudioError::NotStarted)
        }
    }
}

/// A buffer whose samples all have an absolute value at or below the
/// threshold (or are NaN) forwards no sample to the encoder, whatever the gain.
pub proof fn lemma_quiet_buffer_forwards_nothing(input: Seq<u32>, gain: u16, threshold: u32)
    requires
        forall|i: int|
            0 <= i < input.len() ==> is_nan(#[trigger] input[i]) || magnitude_bits(input[i])
                <= threshold,
    ensures
        gated_samples(input, gain, threshold).len() == 0,
{
}

/// Whether `|x| * gain >= 1` for the sample `x`: its absolute value is
/// `significand * 2^(scale_exponent - 150)`; infinity reaches it at any
/// non-zero gain.
pub open spec fn reaches_full_scale(bits: u32, gain: u16) -> bool {
    if exponent_field(bits) == 255 {
        gain > 0
    } else {
        significand(bits) * gain * pow2(scale_exponent(bits)) >= pow2(150)
    }
}

/// Saturation: a sample that is a number and whose product with the gain is
/// at least `1.0` maps to the largest PCM sample, and one whose product is at
/// most `-1.0` maps to the smallest; values outside `[-1, 1]` clamp, never wrap.
pub proof fn lemma_full_scale_saturates(bits: u32, gain: u16)
    requires
        !is_nan(bits),
        reaches_full_scale(bits, gain),
    ensures
        quantized_value(bits, gain) == if is_negative(bits) { PCM_MIN } else { PCM_MAX },
{
    if exponent_field(bits) != 255 {
        let sig = significand(bits);
        let e = scale_exponent(bits);
        let m: nat = (sig * gain * 32768) as nat;
        lemma_pow2_pos(e);
        if gain == 0 {
            let pe = pow2(e);
            assert(sig * gain * pe == 0) by (nonlinear_arith)
                requires gain == 0;
            lemma_pow2_pos(150);
        }
        if e >= 150 {
            assert(sig >= 0x80_0000);
            let p = pow2((e - 150) as nat);
            lemma_pow2_pos((e - 150) as nat);
            assert(m * p >= m) by (nonlinear_arith)
                requires p >= 1;
            assert(sig * gain * 32768 >= 0x80_0000 * 1 * 32768) by (nonlinear_arith)
                requires sig >= 0x80_0000, gain >= 1;
        } else {
            let d = (150 - e) as nat;
            vstd::arithmetic::power2::lemma_pow2_adds(e, d);
            let pe = pow2(e);
            let pd = pow2(d);
            lemma_pow2_pos(d);
            assert(sig * gain >= pd) by (nonlinear_arith)
                requires sig * gain * pe >= pe * pd, pe > 0;
            assert(m >= pd * 32768) by (nonlinear_arith)
                requires m == sig * gain * 32768, sig * gain >= pd;
            vstd::arithmetic::div_mod::lemma_div_is_ordered((pd * 32768) as int, m as int, pd as int);
            vstd::arithmetic::div_mod::lemma_div_multiples_vanish(32768, pd as int);
            assert(32768 * pd == pd * 32768) by (nonlinear_arith);
        }
    }
}

/// Full-scale samples: `1.0` times any gain of at least one maps to the
/// largest PCM sample, and `-1.0` times any gain of at least one to the
/// smallest.
pub proof fn lemma_unit_samples_map_to_range_ends(gain: u16)
    requires
        gain >= 1,
    ensures
        quantized_value(ONE_BITS, gain) == PCM_MAX,
        quantized_value(MINUS_ONE_BITS, gain) == PCM_MIN,
{
    lemma2_to64();
    vstd::arithmetic::power2::lemma_pow2_adds(127, 23);
    assert(significand(ONE_BITS) == 0x80_0000);
    assert(scale_exponent(ONE_BITS) == 127);
    assert(significand(MINUS_ONE_BITS) == 0x80_0000);
    assert(scale_exponent(MINUS_ONE_BITS) == 127);
    let p = pow2(127);
    assert(0x80_0000 * gain * p >= 0x80_0000 * p) by (nonlinear_arith)
        requires gain >= 1, p >= 0;
    assert(0x80_0000 * p == p * pow2(23));
    lemma_full_scale_saturates(ONE_BITS, gain);
    lemma_full_scale_saturates(MINUS_ONE_BITS, gain);
}

/// The order of binary32 values, for samples that are not NaN (`-0` and `+0`
/// are equal).
pub open spec fn sample_le(a: u32, b: u32) -> bool {
    if is_negative(a) && is_negative(b) {
        magnitude_bits(a) >= magnitude_bits(b)
    } else if !is_negative(a) && !is_negative(b) {
        magnitude_bits(a) <= magnitude_bits(b)
    } else if is_negative(a) {
        true
    } else {
        magnitude_bits(a) == 0 && magnitude_bits(b) == 0
    }
}

proof fn lemma_magnitude_order(a: u32, b: u32)
    requires
        exponent_field(a) != 255,
        exponent_field(b) != 255,
        magnitude_bits(a) <= magnitude_bits(b),
    ensures
        significand(a) * pow2(scale_exponent(a)) <= significand(b) * pow2(scale_exponent(b)),
{
    let (sa, sb) = (significand(a), significand(b));
    let (ea, eb) = (scale_exponent(a), scale_exponent(b));
    lemma_pow2_pos(ea);
    lemma_pow2_pos(eb);
    if exponent_field(a) == exponent_field(b) {
        assert(sa <= sb);
        let p = pow2(ea);
        assert(sa * p <= sb * p) by (nonlinear_arith)
            requires sa <= sb;
    } else {
        assert(exponent_field(a) < exponent_field(b));
        assert(sb >= 0x80_0000);
        if ea == eb {
            let p = pow2(ea);
            assert(sa < 0x80_0000);
            assert(sa * p <= sb * p) by (nonlinear_arith)
                requires sa <= sb;
        } else {
            assert(ea < eb);
            assert(sa < 0x100_0000);
            lemma2_to64();
            vstd::arithmetic::power2::lemma_pow2_adds(ea, 1);
            if ea + 1 < eb {
                vstd::arithmetic::power2::lemma_pow2_strictly_increases((ea + 1) as nat, eb);
            }
            let pa = pow2(ea);
            let pa1 = pow2((ea + 1) as nat);
            let pb = pow2(eb);
            assert(sa * pa <= 0x100_0000 * pa) by (nonlinear_arith)
                requires sa < 0x100_0000, pa > 0;
            assert(0x100_0000 * pa == 0x80_0000 * pa1);
            assert(0x80_0000 * pa1 <= sb * pb) by (nonlinear_arith)
                requires sb >= 0x80_0000, pa1 <= pb, pa1 > 0;
        }
    }
}

proof fn lemma_scaled_is_quotient(bits: u32, gain: u16)
    requires
        exponent_field(bits) != 255,
    ensures
        scaled_magnitude(bits, gain) == (significand(bits) * gain * 32768 * pow2(
            scale_exponent(bits),
        )) / (pow2(150) as int),
{
    let m: int = significand(bits) * gain * 32768;
    let e = scale_exponent(bits);
    lemma_pow2_pos(e);
    lemma_pow2_pos(150);
    if e >= 150 {
        let d = (e - 150) as nat;
        vstd::arithmetic::power2::lemma_pow2_adds(d, 150);
        let pd = pow2(d);
        let p150 = pow2(150);
        assert(m * (pd * p150) == (m * pd) * p150) by (nonlinear_arith);
        vstd::arithmetic::div_mod::lemma_div_multiples_vanish(m * pd, p150 as int);
        assert(p150 * (m * pd) == (m * pd) * p150) by (nonlinear_arith);
    } else {
        let d = (150 - e) as nat;
        vstd::arithmetic::power2::lemma_pow2_adds(e, d);
        let pd = pow2(d);
        let pe = pow2(e);
        lemma_pow2_pos(d);
        vstd::arithmetic::div_mod::lemma_div_multiples_vanish_quotient(pe as int, m, pd as int);
        assert(pe * m == m * pe) by (nonlinear_arith);
        assert(pe * pd == pow2(150));
    }
}

proof fn lemma_scaled_monotone(a: u32, b: u32, gain: u16)
    requires
        exponent_field(a) != 255,
        exponent_field(b) != 255,
        magnitude_bits(a) <= magnitude_bits(b),
    ensures
        scaled_magnitude(a, gain) <= scaled_magnitude(b, gain),
{
    lemma_magnitude_order(a, b);
    lemma_scaled_is_quotient(a, gain);
    lemma_scaled_is_quotient(b, gain);
    lemma_pow2_pos(150);
    let xa = significand(a) * pow2(scale_exponent(a));
    let xb = significand(b) * pow2(scale_exponent(b));
    let k: int = gain * 32768;
    assert(significand(a) * gain * 32768 * pow2(scale_exponent(a)) == k * xa) by (nonlinear_arith)
        requires k == gain * 32768, xa == significand(a) * pow2(scale_exponent(a));
    assert(significand(b) * gain * 32768 * pow2(scale_exponent(b)) == k * xb) by (nonlinear_arith)
        requires k == gain * 32768, xb == significand(b) * pow2(scale_exponent(b));
    assert(k * xa <= k * xb) by (nonlinear_arith)
        requires xa <= xb, k >= 0;
    vstd::arithmetic::div_mod::lemma_div_is_ordered(k * xa, k * xb, pow2(150) as int);
}

proof fn lemma_scaled_zero(bits: u32, gain: u16)
    requires
        exponent_field(bits) != 255,
        gain == 0 || significand(bits) == 0,
    ensures
        scaled_magnitude(bits, gain) == 0,
{
    lemma_scaled_is_quotient(bits, gain);
    lemma_pow2_pos(150);
    let p = pow2(scale_exponent(bits));
    assert(significand(bits) * gain * 32768 * p == 0) by (nonlinear_arith)
        requires gain == 0 || significand(bits) == 0;
    vstd::arithmetic::div_mod::lemma_basic_div(0, pow2(150) as int);
}

/// Quantization keeps the order of samples: of two samples that are numbers,
/// the larger never maps to the smaller PCM value.
pub proof fn lemma_quantization_monotone(a: u32, b: u32, gain: u16)
    requires
        !is_nan(a),
        !is_nan(b),
        sample_le(a, b),
    ensures
        quantized_value(a, gain) <= quantized_value(b, gain),
{
    let fa = exponent_field(a) != 255;
    let fb = exponent_field(b) != 255;
    if fa && gain == 0 {
        lemma_scaled_zero(a, gain);
    }
    if fb && gain == 0 {
        lemma_scaled_zero(b, gain);
    }
    if fa && fb {
        if is_negative(a) && is_negative(b) {
            lemma_scaled_monotone(b, a, gain);
        } else if !is_negative(a) && !is_negative(b) {
            lemma_scaled_monotone(a, b, gain);
        } else if !is_negative(a) {
            lemma_scaled_zero(a, gain);
            lemma_scaled_zero(b, gain);
        }
    } else if fa {
        if is_negative(b) {
            assert(magnitude_bits(a) >= magnitude_bits(b) || magnitude_bits(b) == 0);
        }
    } else if fb {
        if !is_negative(a) {
            assert(magnitude_bits(a) <= magnitude_bits(b) || magnitude_bits(a) == 0);
        }
    }
}

} // verus!
