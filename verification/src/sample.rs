//! Fixed-point PCM samples.
//!
//! A sample is an `i32` in units of `1 / FULL_SCALE`: the value `FULL_SCALE`
//! stands for the amplitude +1.0 and `-FULL_SCALE` for -1.0.  The nominal range
//! is `-FULL_SCALE ..= FULL_SCALE`; an `i32` has one bit of headroom above it,
//! so out-of-range input can be carried and is brought back by clamping.
//!
//! Capture back-ends deliver IEEE-754 single-precision words, signed 16-bit or
//! unsigned 16-bit PCM.  This module turns each of them into samples, with
//! integer arithmetic only, and averages interleaved channels into mono.

use vstd::arithmetic::power2::{lemma2_to64, lemma_pow2_pos, lemma_pow2_unfold, pow2};
use vstd::prelude::*;

verus! {

/// The sample value that stands for the amplitude 1.0.
pub const FULL_SCALE: i32 = 0x4000_0000;

/// `x` limited to the nominal range.
pub open spec fn clamp_sample(x: int) -> int {
    if x < -(FULL_SCALE as int) {
        -(FULL_SCALE as int)
    } else if x > FULL_SCALE as int {
        FULL_SCALE as int
    } else {
        x
    }
}

/// Whether `x` lies in the nominal range.
pub open spec fn in_range(x: int) -> bool {
    -(FULL_SCALE as int) <= x <= FULL_SCALE as int
}

/// The quotient of `n` by a positive `d`, rounded toward zero.
pub open spec fn div_toward_zero(n: int, d: int) -> int
    recommends
        d > 0,
{
    if n >= 0 {
        n / d
    } else {
        -((-n) / d)
    }
}

/// The average of two samples, rounded toward zero and clamped.
pub open spec fn mix_pair(a: i32, b: i32) -> i32 {
    clamp_sample(div_toward_zero(a as int + b as int, 2)) as i32
}

/// Every sample of `s` clamped to the nominal range.
pub open spec fn sanitized(s: Seq<i32>) -> Seq<i32> {
    Seq::new(s.len(), |i: int| clamp_sample(s[i] as int) as i32)
}

/// Whether every sample of `s` lies in the nominal range.
pub open spec fn all_in_range(s: Seq<i32>) -> bool {
    forall|i: int| 0 <= i < s.len() ==> in_range(#[trigger] s[i] as int)
}

/// Sanitizing twice is sanitizing once, and samples of the nominal range
/// pass unchanged.
pub proof fn lemma_sanitized_twice(s: Seq<i32>)
    ensures
        all_in_range(sanitized(s)),
        sanitized(sanitized(s)) == sanitized(s),
        all_in_range(s) ==> sanitized(s) == s,
{
    assert(sanitized(sanitized(s)) =~= sanitized(s));
    if all_in_range(s) {
        assert(sanitized(s) =~= s);
    }
}

/// The mix of two samples of the nominal range is their average, rounded
/// toward zero: there is nothing to clamp.  It lies between the two.
pub proof fn lemma_mix_is_average(a: i32, b: i32)
    requires
        in_range(a as int),
        in_range(b as int),
    ensures
        mix_pair(a, b) as int == div_toward_zero(a as int + b as int, 2),
        a <= b ==> a <= mix_pair(a, b) <= b,
        mix_pair(a, b) == mix_pair(b, a),
        mix_pair(a, a) == a,
{
}

/// Limits a value to the nominal range of samples.
pub fn clamp_to_range(x: i64) -> (r: i32)
    ensures
        r as int == clamp_sample(x as int),
        in_range(r as int),
{
    if x < -(FULL_SCALE as i64) {
        -FULL_SCALE
    } else if x > FULL_SCALE as i64 {
        FULL_SCALE
    } else {
        x as i32
    }
}

/// Averages one system sample with one microphone sample.
pub fn mix_samples(a: i32, b: i32) -> (r: i32)
    ensures
        r == mix_pair(a, b),
        in_range(r as int),
{
    let sum: i64 = a as i64 + b as i64;
    clamp_to_range(sum / 2)
}

/// Clamps every sample of a chunk to the nominal range.
pub fn sanitize(samples: &[i32]) -> (clean: Vec<i32>)
    ensures
        clean@ == sanitized(samples@),
        all_in_range(clean@),
{
    let mut clean: Vec<i32> = Vec::with_capacity(samples.len());
    let mut i: usize = 0;
    while i < samples.len()
        invariant
            i <= samples.len(),
            clean.len() == i,
            forall|j: int| 0 <= j < i ==> clean[j] as int == clamp_sample(samples[j] as int),
        decreases samples.len() - i,
    {
        clean.push(clamp_to_range(samples[i] as i64));
        i += 1;
    }
    clean
}

// ---------------------------------------------------------------------------
// IEEE-754 single-precision words
// ---------------------------------------------------------------------------

/// The biased exponent field of a single-precision word.
pub open spec fn ieee_exponent(bits: u32) -> int {
    (bits as int / 0x80_0000) % 256
}

/// The 23-bit fraction field of a single-precision word.
pub open spec fn ieee_fraction(bits: u32) -> int {
    bits as int % 0x80_0000
}

/// Whether the sign bit of a single-precision word is set.
pub open spec fn ieee_negative(bits: u32) -> bool {
    bits >= 0x8000_0000u32
}

/// Whether the word encodes a number, rather than an infinity or a NaN.
pub open spec fn ieee_is_finite(bits: u32) -> bool {
    ieee_exponent(bits) != 255
}

/// The magnitude of the sample that a single-precision word stands for.
///
/// A normal number with biased exponent `e` and fraction `f` has the magnitude
/// `(2^23 + f) * 2^(e - 150)`, which is `(2^23 + f) * 2^(e - 120)` in sample
/// units.  Magnitudes of 1.0 and above saturate at `FULL_SCALE`, bits below
/// one sample unit are dropped, and a word that is not finite counts as zero.
pub open spec fn ieee_magnitude(bits: u32) -> int {
    let e = ieee_exponent(bits);
    let m = ieee_fraction(bits) + 0x80_0000;
    if e == 255 {
        0
    } else if e >= 127 {
        FULL_SCALE as int
    } else if e == 0 {
        0
    } else if e >= 120 {
        m * pow2((e - 120) as nat)
    } else {
        m / (pow2((120 - e) as nat) as int)
    }
}

/// The sample that a single-precision word stands for, sanitized: a word that
/// is not finite gives silence and the rest is clamped to the nominal range.
pub open spec fn sample_of_ieee(bits: u32) -> i32 {
    if ieee_negative(bits) {
        (-ieee_magnitude(bits)) as i32
    } else {
        ieee_magnitude(bits) as i32
    }
}

/// The samples that a chunk of single-precision words stands for.
pub open spec fn samples_of_ieee(words: Seq<u32>) -> Seq<i32> {
    Seq::new(words.len(), |i: int| sample_of_ieee(words[i]))
}

/// The magnitude of every word is a sample in the nominal range.
pub proof fn lemma_ieee_magnitude_bounds(bits: u32)
    ensures
        0 <= ieee_magnitude(bits) <= FULL_SCALE,
        !ieee_is_finite(bits) ==> ieee_magnitude(bits) == 0,
        ieee_exponent(bits) >= 127 && ieee_is_finite(bits) ==> ieee_magnitude(bits) == FULL_SCALE,
{
    let e = ieee_exponent(bits);
    let m = ieee_fraction(bits) + 0x80_0000;
    if 120 <= e < 127 {
        let k = (e - 120) as nat;
        lemma2_to64();
        assert(pow2(k) <= 64) by {
            if k == 0 {
            } else if k == 1 {
            } else if k == 2 {
            } else if k == 3 {
            } else if k == 4 {
            } else if k == 5 {
            } else {
                assert(k == 6);
            }
        }
        assert(m * pow2(k) <= 0x100_0000 * 64) by (nonlinear_arith)
            requires
                0 <= m < 0x100_0000,
                0 < pow2(k) <= 64,
        ;
        assert(0 <= m * pow2(k)) by (nonlinear_arith)
            requires
                0 <= m,
                0 < pow2(k),
        ;
    } else if 0 < e < 120 {
        let k = (120 - e) as nat;
        lemma_pow2_pos(k);
        let d = pow2(k) as int;
        assert(0 <= m / d <= m) by (nonlinear_arith)
            requires
                0 <= m,
                d > 0,
        ;
    }
}

/// `words` with every word that is not finite replaced by the word of 0.0.
pub open spec fn silenced(words: Seq<u32>) -> Seq<u32> {
    Seq::new(words.len(), |i: int| if ieee_is_finite(words[i]) { words[i] } else { 0u32 })
}

/// A word that is not finite decodes as the word of 0.0 does: a chunk gives
/// the samples that it would give with silence in the place of every NaN and
/// infinity.
pub proof fn lemma_non_finite_is_silence(words: Seq<u32>)
    ensures
        samples_of_ieee(words) == samples_of_ieee(silenced(words)),
        forall|i: int|
            0 <= i < words.len() && !ieee_is_finite(words[i]) ==> (#[trigger] samples_of_ieee(
                words,
            )[i]) == 0,
{
    assert(sample_of_ieee(0u32) == 0);
    assert forall|i: int| 0 <= i < words.len() implies sample_of_ieee(words[i]) == sample_of_ieee(
        #[trigger] silenced(words)[i],
    ) by {
        lemma_ieee_magnitude_bounds(words[i]);
    }
    assert(samples_of_ieee(words) =~= samples_of_ieee(silenced(words)));
    assert forall|i: int| 0 <= i < words.len() && !ieee_is_finite(words[i]) implies (
    #[trigger] samples_of_ieee(words)[i]) == 0 by {
        lemma_ieee_magnitude_bounds(words[i]);
    }
}

/// Decodes one IEEE-754 single-precision word into a sanitized sample.
pub fn sample_from_ieee(bits: u32) -> (r: i32)
    ensures
        r == sample_of_ieee(bits),
        in_range(r as int),
        !ieee_is_finite(bits) ==> r == 0,
{
    proof {
        lemma_ieee_magnitude_bounds(bits);
    }
    let e: u32 = (bits / 0x80_0000) % 256;
    let m: u32 = bits % 0x80_0000 + 0x80_0000;
    let negative: bool = bits >= 0x8000_0000;
    let mut mag: u32 = m;
    if e == 255 {
        mag = 0;
    } else if e >= 127 {
        mag = 0x4000_0000;
    } else if e == 0 {
        mag = 0;
    } else if e >= 120 {
        let mut k: u32 = 0;
        proof {
            lemma2_to64();
        }
        while k < e - 120
            invariant
                120 <= e < 127,
                k <= e - 120,
                0x80_0000 <= m < 0x100_0000,
                mag as int == m * pow2(k as nat),
                mag as int <= m * 64,
                pow2(k as nat) <= pow2((e - 120) as nat) <= 64,
            decreases e - 120 - k,
        {
            proof {
                lemma_pow2_unfold((k + 1) as nat);
                lemma_pow2_monotone_small((k + 1) as nat, (e - 120) as nat);
                assert(m * (2 * pow2(k as nat)) == 2 * (m * pow2(k as nat))) by (nonlinear_arith);
                assert(m * pow2((k + 1) as nat) <= m * 64) by (nonlinear_arith)
                    requires
                        0 <= m,
                        pow2((k + 1) as nat) <= 64,
                ;
            }
            mag = mag * 2;
            k += 1;
        }
    } else {
        let mut k: u32 = 0;
        proof {
            lemma2_to64();
        }
        while k < 120 - e
            invariant
                0 < e < 120,
                k <= 120 - e,
                m < 0x100_0000,
                mag as int == m as int / (pow2(k as nat) as int),
            decreases 120 - e - k,
        {
            proof {
                lemma_pow2_unfold((k + 1) as nat);
                lemma_pow2_pos(k as nat);
                lemma_div_twice(m as int, pow2(k as nat) as int);
            }
            mag = mag / 2;
            k += 1;
        }
    }
    if negative {
        -(mag as i32)
    } else {
        mag as i32
    }
}

proof fn lemma_pow2_monotone_small(a: nat, b: nat)
    requires
        a <= b,
    ensures
        pow2(a) <= pow2(b),
    decreases b - a,
{
    if a < b {
        lemma_pow2_monotone_small(a, (b - 1) as nat);
        lemma_pow2_unfold(b);
    }
}

proof fn lemma_div_twice(m: int, d: int)
    requires
        0 <= m,
        0 < d,
    ensures
        (m / d) / 2 == m / (2 * d),
{
    vstd::arithmetic::div_mod::lemma_div_denominator(m, d, 2);
    assert(d * 2 == 2 * d);
}

/// Decodes a chunk of IEEE-754 single-precision words into sanitized samples.
pub fn samples_from_ieee(words: &[u32]) -> (samples: Vec<i32>)
    ensures
        samples@ == samples_of_ieee(words@),
        all_in_range(samples@),
{
    let mut samples: Vec<i32> = Vec::with_capacity(words.len());
    let mut i: usize = 0;
    while i < words.len()
        invariant
            i <= words.len(),
            samples.len() == i,
            forall|j: int| 0 <= j < i ==> samples[j] == sample_of_ieee(#[trigger] words[j]),
            forall|j: int| 0 <= j < i ==> in_range(#[trigger] samples[j] as int),
        decreases words.len() - i,
    {
        samples.push(sample_from_ieee(words[i]));
        i += 1;
    }
    samples
}

// ---------------------------------------------------------------------------
// 16-bit PCM
// ---------------------------------------------------------------------------

/// The sample that a signed 16-bit value stands for: `s / 32767` of full scale.
pub open spec fn sample_of_i16(s: i16) -> i32 {
    div_toward_zero(s as int * FULL_SCALE as int, 32767) as i32
}

/// The sample that an unsigned 16-bit value stands for: `(s - 32768) / 32768`
/// of full scale.
pub open spec fn sample_of_u16(s: u16) -> i32 {
    ((s as int - 32768) * 32768) as i32
}

/// The samples that a chunk of signed 16-bit values stands for.
pub open spec fn samples_of_i16(data: Seq<i16>) -> Seq<i32> {
    Seq::new(data.len(), |i: int| sample_of_i16(data[i]))
}

/// The samples that a chunk of unsigned 16-bit values stands for.
pub open spec fn samples_of_u16(data: Seq<u16>) -> Seq<i32> {
    Seq::new(data.len(), |i: int| sample_of_u16(data[i]))
}

/// Turns a signed 16-bit value into a sample.
pub fn sample_from_i16(s: i16) -> (r: i32)
    ensures
        r == sample_of_i16(s),
{
    assert(-32768 * 0x4000_0000 <= (s as int) * 0x4000_0000 <= 32767 * 0x4000_0000)
        by (nonlinear_arith)
        requires
            -32768 <= s as int <= 32767,
    ;
    let scaled: i64 = (s as i64) * (FULL_SCALE as i64);
    let q: i64 = scaled / 32767;
    q as i32
}

/// Turns an unsigned 16-bit value into a sample.
pub fn sample_from_u16(s: u16) -> (r: i32)
    ensures
        r == sample_of_u16(s),
        in_range(r as int),
{
    (s as i32 - 32768) * 32768
}

/// Turns a chunk of signed 16-bit values into samples.
pub fn samples_from_i16(data: &[i16]) -> (samples: Vec<i32>)
    ensures
        samples@ == samples_of_i16(data@),
{
    let mut samples: Vec<i32> = Vec::with_capacity(data.len());
    let mut i: usize = 0;
    while i < data.len()
        invariant
            i <= data.len(),
            samples.len() == i,
            forall|j: int| 0 <= j < i ==> samples[j] == sample_of_i16(#[trigger] data[j]),
        decreases data.len() - i,
    {
        samples.push(sample_from_i16(data[i]));
        i += 1;
    }
    samples
}

/// Turns a chunk of unsigned 16-bit values into samples.
pub fn samples_from_u16(data: &[u16]) -> (samples: Vec<i32>)
    ensures
        samples@ == samples_of_u16(data@),
{
    let mut samples: Vec<i32> = Vec::with_capacity(data.len());
    let mut i: usize = 0;
    while i < data.len()
        invariant
            i <= data.len(),
            samples.len() == i,
            forall|j: int| 0 <= j < i ==> samples[j] == sample_of_u16(#[trigger] data[j]),
        decreases data.len() - i,
    {
        samples.push(sample_from_u16(data[i]));
        i += 1;
    }
    samples
}

// ---------------------------------------------------------------------------
// Downmix
// ---------------------------------------------------------------------------

/// The sum of `count` consecutive samples of `data`, from index `start` on.
pub open spec fn frame_sum(data: Seq<i32>, start: int, count: int) -> int
    decreases count,
{
    if count <= 0 {
        0
    } else {
        frame_sum(data, start, count - 1) + data[start + count - 1] as int
    }
}

/// The mono sample of frame number `frame` of interleaved data: the average of
/// its channels, rounded toward zero and clamped.
pub open spec fn downmix_frame(data: Seq<i32>, frame: int, channels: int) -> i32 {
    clamp_sample(div_toward_zero(frame_sum(data, frame * channels, channels), channels)) as i32
}

/// Interleaved data averaged into mono, one sample per complete frame.  Data
/// with one channel is mono already and stays as it is.
pub open spec fn downmixed(data: Seq<i32>, channels: int) -> Seq<i32>
    recommends
        channels >= 1,
{
    if channels == 1 {
        data
    } else {
        Seq::new((data.len() as int / channels) as nat, |f: int| downmix_frame(data, f, channels))
    }
}

proof fn lemma_frame_sum_bounds(data: Seq<i32>, start: int, count: int)
    requires
        0 <= start,
        0 <= count,
        start + count <= data.len(),
    ensures
        -0x8000_0000 * count <= frame_sum(data, start, count) <= 0x7fff_ffff * count,
    decreases count,
{
    if count > 0 {
        lemma_frame_sum_bounds(data, start, count - 1);
        assert(-0x8000_0000 * count == -0x8000_0000 * (count - 1) - 0x8000_0000) by (nonlinear_arith);
        assert(0x7fff_ffff * count == 0x7fff_ffff * (count - 1) + 0x7fff_ffff) by (nonlinear_arith);
    }
}

/// Averages the channels of one frame, which starts at index `start`.
fn average_frame(data: &[i32], start: usize, channels: usize) -> (r: i32)
    requires
        channels >= 1,
        start + channels <= data.len(),
    ensures
        r as int == clamp_sample(
            div_toward_zero(frame_sum(data@, start as int, channels as int), channels as int),
        ),
        in_range(r as int),
{
    let mut sum: i128 = 0;
    let mut c: usize = 0;
    while c < channels
        invariant
            c <= channels,
            start + channels <= data.len(),
            sum as int == frame_sum(data@, start as int, c as int),
            -0x8000_0000 * (c as int) <= sum as int <= 0x7fff_ffff * (c as int),
        decreases channels - c,
    {
        proof {
            lemma_frame_sum_bounds(data@, start as int, (c + 1) as int);
            assert(0x7fff_ffff * ((c + 1) as int) <= 0x7fff_ffff * 0xffff_ffff_ffff_ffff)
                by (nonlinear_arith)
                requires
                    c + 1 <= 0xffff_ffff_ffff_ffff,
            ;
            assert(-0x8000_0000 * ((c + 1) as int) >= -0x8000_0000 * 0xffff_ffff_ffff_ffff)
                by (nonlinear_arith)
                requires
                    c + 1 <= 0xffff_ffff_ffff_ffff,
            ;
        }
        sum = sum + data[start + c] as i128;
        c += 1;
    }
    let avg: i128 = sum / (channels as i128);
    if avg < -(FULL_SCALE as i128) {
        -FULL_SCALE
    } else if avg > FULL_SCALE as i128 {
        FULL_SCALE
    } else {
        avg as i32
    }
}

/// Averages interleaved samples of `channels` channels into mono.
///
/// Each complete frame of `channels` samples gives one mono sample; a
/// trailing incomplete frame is dropped.  Data with one channel is copied.
pub fn downmix(data: &[i32], channels: usize) -> (mono: Vec<i32>)
    requires
        channels >= 1,
    ensures
        mono@ == downmixed(data@, channels as int),
        channels > 1 ==> all_in_range(mono@),
{
    if channels == 1 {
        let mut copy: Vec<i32> = Vec::with_capacity(data.len());
        copy.extend_from_slice(data);
        assert(copy@ =~= data@);
        return copy;
    }
    let frames: usize = data.len() / channels;
    let mut mono: Vec<i32> = Vec::with_capacity(frames);
    let mut f: usize = 0;
    proof {
        vstd::arithmetic::div_mod::lemma_fundamental_div_mod(data.len() as int, channels as int);
    }
    while f < frames
        invariant
            f <= frames,
            channels > 1,
            frames as int == data.len() as int / (channels as int),
            (channels as int) * (frames as int) <= data.len(),
            mono.len() == f,
            forall|j: int|
                0 <= j < f ==> #[trigger] mono[j] == downmix_frame(data@, j, channels as int),
            forall|j: int| 0 <= j < f ==> in_range(#[trigger] mono[j] as int),
        decreases frames - f,
    {
        assert((f + 1) * channels <= data.len() && f * channels >= 0) by (nonlinear_arith)
            requires
                f + 1 <= frames,
                channels * frames <= data.len(),
                channels > 0,
        ;
        assert((f + 1) * channels == f * channels + channels) by (nonlinear_arith);
        let start: usize = f * channels;
        let avg: i32 = average_frame(data, start, channels);
        mono.push(avg);
        f += 1;
    }
    assert(mono@ =~= downmixed(data@, channels as int));
    mono
}

/// Averages interleaved multi-channel samples into mono.
pub fn downmix_to_mono(data: &[i32], channels: u16) -> (mono: Vec<i32>)
    requires
        channels >= 1,
    ensures
        mono@ == downmixed(data@, channels as int),
        channels > 1 ==> all_in_range(mono@),
{
    downmix(data, channels as usize)
}

// ---------------------------------------------------------------------------
// Words as they come: averaged first, sanitized after
// ---------------------------------------------------------------------------

/// The greatest magnitude that a sample carries: just below the amplitude
/// 2.0.
pub const HEADROOM: i32 = 0x7fff_ffff;

/// The magnitude of the sample that carries a single-precision word on to
/// where it is averaged or mixed.
///
/// It is the magnitude of the word in sample units, as `ieee_magnitude`
/// gives it, but for this: magnitudes from 1.0 to below 2.0 are kept as they
/// are, and those of 2.0 and above saturate at `HEADROOM`.  A word that is
/// not finite counts as zero.
pub open spec fn ieee_carried_magnitude(bits: u32) -> int {
    let e = ieee_exponent(bits);
    if e == 255 {
        0
    } else if e >= 128 {
        HEADROOM as int
    } else if e == 127 {
        (ieee_fraction(bits) + 0x80_0000) * 128
    } else {
        ieee_magnitude(bits)
    }
}

/// The sample that carries a single-precision word: not clamped to the
/// nominal range.
pub open spec fn carried_of_ieee(bits: u32) -> i32 {
    if ieee_negative(bits) {
        (-ieee_carried_magnitude(bits)) as i32
    } else {
        ieee_carried_magnitude(bits) as i32
    }
}

/// The samples that carry a chunk of single-precision words.
pub open spec fn carried_of(words: Seq<u32>) -> Seq<i32> {
    Seq::new(words.len(), |i: int| carried_of_ieee(words[i]))
}

/// Clamping comes to the same before and after: the sample that carries a
/// word, clamped, is the sanitized sample of the word.
pub proof fn lemma_carried_then_clamped(bits: u32)
    ensures
        clamp_sample(carried_of_ieee(bits) as int) == sample_of_ieee(bits) as int,
        -(HEADROOM as int) <= carried_of_ieee(bits) as int <= HEADROOM as int,
        !ieee_is_finite(bits) ==> carried_of_ieee(bits) == 0,
{
    lemma_ieee_magnitude_bounds(bits);
}

/// Sanitizing the samples that carry a chunk of words gives the sanitized
/// samples of the words.
pub proof fn lemma_carried_then_sanitized(words: Seq<u32>)
    ensures
        sanitized(carried_of(words)) == samples_of_ieee(words),
{
    assert forall|i: int| 0 <= i < words.len() implies #[trigger] sanitized(carried_of(words))[i]
        == samples_of_ieee(words)[i] by {
        lemma_carried_then_clamped(words[i]);
    }
    assert(sanitized(carried_of(words)) =~= samples_of_ieee(words));
}

/// Decodes one IEEE-754 single-precision word into the sample that carries
/// it.
pub fn carried_from_ieee(bits: u32) -> (r: i32)
    ensures
        r == carried_of_ieee(bits),
        -(HEADROOM as int) <= r as int <= HEADROOM as int,
{
    proof {
        lemma_carried_then_clamped(bits);
    }
    let e: u32 = (bits / 0x80_0000) % 256;
    if e == 255 || e < 127 {
        return sample_from_ieee(bits);
    }
    let m: u32 = bits % 0x80_0000 + 0x80_0000;
    let mag: u32 = if e == 127 {
        m * 128
    } else {
        0x7fff_ffff
    };
    if bits >= 0x8000_0000 {
        -(mag as i32)
    } else {
        mag as i32
    }
}

/// Whether the `count` words of `words` from index `start` on are all
/// finite.
pub open spec fn frame_is_finite(words: Seq<u32>, start: int, count: int) -> bool {
    forall|c: int| 0 <= c < count ==> ieee_is_finite(#[trigger] words[start + c])
}

/// The mono sample of frame number `frame` of interleaved words: the
/// average of its channels, rounded toward zero, then sanitized.  A frame
/// with a word that is not finite has no finite average and gives silence.
pub open spec fn ieee_frame(words: Seq<u32>, frame: int, channels: int) -> i32 {
    if frame_is_finite(words, frame * channels, channels) {
        clamp_sample(
            div_toward_zero(frame_sum(carried_of(words), frame * channels, channels), channels),
        ) as i32
    } else {
        0
    }
}

/// Interleaved single-precision words as mono samples.
///
/// Words of more than one channel are averaged frame by frame and sanitized
/// after; a trailing incomplete frame is dropped.  Words of one channel are
/// carried as they are, for the mixer and the sink to clamp.
pub open spec fn mono_of_ieee(words: Seq<u32>, channels: int) -> Seq<i32>
    recommends
        channels >= 1,
{
    if channels == 1 {
        carried_of(words)
    } else {
        Seq::new((words.len() as int / channels) as nat, |f: int| ieee_frame(words, f, channels))
    }
}

/// A frame of more than one channel gives a sample of the nominal range,
/// and silence where one of its words is not finite.
pub proof fn lemma_frames_are_sanitized(words: Seq<u32>, channels: int)
    requires
        channels > 1,
    ensures
        all_in_range(mono_of_ieee(words, channels)),
        forall|f: int|
            0 <= f < mono_of_ieee(words, channels).len() && !frame_is_finite(
                words,
                f * channels,
                channels,
            ) ==> (#[trigger] mono_of_ieee(words, channels)[f]) == 0,
{
}

/// Averages the words of one frame, which starts at index `start`.
fn average_ieee_frame(words: &[u32], start: usize, channels: usize) -> (r: i32)
    requires
        channels >= 1,
        start + channels <= words.len(),
    ensures
        r == (if frame_is_finite(words@, start as int, channels as int) {
            clamp_sample(
                div_toward_zero(
                    frame_sum(carried_of(words@), start as int, channels as int),
                    channels as int,
                ),
            ) as i32
        } else {
            0i32
        }),
        in_range(r as int),
{
    let mut sum: i128 = 0;
    let mut finite: bool = true;
    let mut c: usize = 0;
    let ghost carried = carried_of(words@);
    while c < channels
        invariant
            c <= channels,
            start + channels <= words.len(),
            carried == carried_of(words@),
            finite == frame_is_finite(words@, start as int, c as int),
            sum as int == frame_sum(carried, start as int, c as int),
            -0x8000_0000 * (c as int) <= sum as int <= 0x7fff_ffff * (c as int),
        decreases channels - c,
    {
        proof {
            lemma_frame_sum_bounds(carried, start as int, (c + 1) as int);
            assert(0x7fff_ffff * ((c + 1) as int) <= 0x7fff_ffff * 0xffff_ffff_ffff_ffff)
                by (nonlinear_arith)
                requires
                    c + 1 <= 0xffff_ffff_ffff_ffff,
            ;
            assert(-0x8000_0000 * ((c + 1) as int) >= -0x8000_0000 * 0xffff_ffff_ffff_ffff)
                by (nonlinear_arith)
                requires
                    c + 1 <= 0xffff_ffff_ffff_ffff,
            ;
        }
        let word: u32 = words[start + c];
        let is_number: bool = (word / 0x80_0000) % 256 != 255;
        proof {
            assert(is_number == ieee_is_finite(words@[start + c]));
            if finite && is_number {
                assert forall|k: int| 0 <= k < c + 1 implies ieee_is_finite(
                    #[trigger] words@[start + k],
                ) by {
                    if k < c {
                        assert(frame_is_finite(words@, start as int, c as int));
                    }
                }
            }
        }
        if !is_number {
            finite = false;
        }
        sum = sum + carried_from_ieee(word) as i128;
        c += 1;
    }
    if !finite {
        return 0;
    }
    let avg: i128 = sum / (channels as i128);
    if avg < -(FULL_SCALE as i128) {
        -FULL_SCALE
    } else if avg > FULL_SCALE as i128 {
        FULL_SCALE
    } else {
        avg as i32
    }
}

/// Turns interleaved IEEE-754 single-precision words of `channels` channels
/// into mono samples.
pub fn mono_from_ieee(words: &[u32], channels: usize) -> (mono: Vec<i32>)
    requires
        channels >= 1,
    ensures
        mono@ == mono_of_ieee(words@, channels as int),
        channels > 1 ==> all_in_range(mono@),
{
    if channels == 1 {
        let mut carried: Vec<i32> = Vec::with_capacity(words.len());
        let mut i: usize = 0;
        while i < words.len()
            invariant
                i <= words.len(),
                carried.len() == i,
                forall|j: int| 0 <= j < i ==> carried[j] == carried_of_ieee(#[trigger] words[j]),
            decreases words.len() - i,
        {
            carried.push(carried_from_ieee(words[i]));
            i += 1;
        }
        assert(carried@ =~= carried_of(words@));
        return carried;
    }
    let frames: usize = words.len() / channels;
    let mut mono: Vec<i32> = Vec::with_capacity(frames);
    let mut f: usize = 0;
    proof {
        vstd::arithmetic::div_mod::lemma_fundamental_div_mod(words.len() as int, channels as int);
    }
    while f < frames
        invariant
            f <= frames,
            channels > 1,
            frames as int == words.len() as int / (channels as int),
            (channels as int) * (frames as int) <= words.len(),
            mono.len() == f,
            forall|j: int|
                0 <= j < f ==> #[trigger] mono[j] == ieee_frame(words@, j, channels as int),
            forall|j: int| 0 <= j < f ==> in_range(#[trigger] mono[j] as int),
        decreases frames - f,
    {
        assert((f + 1) * channels <= words.len() && f * channels >= 0) by (nonlinear_arith)
            requires
                f + 1 <= frames,
                channels * frames <= words.len(),
                channels > 0,
        ;
        assert((f + 1) * channels == f * channels + channels) by (nonlinear_arith);
        let start: usize = f * channels;
        let avg: i32 = average_ieee_frame(words, start, channels);
        mono.push(avg);
        f += 1;
    }
    assert(mono@ =~= mono_of_ieee(words@, channels as int));
    mono
}

} // verus!
