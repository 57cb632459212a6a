//! The encoding sink: a streaming encoder fed with mono samples.
//!
//! The sink turns chunks of samples into the bytes of an audio file and
//! leaves it to its owner to put the bytes into the file.  It has two
//! back-ends behind one interface: MP3 at a constant bit rate, compressed by
//! LAME from the crate `mp3lame_encoder`, and WAV with 16-bit PCM, which is
//! written here byte by byte.

use crate::recorder::RecordError;
use crate::sample::{
    all_in_range, clamp_sample, div_toward_zero, downmix_to_mono, downmixed, in_range,
    lemma_carried_then_sanitized, lemma_non_finite_is_silence, mono_from_ieee, mono_of_ieee,
    sanitize, sanitized, samples_from_i16, samples_from_u16, samples_of_i16, samples_of_ieee,
    samples_of_u16, silenced, FULL_SCALE,
};
use crate::text::{decimal, push_decimal};
use vstd::prelude::*;

verus! {

// ---------------------------------------------------------------------------
// LAME
// ---------------------------------------------------------------------------

/// `Builder` of `mp3lame_encoder`: LAME's parameters while they are being
/// set.  Nothing is known of what it holds.
#[verifier::external_type_specification]
#[verifier::external_body]
pub struct ExLameBuilder(mp3lame_encoder::Builder);

/// `Encoder` of `mp3lame_encoder`: a LAME encoder with its state.  Nothing is
/// known of what it holds.
#[verifier::external_type_specification]
#[verifier::external_body]
pub struct ExLameEncoder(mp3lame_encoder::Encoder);

/// `BuildError` of `mp3lame_encoder`: why LAME refused a parameter.
#[verifier::external_type_specification]
#[verifier::external_body]
pub struct ExLameBuildError(mp3lame_encoder::BuildError);

/// `EncodeError` of `mp3lame_encoder`: why LAME failed on a chunk.
#[verifier::external_type_specification]
#[verifier::external_body]
pub struct ExLameEncodeError(mp3lame_encoder::EncodeError);

/// The bit rates that a sink can be opened with.
#[derive(Debug, Clone, Copy, PartialEq, Eq, Structural)]
pub enum Bitrate {
    Kbps128,
    Kbps192,
    Kbps256,
    Kbps320,
}

/// The encoder's trade between speed and quality.
#[derive(Debug, Clone, Copy, PartialEq, Eq, Structural)]
pub enum Quality {
    Best,
    Good,
    Worst,
}

/// `Builder::new` of `mp3lame_encoder`: a builder, or nothing where LAME could
/// not allocate one.
#[verifier::external_body]
fn lame_builder() -> (builder: Option<mp3lame_encoder::Builder>) {
    mp3lame_encoder::Builder::new()
}

/// `Builder::set_num_channels` of `mp3lame_encoder`.  LAME may refuse the
/// number; nothing is claimed of when.
#[verifier::external_body]
fn lame_set_num_channels(builder: &mut mp3lame_encoder::Builder, channels: u8) -> (r: Result<
    (),
    mp3lame_encoder::BuildError,
>) {
    builder.set_num_channels(channels)
}

/// `Builder::set_sample_rate` of `mp3lame_encoder`: the rate of the input,
/// in Hz.
#[verifier::external_body]
fn lame_set_sample_rate(builder: &mut mp3lame_encoder::Builder, rate: u32) -> (r: Result<
    (),
    mp3lame_encoder::BuildError,
>) {
    builder.set_sample_rate(rate)
}

/// `Builder::set_brate` of `mp3lame_encoder`.
#[verifier::external_body]
fn lame_set_bitrate(builder: &mut mp3lame_encoder::Builder, bitrate: Bitrate) -> (r: Result<
    (),
    mp3lame_encoder::BuildError,
>) {
    builder.set_brate(
        match bitrate {
            Bitrate::Kbps128 => mp3lame_encoder::Bitrate::Kbps128,
            Bitrate::Kbps192 => mp3lame_encoder::Bitrate::Kbps192,
            Bitrate::Kbps256 => mp3lame_encoder::Bitrate::Kbps256,
            Bitrate::Kbps320 => mp3lame_encoder::Bitrate::Kbps320,
        },
    )
}

/// `Builder::set_quality` of `mp3lame_encoder`.
#[verifier::external_body]
fn lame_set_quality(builder: &mut mp3lame_encoder::Builder, quality: Quality) -> (r: Result<
    (),
    mp3lame_encoder::BuildError,
>) {
    builder.set_quality(
        match quality {
            Quality::Best => mp3lame_encoder::Quality::Best,
            Quality::Good => mp3lame_encoder::Quality::Good,
            Quality::Worst => mp3lame_encoder::Quality::Worst,
        },
    )
}

/// `Builder::build` of `mp3lame_encoder`: the encoder with the parameters
/// set so far, or LAME's refusal of them.
#[verifier::external_body]
fn lame_build(builder: mp3lame_encoder::Builder) -> (r: Result<
    mp3lame_encoder::Encoder,
    mp3lame_encoder::BuildError,
>) {
    builder.build()
}

/// Whether `m` tells of a failed build: no builder, or what LAME refused.
pub open spec fn is_build_failure(m: Seq<char>) -> bool {
    m == "failed to create LAME builder"@ || exists|f: BuildFault| m == #[trigger] fault_text(f)
}

/// `Encoder::encode_to_vec` of `mp3lame_encoder` on mono 32-bit input, which
/// LAME takes on the scale of a C `int`: the bytes that LAME released for this
/// chunk, or its error.  How many bytes come out of which chunk is LAME's
/// affair.  The sample count and the room of the output buffer are handed to
/// LAME as C `int`s, so both have to fit in one.  LAME takes a room of 0 to
/// mean that it need not look at the room at all, so the room is the one that
/// the chunk asks for, which is never 0.
#[verifier::external_body]
fn lame_encode(encoder: &mut mp3lame_encoder::Encoder, pcm: &Vec<i32>, room: usize) -> (r: Result<
    Vec<u8>,
    mp3lame_encoder::EncodeError,
>)
    requires
        pcm.len() <= MAX_CHUNK,
        room == room_for(pcm.len() as nat),
{
    let mut out: Vec<u8> = Vec::with_capacity(room);
    match encoder.encode_to_vec(mp3lame_encoder::MonoPcm(pcm.as_slice()), &mut out) {
        Ok(_) => Ok(out),
        Err(e) => Err(e),
    }
}

/// `Encoder::flush_to_vec` of `mp3lame_encoder`, without gap: the bytes of
/// the frames that LAME still held, or its error.  LAME asks for room for one
/// frame, 7200 bytes, and takes the room as a C `int`.
#[verifier::external_body]
fn lame_flush(encoder: &mut mp3lame_encoder::Encoder, room: usize) -> (r: Result<
    Vec<u8>,
    mp3lame_encoder::EncodeError,
>)
    requires
        7200 <= room <= 0x7fff_ffff,
{
    let mut out: Vec<u8> = Vec::with_capacity(room);
    match encoder.flush_to_vec::<mp3lame_encoder::FlushNoGap>(&mut out) {
        Ok(_) => Ok(out),
        Err(e) => Err(e),
    }
}

// ---------------------------------------------------------------------------
// MP3: what the encoder is given
// ---------------------------------------------------------------------------

/// The longest chunk that the MP3 encoder takes in one call: the room that
/// a chunk asks for has to fit in a C `int`.
pub const MAX_CHUNK: usize = 0x6000_0000;

/// The room that the encoder asks for in its output buffer: the sample
/// count, a quarter of it rounded up, and 7200 bytes for one frame.
pub open spec fn room_for(samples: nat) -> nat {
    samples + (samples + 3) / 4 + 7200
}

/// The room to give the encoder for a chunk of `samples` samples.
pub fn required_room(samples: usize) -> (room: usize)
    requires
        samples <= MAX_CHUNK,
    ensures
        room == room_for(samples as nat),
{
    let mut extra: usize = samples / 4;
    if samples % 4 > 0 {
        extra = extra + 1;
    }
    samples + extra + 7200
}

/// The 32-bit PCM word that the MP3 encoder is given for a sample: the
/// sample clamped to the nominal range, on the encoder's scale, where full
/// scale is `2^31`.  The amplitude +1.0 itself has no word there and gives
/// the highest word there is.
pub open spec fn encoder_word(s: i32) -> i32 {
    let c = clamp_sample(s as int);
    if c == FULL_SCALE as int {
        0x7fff_ffff
    } else {
        (2 * c) as i32
    }
}

/// The PCM words that the MP3 encoder is given for a chunk of samples.
pub open spec fn encoder_words(samples: Seq<i32>) -> Seq<i32> {
    Seq::new(samples.len(), |i: int| encoder_word(samples[i]))
}

/// Sanitizes a chunk and puts it on the MP3 encoder's scale.
pub fn to_encoder_words(samples: &[i32]) -> (pcm: Vec<i32>)
    ensures
        pcm@ == encoder_words(samples@),
{
    let clean = sanitize(samples);
    let mut pcm: Vec<i32> = Vec::with_capacity(clean.len());
    let mut i: usize = 0;
    while i < clean.len()
        invariant
            i <= clean.len(),
            clean@ == sanitized(samples@),
            all_in_range(clean@),
            pcm.len() == i,
            forall|j: int| 0 <= j < i ==> #[trigger] pcm[j] == encoder_word(samples[j]),
        decreases clean.len() - i,
    {
        let c: i32 = clean[i];
        assert(in_range(clean@[i as int] as int));
        if c == FULL_SCALE {
            pcm.push(0x7fff_ffff);
        } else {
            pcm.push(2 * c);
        }
        i += 1;
    }
    assert(pcm@ =~= encoder_words(samples@));
    pcm
}

/// The bytes to write for a chunk, given what the encoder answered: its
/// bytes, or nothing where it failed, in which case the chunk is dropped and
/// the recording goes on.
pub fn chunk_bytes<E>(answer: Result<Vec<u8>, E>) -> (bytes: Vec<u8>)
    ensures
        answer matches Ok(b) ==> bytes@ == b@,
        answer is Err ==> bytes@ == Seq::<u8>::empty(),
{
    match answer {
        Ok(b) => b,
        Err(_) => Vec::new(),
    }
}

// ---------------------------------------------------------------------------
// WAV: 16-bit PCM
// ---------------------------------------------------------------------------

/// The most bytes of samples that a WAV file holds: its header counts them,
/// and 36 bytes more, in 32 bits.
pub const WAV_MAX_DATA: u32 = 0xffff_ffdb;

/// The highest sample rate that a WAV file of 16-bit samples can state: its
/// header states the bytes per second as well, in 32 bits.
pub const WAV_MAX_RATE: u32 = 0x7fff_ffff;

/// The 16-bit PCM value of a sample: the sample clamped to the nominal
/// range, in units of `2^-15`, rounded toward zero.  The amplitude +1.0
/// itself has no 16-bit value and gives the highest one there is.
pub open spec fn pcm16_of(s: i32) -> i16 {
    let v = div_toward_zero(clamp_sample(s as int), 0x8000);
    if v > 0x7fff {
        0x7fff
    } else {
        v as i16
    }
}

/// A 16-bit value in little-endian byte order, in two's complement.
pub open spec fn le16(v: int) -> Seq<u8>
    recommends
        -0x8000 <= v < 0x1_0000,
{
    let u = if v < 0 {
        v + 0x1_0000
    } else {
        v
    };
    seq![(u % 0x100) as u8, (u / 0x100) as u8]
}

/// A 32-bit value in little-endian byte order.
pub open spec fn le32(x: u32) -> Seq<u8> {
    seq![
        (x as int % 0x100) as u8,
        (x as int / 0x100 % 0x100) as u8,
        (x as int / 0x1_0000 % 0x100) as u8,
        (x as int / 0x100_0000) as u8,
    ]
}

/// The bytes of a chunk of samples as 16-bit PCM: two for each sample.
pub open spec fn pcm16_bytes(samples: Seq<i32>) -> Seq<u8>
    decreases samples.len(),
{
    if samples.len() == 0 {
        Seq::empty()
    } else {
        pcm16_bytes(samples.drop_last()) + le16(pcm16_of(samples.last()) as int)
    }
}

/// The header of a WAV file that holds `data_len` bytes of mono 16-bit PCM
/// at `sample_rate` Hz: the RIFF chunk with the length of what follows it,
/// the format chunk, and the head of the data chunk.
pub open spec fn wav_header(sample_rate: u32, data_len: u32) -> Seq<u8>
    recommends
        sample_rate <= WAV_MAX_RATE,
        data_len <= WAV_MAX_DATA,
{
    seq![0x52u8, 0x49, 0x46, 0x46] + le32((36 + data_len) as u32)  // "RIFF", length
     + seq![0x57u8, 0x41, 0x56, 0x45]  // "WAVE"
     + seq![0x66u8, 0x6d, 0x74, 0x20] + le32(16)  // "fmt ", its length
     + le16(1) + le16(1)  // PCM, one channel
     + le32(sample_rate) + le32((2 * sample_rate) as u32)  // samples and bytes per second
     + le16(2) + le16(16)  // bytes per frame, bits per sample
     + seq![0x64u8, 0x61, 0x74, 0x61] + le32(data_len)  // "data", its length
}

/// Where the header of a WAV file states the length of the RIFF chunk.
pub const WAV_RIFF_LENGTH_AT: u64 = 4;

/// Where the header of a WAV file states the length of the data.
pub const WAV_DATA_LENGTH_AT: u64 = 40;

/// A chunk as 16-bit PCM has two bytes for each sample.
pub proof fn lemma_pcm16_bytes_len(samples: Seq<i32>)
    ensures
        pcm16_bytes(samples).len() == 2 * samples.len(),
    decreases samples.len(),
{
    if samples.len() > 0 {
        lemma_pcm16_bytes_len(samples.drop_last());
    }
}

/// The bytes of chunks written one after the other are the bytes of the
/// chunks put together.
pub proof fn lemma_pcm16_bytes_concat(a: Seq<i32>, b: Seq<i32>)
    ensures
        pcm16_bytes(a + b) == pcm16_bytes(a) + pcm16_bytes(b),
    decreases b.len(),
{
    if b.len() == 0 {
        assert(a + b =~= a);
        assert(pcm16_bytes(a) + pcm16_bytes(b) =~= pcm16_bytes(a));
    } else {
        lemma_pcm16_bytes_concat(a, b.drop_last());
        assert((a + b).drop_last() =~= a + b.drop_last());
        assert((a + b).last() == b.last());
        assert(pcm16_bytes(a) + pcm16_bytes(b) =~= (pcm16_bytes(a) + pcm16_bytes(b.drop_last()))
            + le16(pcm16_of(b.last()) as int));
    }
}

fn push_le16(out: &mut Vec<u8>, v: i32)
    requires
        -0x8000 <= v < 0x1_0000,
    ensures
        final(out)@ == old(out)@ + le16(v as int),
{
    let u: i32 = if v < 0 {
        v + 0x1_0000
    } else {
        v
    };
    out.push((u % 0x100) as u8);
    out.push((u / 0x100) as u8);
    assert(out@ =~= old(out)@ + le16(v as int));
}

fn push_le32(out: &mut Vec<u8>, x: u32)
    ensures
        final(out)@ == old(out)@ + le32(x),
{
    out.push((x % 0x100) as u8);
    out.push((x / 0x100 % 0x100) as u8);
    out.push((x / 0x1_0000 % 0x100) as u8);
    out.push((x / 0x100_0000) as u8);
    assert(out@ =~= old(out)@ + le32(x));
}

fn push_tag(out: &mut Vec<u8>, a: u8, b: u8, c: u8, d: u8)
    ensures
        final(out)@ == old(out)@ + seq![a, b, c, d],
{
    out.push(a);
    out.push(b);
    out.push(c);
    out.push(d);
    assert(out@ =~= old(out)@ + seq![a, b, c, d]);
}

/// Writes the header of a WAV file.
pub fn wav_header_bytes(sample_rate: u32, data_len: u32) -> (header: Vec<u8>)
    requires
        sample_rate <= WAV_MAX_RATE,
        data_len <= WAV_MAX_DATA,
    ensures
        header@ == wav_header(sample_rate, data_len),
        header.len() == 44,
{
    let mut header: Vec<u8> = Vec::with_capacity(44);
    push_tag(&mut header, 0x52, 0x49, 0x46, 0x46);
    push_le32(&mut header, 36 + data_len);
    push_tag(&mut header, 0x57, 0x41, 0x56, 0x45);
    push_tag(&mut header, 0x66, 0x6d, 0x74, 0x20);
    push_le32(&mut header, 16);
    push_le16(&mut header, 1);
    push_le16(&mut header, 1);
    push_le32(&mut header, sample_rate);
    push_le32(&mut header, 2 * sample_rate);
    push_le16(&mut header, 2);
    push_le16(&mut header, 16);
    push_tag(&mut header, 0x64, 0x61, 0x74, 0x61);
    push_le32(&mut header, data_len);
    assert(header@ =~= wav_header(sample_rate, data_len));
    header
}

/// Sanitizes a chunk and writes it as 16-bit PCM.
pub fn to_pcm16_bytes(samples: &[i32]) -> (bytes: Vec<u8>)
    ensures
        bytes@ == pcm16_bytes(samples@),
        bytes.len() == 2 * samples.len(),
{
    let mut bytes: Vec<u8> = Vec::new();
    let mut i: usize = 0;
    assert(samples@.take(0) =~= Seq::<i32>::empty());
    while i < samples.len()
        invariant
            i <= samples.len(),
            bytes@ == pcm16_bytes(samples@.take(i as int)),
        decreases samples.len() - i,
    {
        let c: i32 = crate::sample::clamp_to_range(samples[i] as i64);
        let v: i32 = c / 0x8000;
        let w: i32 = if v > 0x7fff {
            0x7fff
        } else {
            v
        };
        proof {
            assert(samples@.take(i + 1).drop_last() =~= samples@.take(i as int));
            assert(samples@.take(i + 1).last() == samples@[i as int]);
            assert(w == pcm16_of(samples@[i as int]));
        }
        push_le16(&mut bytes, w);
        i += 1;
    }
    proof {
        assert(samples@.take(samples.len() as int) =~= samples@);
        lemma_pcm16_bytes_len(samples@);
    }
    bytes
}

// ---------------------------------------------------------------------------
// The sink
// ---------------------------------------------------------------------------

/// The formats that a sink writes.
#[derive(Debug, Clone, Copy, PartialEq, Eq, Structural)]
pub enum OutputFormat {
    /// MP3 at 192 kbit/s.
    Mp3,
    /// WAV with 16-bit PCM.
    Wav,
}

/// The file extension of a format.
pub open spec fn extension_of_format(format: OutputFormat) -> Seq<char> {
    match format {
        OutputFormat::Mp3 => "mp3"@,
        OutputFormat::Wav => "wav"@,
    }
}

impl OutputFormat {
    /// The file extension of the format, without the dot.
    pub fn extension(&self) -> (ext: &'static str)
        ensures
            ext@ == extension_of_format(*self),
    {
        match self {
            OutputFormat::Mp3 => "mp3",
            OutputFormat::Wav => "wav",
        }
    }
}

/// What a sink is opened with.
#[derive(Debug, Clone, Copy, PartialEq, Eq, Structural)]
pub struct EncoderSettings {
    pub channels: u8,
    pub sample_rate: u32,
    pub bitrate: Bitrate,
    pub quality: Quality,
}

/// The settings of the MP3 encoder for input at `sample_rate` Hz: mono, at
/// 192 kbit/s, at the best quality.
pub fn mp3_settings(sample_rate: u32) -> (settings: EncoderSettings)
    ensures
        settings == (EncoderSettings {
            channels: 1,
            sample_rate,
            bitrate: Bitrate::Kbps192,
            quality: Quality::Best,
        }),
{
    EncoderSettings { channels: 1, sample_rate, bitrate: Bitrate::Kbps192, quality: Quality::Best }
}

enum Backend {
    Mp3(mp3lame_encoder::Encoder),
    Wav,
}

/// A streaming encoder for one recording.
pub struct EncodingSink {
    backend: Backend,
    sample_rate: u32,
    closed: bool,
    data_bytes: u32,
    submitted: Ghost<Seq<i32>>,
}

/// What a sink is, as far as contracts go.
pub struct SinkState {
    pub format: OutputFormat,
    /// The sample rate of the input, in Hz.
    pub sample_rate: u32,
    /// Whether the sink was closed.
    pub closed: bool,
    /// Every sample that the sink has taken in, in order.
    pub submitted: Seq<i32>,
    /// The bytes of samples that a WAV sink has given out.
    pub data_bytes: nat,
}

impl View for EncodingSink {
    type V = SinkState;

    closed spec fn view(&self) -> SinkState {
        SinkState {
            format: match self.backend {
                Backend::Mp3(_) => OutputFormat::Mp3,
                Backend::Wav => OutputFormat::Wav,
            },
            sample_rate: self.sample_rate,
            closed: self.closed,
            submitted: self.submitted@,
            data_bytes: self.data_bytes as nat,
        }
    }
}

/// The state of a sink that was just opened.
pub open spec fn opened(format: OutputFormat, sample_rate: u32) -> SinkState {
    SinkState { format, sample_rate, closed: false, submitted: Seq::empty(), data_bytes: 0 }
}

/// Whether `write` takes a chunk in: the sink is open, the chunk is not
/// empty, and it is not longer than the format has room for.
pub open spec fn accepts(s: SinkState, samples: Seq<i32>) -> bool {
    &&& !s.closed
    &&& samples.len() > 0
    &&& match s.format {
        OutputFormat::Mp3 => samples.len() <= MAX_CHUNK,
        OutputFormat::Wav => s.data_bytes + 2 * samples.len() <= WAV_MAX_DATA,
    }
}

/// The state of a sink after `write` was given `samples`.
pub open spec fn written(s: SinkState, samples: Seq<i32>) -> SinkState {
    if accepts(s, samples) {
        SinkState {
            submitted: s.submitted + sanitized(samples),
            data_bytes: match s.format {
                OutputFormat::Mp3 => s.data_bytes,
                OutputFormat::Wav => s.data_bytes + 2 * samples.len(),
            },
            ..s
        }
    } else {
        s
    }
}

/// A place in the file and the bytes that belong there.
#[derive(Debug, Clone)]
pub struct Patch {
    pub offset: u64,
    pub bytes: Vec<u8>,
}

/// What closing a sink gives: the bytes that end the file, and the places
/// earlier in the file that are to be overwritten now that its length is
/// known.
#[derive(Debug, Clone)]
pub struct Closing {
    pub tail: Vec<u8>,
    pub patches: Vec<Patch>,
}

/// The bytes of `file` with `bytes` written over it from `offset` on.
pub open spec fn patched(file: Seq<u8>, offset: int, bytes: Seq<u8>) -> Seq<u8>
    recommends
        0 <= offset,
        offset + bytes.len() <= file.len(),
{
    file.subrange(0, offset) + bytes + file.subrange(offset + bytes.len(), file.len() as int)
}

impl EncodingSink {
    /// Opens a sink for mono input at `sample_rate` Hz.
    ///
    /// A WAV sink opens for every rate from 1 Hz to `WAV_MAX_RATE`.  Whether
    /// an MP3 sink opens is for LAME to say, which is given the settings of
    /// `mp3_settings`; its refusal comes back as `EncoderError`.
    pub fn open(format: OutputFormat, sample_rate: u32) -> (r: Result<EncodingSink, RecordError>)
        ensures
            r matches Ok(sink) ==> sink@ == opened(format, sample_rate),
            r matches Err(e) ==> e is EncoderError,
            format == OutputFormat::Wav ==> (r is Ok <==> 1 <= sample_rate <= WAV_MAX_RATE),
    {
        match format {
            OutputFormat::Wav => {
                if sample_rate == 0 || sample_rate > WAV_MAX_RATE {
                    return Err(
                        RecordError::EncoderError(String::from_str("unsupported sample rate")),
                    );
                }
                Ok(
                    EncodingSink {
                        backend: Backend::Wav,
                        sample_rate,
                        closed: false,
                        data_bytes: 0,
                        submitted: Ghost(Seq::empty()),
                    },
                )
            },
            OutputFormat::Mp3 => {
                match build_lame(mp3_settings(sample_rate)) {
                    Ok(encoder) => Ok(
                        EncodingSink {
                            backend: Backend::Mp3(encoder),
                            sample_rate,
                            closed: false,
                            data_bytes: 0,
                            submitted: Ghost(Seq::empty()),
                        },
                    ),
                    Err(e) => Err(e),
                }
            },
        }
    }

    /// The format that the sink writes.
    pub fn format(&self) -> (format: OutputFormat)
        ensures
            format == self@.format,
    {
        match self.backend {
            Backend::Mp3(_) => OutputFormat::Mp3,
            Backend::Wav => OutputFormat::Wav,
        }
    }

    /// The sample rate that the sink was opened with.
    pub fn sample_rate(&self) -> (rate: u32)
        ensures
            rate == self@.sample_rate,
    {
        self.sample_rate
    }

    /// Whether the sink was closed.
    pub fn is_closed(&self) -> (closed: bool)
        ensures
            closed == self@.closed,
    {
        self.closed
    }

    /// The bytes with which the file begins, before any samples: the header
    /// of a WAV file, with the lengths still at zero; nothing for MP3.
    pub fn preamble(&self) -> (bytes: Vec<u8>)
        ensures
            bytes@ == (match self@.format {
                OutputFormat::Mp3 => Seq::<u8>::empty(),
                OutputFormat::Wav => if self@.sample_rate <= WAV_MAX_RATE {
                    wav_header(self@.sample_rate, 0)
                } else {
                    Seq::<u8>::empty()
                },
            }),
    {
        match self.backend {
            Backend::Mp3(_) => Vec::new(),
            Backend::Wav => {
                if self.sample_rate <= WAV_MAX_RATE {
                    wav_header_bytes(self.sample_rate, 0)
                } else {
                    Vec::new()
                }
            },
        }
    }

    /// Encodes a chunk of mono samples and returns the bytes to append to
    /// the file.
    ///
    /// The chunk is sanitized first.  An empty chunk, a chunk on a closed
    /// sink and a chunk that the format has no room for are left out: nothing
    /// is encoded and no bytes come back.  A WAV sink gives two bytes for
    /// each sample; what an MP3 sink gives for a chunk is up to its encoder,
    /// and where the encoder fails, the chunk is dropped.
    pub fn write(&mut self, samples: &[i32]) -> (bytes: Vec<u8>)
        ensures
            final(self)@ == written(old(self)@, samples@),
            !accepts(old(self)@, samples@) ==> bytes@ == Seq::<u8>::empty(),
            accepts(old(self)@, samples@) && old(self)@.format == OutputFormat::Wav ==> bytes@
                == pcm16_bytes(samples@),
    {
        if self.closed || samples.len() == 0 {
            return Vec::new();
        }
        match &mut self.backend {
            Backend::Mp3(encoder) => {
                if samples.len() > MAX_CHUNK {
                    return Vec::new();
                }
                let pcm = to_encoder_words(samples);
                let room = required_room(pcm.len());
                let answer = lame_encode(encoder, &pcm, room);
                proof {
                    self.submitted@ = self.submitted@ + sanitized(samples@);
                }
                chunk_bytes(answer)
            },
            Backend::Wav => {
                if self.data_bytes > WAV_MAX_DATA {
                    return Vec::new();
                }
                let room: u32 = WAV_MAX_DATA - self.data_bytes;
                if samples.len() > (room / 2) as usize {
                    return Vec::new();
                }
                let bytes = to_pcm16_bytes(samples);
                self.data_bytes = self.data_bytes + (2 * samples.len()) as u32;
                proof {
                    self.submitted@ = self.submitted@ + sanitized(samples@);
                }
                bytes
            },
        }
    }

    /// Closes the sink and returns what finishes the file: for MP3 the
    /// frames that the encoder still held, for WAV the two lengths to write
    /// into the header.  A second call gives nothing.
    pub fn close(&mut self) -> (closing: Closing)
        ensures
            final(self)@ == (SinkState { closed: true, ..old(self)@ }),
            closes(closing, old(self)@),
    {
        if self.closed {
            return Closing { tail: Vec::new(), patches: Vec::new() };
        }
        self.closed = true;
        match &mut self.backend {
            Backend::Mp3(encoder) => {
                let room = required_room(0);
                let answer = lame_flush(encoder, room);
                Closing { tail: chunk_bytes(answer), patches: Vec::new() }
            },
            Backend::Wav => {
                let data_len: u32 = if self.data_bytes > WAV_MAX_DATA {
                    WAV_MAX_DATA
                } else {
                    self.data_bytes
                };
                let mut riff: Vec<u8> = Vec::new();
                push_le32(&mut riff, 36 + data_len);
                let mut data: Vec<u8> = Vec::new();
                push_le32(&mut data, data_len);
                let mut patches: Vec<Patch> = Vec::new();
                patches.push(Patch { offset: WAV_RIFF_LENGTH_AT, bytes: riff });
                patches.push(Patch { offset: WAV_DATA_LENGTH_AT, bytes: data });
                Closing { tail: Vec::new(), patches }
            },
        }
    }
}

/// Whether `closing` is what closing a sink in the state `before` gives.
///
/// A sink that was closed before gives nothing.  An MP3 sink gives the bytes
/// that its encoder still held, and no patches.  A WAV sink gives no bytes,
/// and two patches: the length of the RIFF chunk and the length of the data.
pub open spec fn closes(closing: Closing, before: SinkState) -> bool {
    if before.closed {
        closing.tail@.len() == 0 && closing.patches@.len() == 0
    } else {
        match before.format {
            OutputFormat::Mp3 => closing.patches@.len() == 0,
            OutputFormat::Wav => {
                &&& closing.tail@.len() == 0
                &&& closing.patches@.len() == 2
                &&& closing.patches[0].offset == WAV_RIFF_LENGTH_AT
                &&& closing.patches[0].bytes@ == le32((36 + wav_data_len(before.data_bytes)) as u32)
                &&& closing.patches[1].offset == WAV_DATA_LENGTH_AT
                &&& closing.patches[1].bytes@ == le32(wav_data_len(before.data_bytes))
            },
        }
    }
}

/// The length of the data that the header of a WAV file states: the bytes
/// given out, and no more than the header can state.
pub open spec fn wav_data_len(data_bytes: nat) -> u32 {
    if data_bytes > WAV_MAX_DATA {
        WAV_MAX_DATA
    } else {
        data_bytes as u32
    }
}

/// Sets up a LAME encoder with the given settings.
fn build_lame(settings: EncoderSettings) -> (r: Result<mp3lame_encoder::Encoder, RecordError>)
    ensures
        r matches Err(e) ==> (e matches RecordError::EncoderError(m) && is_build_failure(m@)),
{
    let mut builder = match lame_builder() {
        Some(b) => b,
        None => {
            return Err(
                RecordError::EncoderError(String::from_str("failed to create LAME builder")),
            );
        },
    };
    match lame_set_num_channels(&mut builder, settings.channels) {
        Ok(()) => {},
        Err(e) => {
            return Err(encoder_error(lame_build_fault(&e)));
        },
    }
    match lame_set_sample_rate(&mut builder, settings.sample_rate) {
        Ok(()) => {},
        Err(e) => {
            return Err(encoder_error(lame_build_fault(&e)));
        },
    }
    match lame_set_bitrate(&mut builder, settings.bitrate) {
        Ok(()) => {},
        Err(e) => {
            return Err(encoder_error(lame_build_fault(&e)));
        },
    }
    match lame_set_quality(&mut builder, settings.quality) {
        Ok(()) => {},
        Err(e) => {
            return Err(encoder_error(lame_build_fault(&e)));
        },
    }
    match lame_build(builder) {
        Ok(encoder) => Ok(encoder),
        Err(e) => Err(encoder_error(lame_build_fault(&e))),
    }
}

/// What LAME refused when an encoder was set up.
#[derive(Debug, Clone, Copy, PartialEq, Eq, Structural)]
pub enum BuildFault {
    /// The parameters, or the state of the builder.
    Generic,
    /// A request for memory.
    NoMem,
    /// The bit rate.
    BadBRate,
    /// The sample rate.
    BadSampleFreq,
    /// LAME failed in itself.
    InternalError,
    /// Something else, with the code that LAME gave.
    Other(i32),
}

/// `BuildError` of `mp3lame_encoder` told apart by its variants, `Other`
/// with the code that it carries.
#[verifier::external_body]
fn lame_build_fault(error: &mp3lame_encoder::BuildError) -> (fault: BuildFault) {
    match error {
        mp3lame_encoder::BuildError::Generic => BuildFault::Generic,
        mp3lame_encoder::BuildError::NoMem => BuildFault::NoMem,
        mp3lame_encoder::BuildError::BadBRate => BuildFault::BadBRate,
        mp3lame_encoder::BuildError::BadSampleFreq => BuildFault::BadSampleFreq,
        mp3lame_encoder::BuildError::InternalError => BuildFault::InternalError,
        mp3lame_encoder::BuildError::Other(code) => BuildFault::Other(*code),
    }
}

/// A number in decimal, with a minus sign in front where it is negative.
pub open spec fn signed_decimal(n: int) -> Seq<char> {
    if n < 0 {
        seq!['-'] + decimal((-n) as nat)
    } else {
        decimal(n as nat)
    }
}

/// The name of what LAME refused.
pub open spec fn fault_text(fault: BuildFault) -> Seq<char> {
    match fault {
        BuildFault::Generic => "Generic"@,
        BuildFault::NoMem => "NoMem"@,
        BuildFault::BadBRate => "BadBRate"@,
        BuildFault::BadSampleFreq => "BadSampleFreq"@,
        BuildFault::InternalError => "InternalError"@,
        BuildFault::Other(code) => "Other("@ + signed_decimal(code as int) + ")"@,
    }
}

/// The error of a sink that could not be opened because LAME refused to
/// set up its encoder: an encoder error that names what LAME refused.
pub fn encoder_error(fault: BuildFault) -> (e: RecordError)
    ensures
        e matches RecordError::EncoderError(m) && m@ == fault_text(fault),
{
    let message = match fault {
        BuildFault::Generic => String::from_str("Generic"),
        BuildFault::NoMem => String::from_str("NoMem"),
        BuildFault::BadBRate => String::from_str("BadBRate"),
        BuildFault::BadSampleFreq => String::from_str("BadSampleFreq"),
        BuildFault::InternalError => String::from_str("InternalError"),
        BuildFault::Other(code) => {
            let mut text = String::from_str("Other(");
            if code < 0 {
                text.push('-');
                push_decimal(&mut text, (-(code as i64)) as u64);
                assert(text@ =~= "Other("@ + signed_decimal(code as int));
            } else {
                push_decimal(&mut text, code as u64);
            }
            text.append(")");
            text
        },
    };
    RecordError::EncoderError(message)
}

// ---------------------------------------------------------------------------
// Laws
// ---------------------------------------------------------------------------

/// What a sink has given out and taken in agree: a WAV sink has given out
/// two bytes for each sample that it has taken in, and never more than a WAV
/// file holds.
pub open spec fn consistent(s: SinkState) -> bool {
    s.format == OutputFormat::Wav ==> s.data_bytes == 2 * s.submitted.len() && s.data_bytes
        <= WAV_MAX_DATA
}

/// A sink is consistent when it is opened, and writing keeps it so.
pub proof fn lemma_sink_consistent(s: SinkState, samples: Seq<i32>)
    ensures
        consistent(opened(s.format, s.sample_rate)),
        consistent(s) ==> consistent(written(s, samples)),
{
}

/// Everything that a sink takes in lies in the nominal range.
pub proof fn lemma_sink_sanitizes(s: SinkState, samples: Seq<i32>)
    requires
        all_in_range(s.submitted),
    ensures
        all_in_range(written(s, samples).submitted),
{
}

/// Words that are no numbers go into a sink as silence: a sink that takes
/// mono words in takes in their sanitized samples, which are those of the
/// words with 0.0 in the place of every NaN and infinity.
pub proof fn lemma_sink_takes_sanitized_words(s: SinkState, words: Seq<u32>)
    requires
        accepts(s, mono_of_ieee(words, 1)),
    ensures
        written(s, mono_of_ieee(words, 1)).submitted == s.submitted + samples_of_ieee(words),
        written(s, mono_of_ieee(words, 1)) == written(s, mono_of_ieee(silenced(words), 1)),
{
    lemma_carried_then_sanitized(words);
    lemma_carried_then_sanitized(silenced(words));
    lemma_non_finite_is_silence(words);
}

/// A WAV file comes out whole: the preamble, followed by what the sink gave
/// for the samples, with the two lengths written over their places, is the
/// header for that many bytes, followed by the samples as 16-bit PCM.
pub proof fn lemma_wav_file(sample_rate: u32, samples: Seq<i32>)
    requires
        sample_rate <= WAV_MAX_RATE,
        2 * samples.len() <= WAV_MAX_DATA,
    ensures
        ({
            let data = pcm16_bytes(samples);
            let n = (2 * samples.len()) as u32;
            let file = wav_header(sample_rate, 0) + data;
            patched(
                patched(file, WAV_RIFF_LENGTH_AT as int, le32((36 + n) as u32)),
                WAV_DATA_LENGTH_AT as int,
                le32(n),
            ) == wav_header(sample_rate, n) + data
        }),
{
    lemma_pcm16_bytes_len(samples);
    let data = pcm16_bytes(samples);
    let n = (2 * samples.len()) as u32;
    let file = wav_header(sample_rate, 0) + data;
    let once = patched(file, WAV_RIFF_LENGTH_AT as int, le32((36 + n) as u32));
    let twice = patched(once, WAV_DATA_LENGTH_AT as int, le32(n));
    assert(wav_header(sample_rate, 0).len() == 44);
    assert(wav_header(sample_rate, n).len() == 44);
    assert(twice.len() == 44 + data.len());
    assert forall|i: int| 0 <= i < twice.len() implies twice[i] == (wav_header(sample_rate, n)
        + data)[i] by {
        if i < 4 {
            assert(twice[i] == file[i]);
        } else if i < 8 {
            assert(twice[i] == le32((36 + n) as u32)[i - 4]);
        } else if i < 40 {
            assert(twice[i] == file[i]);
        } else if i < 44 {
            assert(twice[i] == le32(n)[i - 40]);
        } else {
            assert(twice[i] == file[i]);
        }
    }
    assert(twice =~= wav_header(sample_rate, n) + data);
}

// ---------------------------------------------------------------------------
// Input as capture devices deliver it
// ---------------------------------------------------------------------------

/// Encodes a chunk of mono samples.
pub fn encode_mono(sink: &mut EncodingSink, samples: &[i32]) -> (bytes: Vec<u8>)
    ensures
        final(sink)@ == written(old(sink)@, samples@),
        !accepts(old(sink)@, samples@) ==> bytes@ == Seq::<u8>::empty(),
        accepts(old(sink)@, samples@) && old(sink)@.format == OutputFormat::Wav ==> bytes@
            == pcm16_bytes(samples@),
{
    sink.write(samples)
}

/// Encodes interleaved IEEE-754 single-precision input: averaged into mono
/// frame by frame, sanitized after, then encoded.
pub fn encode_samples_ieee(sink: &mut EncodingSink, words: &[u32], channels: u16) -> (bytes: Vec<
    u8,
>)
    requires
        channels >= 1,
    ensures
        final(sink)@ == written(old(sink)@, mono_of_ieee(words@, channels as int)),
        !accepts(old(sink)@, mono_of_ieee(words@, channels as int)) ==> bytes@ == Seq::<
            u8,
        >::empty(),
        accepts(old(sink)@, mono_of_ieee(words@, channels as int)) && old(sink)@.format
            == OutputFormat::Wav ==> bytes@ == pcm16_bytes(mono_of_ieee(words@, channels as int)),
{
    let mono = mono_from_ieee(words, channels as usize);
    encode_mono(sink, mono.as_slice())
}

/// Encodes interleaved signed 16-bit input.
pub fn encode_samples_i16(sink: &mut EncodingSink, data: &[i16], channels: u16) -> (bytes: Vec<u8>)
    requires
        channels >= 1,
    ensures
        final(sink)@ == written(old(sink)@, downmixed(samples_of_i16(data@), channels as int)),
        !accepts(old(sink)@, downmixed(samples_of_i16(data@), channels as int)) ==> bytes@
            == Seq::<u8>::empty(),
        accepts(old(sink)@, downmixed(samples_of_i16(data@), channels as int)) && old(
            sink,
        )@.format == OutputFormat::Wav ==> bytes@ == pcm16_bytes(
            downmixed(samples_of_i16(data@), channels as int),
        ),
{
    let samples = samples_from_i16(data);
    let mono = downmix_to_mono(samples.as_slice(), channels);
    encode_mono(sink, mono.as_slice())
}

/// Encodes interleaved unsigned 16-bit input.
pub fn encode_samples_u16(sink: &mut EncodingSink, data: &[u16], channels: u16) -> (bytes: Vec<u8>)
    requires
        channels >= 1,
    ensures
        final(sink)@ == written(old(sink)@, downmixed(samples_of_u16(data@), channels as int)),
        !accepts(old(sink)@, downmixed(samples_of_u16(data@), channels as int)) ==> bytes@
            == Seq::<u8>::empty(),
        accepts(old(sink)@, downmixed(samples_of_u16(data@), channels as int)) && old(
            sink,
        )@.format == OutputFormat::Wav ==> bytes@ == pcm16_bytes(
            downmixed(samples_of_u16(data@), channels as int),
        ),
{
    let samples = samples_from_u16(data);
    let mono = downmix_to_mono(samples.as_slice(), channels);
    encode_mono(sink, mono.as_slice())
}

} // verus!
