//! Uploading a recording: what is sent, in which steps, and how the server's
//! answers are read.
//!
//! An upload has three steps: asking the server for an address to upload to,
//! sending the file there, and registering the recording with the server.
//! Before each step the upload looks at its cancel flag.  The requests
//! themselves are made elsewhere; this module decides.

use crate::config::AppConfig;
use crate::http_client::{is_success, normalize_url, normalized_url};
use crate::paths::{extension, extension_of, file_name, file_name_of, file_stem, file_stem_of};
use crate::text::{ascii_lowered, blank, is_blank, lowered, same_text, text_of, to_chars};
use vstd::prelude::*;

verus! {

/// What a finished upload gives.
#[derive(Debug, Clone)]
pub struct UploadResult {
    pub recording_id: String,
    pub oss_key: String,
}

/// A report on the progress of an upload.
#[derive(Debug, Clone)]
pub struct UploadProgress {
    /// The phase: `presigning`, `uploading`, `creating`, `completed`,
    /// `cancelled` or `error`.
    pub phase: String,
    /// The bytes sent so far.
    pub bytes_sent: u64,
    /// The size of the file.
    pub bytes_total: u64,
    /// What went wrong, in the phase `error`.
    pub error: Option<String>,
}

/// What to upload, and as what.
#[derive(Debug, Clone)]
pub struct UploadOptions {
    pub file_path: String,
    /// A title, in place of the one that the file's name gives.
    pub title: Option<String>,
    /// The folder to put the recording in.
    pub folder_id: Option<String>,
    /// The tags to give it.
    pub tag_ids: Option<Vec<String>>,
}

/// A folder on the server.
#[derive(Debug, Clone)]
pub struct ServerFolder {
    pub id: String,
    pub name: String,
    pub icon: String,
}

/// A tag on the server.
#[derive(Debug, Clone)]
pub struct ServerTag {
    pub id: String,
    pub name: String,
}

// ---------------------------------------------------------------------------
// Cancelling
// ---------------------------------------------------------------------------

/// The request to cancel an upload.  Each upload has a flag of its own.
#[derive(Debug, Clone, Copy, PartialEq, Eq, Structural)]
pub struct CancelFlag {
    pub cancelled: bool,
}

impl CancelFlag {
    /// A flag that is not set.
    pub fn new() -> (flag: Self)
        ensures
            !flag.cancelled,
    {
        CancelFlag { cancelled: false }
    }
}

/// Asks for the upload to be cancelled.
pub fn cancel_upload(flag: &mut CancelFlag)
    ensures
        final(flag).cancelled,
{
    flag.cancelled = true;
}

/// Whether the upload was asked to be cancelled.
pub fn is_cancelled(flag: &CancelFlag) -> (b: bool)
    ensures
        b == flag.cancelled,
{
    flag.cancelled
}

/// Takes the request back, for the next upload.
pub fn reset_cancel(flag: &mut CancelFlag)
    ensures
        !final(flag).cancelled,
{
    flag.cancelled = false;
}

// ---------------------------------------------------------------------------
// Formats
// ---------------------------------------------------------------------------

/// The content type and the format name for a file extension in small
/// letters; `None` for an extension that is not one of an audio format.
pub open spec fn format_of(ext: Seq<char>) -> Option<(Seq<char>, Seq<char>)> {
    if ext == "mp3"@ {
        Some(("audio/mpeg"@, "mp3"@))
    } else if ext == "wav"@ {
        Some(("audio/wav"@, "wav"@))
    } else if ext == "m4a"@ {
        Some(("audio/mp4"@, "m4a"@))
    } else if ext == "aac"@ {
        Some(("audio/aac"@, "aac"@))
    } else if ext == "ogg"@ || ext == "oga"@ {
        Some(("audio/ogg"@, "ogg"@))
    } else if ext == "flac"@ {
        Some(("audio/flac"@, "flac"@))
    } else if ext == "webm"@ {
        Some(("audio/webm"@, "webm"@))
    } else {
        None
    }
}

/// The extension of a path in small letters; empty for a path without one.
pub open spec fn lower_extension(path: Seq<char>) -> Seq<char> {
    match extension(path) {
        Some(ext) => ascii_lowered(ext),
        None => Seq::empty(),
    }
}

fn lower_extension_of(path: &str) -> (ext: String)
    ensures
        ext@ == lower_extension(path@),
{
    match extension_of(path) {
        Some(e) => {
            let chars = to_chars(e.as_str());
            let low = lowered(&chars, 0, chars.len());
            assert(chars@.subrange(0, chars.len() as int) =~= chars@);
            let text = text_of(&low, 0, low.len());
            assert(low@.subrange(0, low.len() as int) =~= low@);
            text
        },
        None => String::new(),
    }
}

fn pair(content_type: &str, format: &str) -> (r: Result<(String, String), String>)
    ensures
        r matches Ok(p) && p.0@ == content_type@ && p.1@ == format@,
{
    Ok((String::from_str(content_type), String::from_str(format)))
}

/// The content type and the format name of an audio file, going by its
/// extension.
pub fn detect_audio_format(path: &str) -> (r: Result<(String, String), String>)
    ensures
        match format_of(lower_extension(path@)) {
            Some((content_type, format)) => r matches Ok(p) && p.0@ == content_type && p.1@
                == format,
            None => r matches Err(e) && e@ == "unsupported audio format: ."@ + lower_extension(
                path@,
            ),
        },
{
    let ext = lower_extension_of(path);
    let e = ext.as_str();
    if same_text(e, "mp3") {
        pair("audio/mpeg", "mp3")
    } else if same_text(e, "wav") {
        pair("audio/wav", "wav")
    } else if same_text(e, "m4a") {
        pair("audio/mp4", "m4a")
    } else if same_text(e, "aac") {
        pair("audio/aac", "aac")
    } else if same_text(e, "ogg") || same_text(e, "oga") {
        pair("audio/ogg", "ogg")
    } else if same_text(e, "flac") {
        pair("audio/flac", "flac")
    } else if same_text(e, "webm") {
        pair("audio/webm", "webm")
    } else {
        let mut message = String::from_str("unsupported audio format: .");
        message.append(e);
        Err(message)
    }
}

/// Where the duration and the sample rate of a file come from.
#[derive(Debug, Clone, Copy, PartialEq, Eq, Structural)]
pub enum MetadataSource {
    /// From the header of a WAV file.
    WavHeader,
    /// From the frames of an MP3 file.
    Mp3Frames,
    /// From nowhere.
    Unknown,
}

/// Where the duration and the sample rate of a file of the format `format`
/// come from.
pub fn audio_metadata(format: &str) -> (source: MetadataSource)
    ensures
        source == (if format@ == "wav"@ {
            MetadataSource::WavHeader
        } else if format@ == "mp3"@ {
            MetadataSource::Mp3Frames
        } else {
            MetadataSource::Unknown
        }),
{
    if same_text(format, "wav") {
        MetadataSource::WavHeader
    } else if same_text(format, "mp3") {
        MetadataSource::Mp3Frames
    } else {
        MetadataSource::Unknown
    }
}

/// The duration in microseconds and the sample rate of a WAV file, given
/// the number of sample frames and the sample rate that its header states;
/// nothing for a file whose header could not be read.
pub fn wav_metadata(header: Option<(u32, u32)>) -> (r: (Option<u64>, Option<u32>))
    ensures
        match header {
            Some((frames, rate)) => r.1 == Some(rate) && r.0 == crate::recordings::wav_micros(
                frames,
                rate,
            ),
            None => r.0 is None && r.1 is None,
        },
{
    match header {
        Some((frames, rate)) => (crate::recordings::wav_duration(frames, rate), Some(rate)),
        None => (None, None),
    }
}

/// The duration in microseconds and the sample rate of a WAV file, from the
/// bytes with which it begins.
pub fn wav_file_metadata(bytes: &Vec<u8>) -> (r: (Option<u64>, Option<u32>))
    ensures
        match crate::recordings::parsed_wav_header(bytes@) {
            Some((frames, rate)) => r.1 == Some(rate) && r.0 == crate::recordings::wav_micros(
                frames,
                rate,
            ),
            None => r.0 is None && r.1 is None,
        },
{
    wav_metadata(crate::recordings::read_wav_header(bytes))
}

/// The whole microseconds in `secs` seconds and `nanos` nanoseconds, and no
/// more than a `u64` holds.
pub open spec fn micros_of(secs: u64, nanos: u32) -> u64 {
    let exact = secs as int * 1_000_000 + nanos as int / 1000;
    if exact > u64::MAX {
        u64::MAX
    } else {
        exact as u64
    }
}

/// The duration in microseconds and the sample rate of an MP3 file, given
/// the length that its frames add up to, in seconds and nanoseconds; nothing
/// for a file whose frames could not be read or add up to nothing.  The
/// frames do not give away the sample rate.
pub fn mp3_metadata(length: Option<(u64, u32)>) -> (r: (Option<u64>, Option<u32>))
    ensures
        r.1 is None,
        match length {
            Some((secs, nanos)) => r.0 == (if secs == 0 && nanos == 0 {
                None
            } else {
                Some(micros_of(secs, nanos))
            }),
            None => r.0 is None,
        },
{
    match length {
        Some((secs, nanos)) => {
            if secs == 0 && nanos == 0 {
                (None, None)
            } else {
                let exact: u128 = (secs as u128) * 1_000_000 + (nanos as u128) / 1000;
                if exact > u64::MAX as u128 {
                    (Some(u64::MAX), None)
                } else {
                    (Some(exact as u64), None)
                }
            }
        },
        None => (None, None),
    }
}

// ---------------------------------------------------------------------------
// Planning
// ---------------------------------------------------------------------------

/// What an upload sends.
#[derive(Debug, Clone)]
pub struct UploadPlan {
    /// The server's address, in its normal form.
    pub base_url: String,
    /// The name of the file.
    pub file_name: String,
    pub content_type: String,
    pub format: String,
    /// The title of the recording.
    pub title: String,
}

/// The title of a recording: the one given, unless it is blank; else the
/// name of the file without its extension.
pub open spec fn title_for(title: Option<String>, path: Seq<char>) -> Seq<char> {
    match title {
        Some(t) => if is_blank(t@) {
            file_stem(path)
        } else {
            t@
        },
        None => file_stem(path),
    }
}

/// The title of a recording.
pub fn upload_title(title: &Option<String>, path: &str) -> (t: String)
    ensures
        t@ == title_for(*title, path@),
{
    match title {
        Some(given) => {
            if blank(given.as_str()) {
                file_stem_of(path)
            } else {
                given.clone()
            }
        },
        None => file_stem_of(path),
    }
}

/// Whether the settings hold both a server and a token.
pub open spec fn is_configured(config: AppConfig) -> bool {
    config.server_url@.len() > 0 && config.token@.len() > 0
}

/// The verdict on the settings before a request is made.
pub fn check_configured(config: &AppConfig) -> (r: Result<(), String>)
    ensures
        is_configured(*config) ==> r is Ok,
        !is_configured(*config) ==> (r matches Err(e) && e@
            == "server URL and token must be configured first"@),
{
    if config.server_url.as_str().unicode_len() == 0 || config.token.as_str().unicode_len() == 0 {
        Err(String::from_str("server URL and token must be configured first"))
    } else {
        Ok(())
    }
}

/// Whether `plan` is the plan for uploading the file at `path`.
pub open spec fn is_upload_plan(
    plan: UploadPlan,
    config: AppConfig,
    options: UploadOptions,
) -> bool {
    let path = options.file_path@;
    &&& plan.base_url@ == normalized_url(config.server_url@)
    &&& plan.file_name@ == file_name(path)
    &&& format_of(lower_extension(path)) == Some((plan.content_type@, plan.format@))
    &&& plan.title@ == title_for(options.title, path)
}

/// What an upload is to send, or why there is nothing to send: the
/// settings are incomplete, the file does not exist, its path names no
/// file, or its extension is not one of an audio format, in this order.
pub fn plan_upload(config: &AppConfig, options: &UploadOptions, file_exists: bool) -> (r: Result<
    UploadPlan,
    String,
>)
    ensures
        !is_configured(*config) ==> (r matches Err(e) && e@
            == "server URL and token must be configured first"@),
        is_configured(*config) && !file_exists ==> (r matches Err(e) && e@ == "file not found: "@
            + options.file_path@),
        is_configured(*config) && file_exists && file_name(options.file_path@).len() == 0 ==> (
        r matches Err(e) && e@ == "invalid file path"@),
        is_configured(*config) && file_exists && file_name(options.file_path@).len() > 0
            ==> match format_of(lower_extension(options.file_path@)) {
            Some(_) => r matches Ok(plan) && is_upload_plan(plan, *config, *options),
            None => r matches Err(e) && e@ == "unsupported audio format: ."@ + lower_extension(
                options.file_path@,
            ),
        },
{
    match check_configured(config) {
        Ok(()) => {},
        Err(e) => {
            return Err(e);
        },
    }
    let path = options.file_path.as_str();
    if !file_exists {
        let mut message = String::from_str("file not found: ");
        message.append(path);
        return Err(message);
    }
    let file_name = file_name_of(path);
    if file_name.as_str().unicode_len() == 0 {
        return Err(String::from_str("invalid file path"));
    }
    let (content_type, format) = match detect_audio_format(path) {
        Ok(p) => p,
        Err(e) => {
            return Err(e);
        },
    };
    let title = upload_title(&options.title, path);
    let base_url = normalize_url(config.server_url.as_str());
    Ok(UploadPlan { base_url, file_name, content_type, format, title })
}

/// The address of a part of the server's interface.
pub fn api_endpoint(base_url: &str, route: &str) -> (endpoint: String)
    ensures
        endpoint@ == base_url@ + route@,
{
    let mut endpoint = String::from_str(base_url);
    endpoint.append(route);
    endpoint
}

// ---------------------------------------------------------------------------
// Steps and progress
// ---------------------------------------------------------------------------

/// The steps of an upload, in order.
#[derive(Debug, Clone, Copy, PartialEq, Eq, Structural)]
pub enum UploadStep {
    Presign,
    Upload,
    Create,
}

/// The name of the phase in which a step is carried out.
pub open spec fn phase_name(step: UploadStep) -> Seq<char> {
    match step {
        UploadStep::Presign => "presigning"@,
        UploadStep::Upload => "uploading"@,
        UploadStep::Create => "creating"@,
    }
}

/// The bytes that are sent when a step begins: all of them once the file is
/// uploaded, none before.
pub open spec fn sent_before(step: UploadStep, file_size: u64) -> u64 {
    match step {
        UploadStep::Create => file_size,
        _ => 0,
    }
}

/// The report to make before a step, and whether to go on with the step.
/// An upload that was asked to be cancelled reports that and does not go on.
pub fn checkpoint(step: UploadStep, cancelled: bool, file_size: u64) -> (r: (
    UploadProgress,
    bool,
))
    ensures
        r.1 == !cancelled,
        r.0.phase@ == (if cancelled {
            "cancelled"@
        } else {
            phase_name(step)
        }),
        r.0.bytes_sent == sent_before(step, file_size),
        r.0.bytes_total == file_size,
        r.0.error is None,
{
    let bytes_sent: u64 = match step {
        UploadStep::Create => file_size,
        _ => 0,
    };
    let phase = if cancelled {
        String::from_str("cancelled")
    } else {
        match step {
            UploadStep::Presign => String::from_str("presigning"),
            UploadStep::Upload => String::from_str("uploading"),
            UploadStep::Create => String::from_str("creating"),
        }
    };
    (UploadProgress { phase, bytes_sent, bytes_total: file_size, error: None }, !cancelled)
}

/// The report of a finished upload.
pub fn completed(file_size: u64) -> (progress: UploadProgress)
    ensures
        progress.phase@ == "completed"@,
        progress.bytes_sent == file_size,
        progress.bytes_total == file_size,
        progress.error is None,
{
    UploadProgress {
        phase: String::from_str("completed"),
        bytes_sent: file_size,
        bytes_total: file_size,
        error: None,
    }
}

/// The size of the pieces in which a file is sent.
pub const CHUNK_SIZE: usize = 65536;

/// The number of pieces in which `len` bytes are sent.
pub open spec fn chunk_count(len: nat) -> nat {
    (len + CHUNK_SIZE - 1) as nat / (CHUNK_SIZE as nat)
}

/// Where piece number `i` of `len` bytes begins.
pub open spec fn chunk_start(i: nat) -> nat {
    i * CHUNK_SIZE as nat
}

/// Where piece number `i` of `len` bytes ends.
pub open spec fn chunk_end(i: nat, len: nat) -> nat {
    if (i + 1) * CHUNK_SIZE as nat <= len {
        (i + 1) * CHUNK_SIZE as nat
    } else {
        len
    }
}

/// The pieces in which `len` bytes are sent, each as the index of its first
/// byte and the index behind its last: pieces of `CHUNK_SIZE` bytes, the last
/// one shorter where `len` is no multiple of that.
pub fn upload_chunks(len: usize) -> (chunks: Vec<(usize, usize)>)
    ensures
        chunks.len() == chunk_count(len as nat),
        forall|i: int|
            0 <= i < chunks.len() ==> (#[trigger] chunks[i]).0 == chunk_start(i as nat)
                && chunks[i].1 == chunk_end(i as nat, len as nat) && chunks[i].0 < chunks[i].1,
{
    let mut chunks: Vec<(usize, usize)> = Vec::new();
    let mut start: usize = 0;
    while start < len
        invariant
            start <= len,
            start == chunks.len() * CHUNK_SIZE || start == len,
            start == len ==> chunks.len() == chunk_count(len as nat),
            start < len ==> chunks.len() < chunk_count(len as nat),
            forall|i: int|
                0 <= i < chunks.len() ==> (#[trigger] chunks[i]).0 == chunk_start(i as nat)
                    && chunks[i].1 == chunk_end(i as nat, len as nat) && chunks[i].0
                    < chunks[i].1,
        decreases len - start,
    {
        let k: usize = chunks.len();
        assert(start == k * CHUNK_SIZE);
        let end: usize = if len - start > CHUNK_SIZE {
            start + CHUNK_SIZE
        } else {
            len
        };
        proof {
            assert((k + 1) * CHUNK_SIZE == k * CHUNK_SIZE + CHUNK_SIZE) by (nonlinear_arith);
            if end == len {
                // len - start <= CHUNK_SIZE: this is the last piece
                assert(len <= (k + 1) * 65536);
                assert(len > k * 65536);
                assert((len + 65535) / 65536 == k + 1) by (nonlinear_arith)
                    requires
                        k * 65536 < len <= (k + 1) * 65536,
                ;
            } else {
                assert(len > (k + 1) * 65536);
                assert((len + 65535) / 65536 > k + 1) by (nonlinear_arith)
                    requires
                        len > (k + 1) * 65536,
                ;
            }
        }
        chunks.push((start, end));
        start = end;
    }
    proof {
        if len == 0 {
            assert(chunk_count(0) == 0);
        }
    }
    chunks
}

/// The pieces cover the bytes without gap and without overlap: the first
/// begins at the first byte, each begins where the one before it ends, and
/// the last ends behind the last byte.
pub proof fn lemma_chunks_tile(len: nat, i: nat)
    requires
        i < chunk_count(len),
    ensures
        chunk_start(0) == 0,
        chunk_start(i) < chunk_end(i, len) <= len,
        chunk_end(i, len) - chunk_start(i) <= CHUNK_SIZE,
        i + 1 < chunk_count(len) ==> chunk_end(i, len) == chunk_start(i + 1),
        i + 1 == chunk_count(len) ==> chunk_end(i, len) == len,
{
    assert(i * 65536 < len) by (nonlinear_arith)
        requires
            i < (len + 65535) / 65536,
    ;
    assert((i + 1) * 65536 == i * 65536 + 65536) by (nonlinear_arith);
    if i + 1 < chunk_count(len) {
        assert((i + 1) * 65536 < len) by (nonlinear_arith)
            requires
                i + 1 < (len + 65535) / 65536,
        ;
    } else {
        assert(len <= (i + 1) * 65536) by (nonlinear_arith)
            requires
                i + 1 == (len + 65535) / 65536,
        ;
    }
}

/// The report after a piece of `chunk_len` bytes was handed over, `sent`
/// bytes having been handed over before.
pub fn chunk_progress(sent: u64, chunk_len: usize, total: u64) -> (progress: UploadProgress)
    ensures
        progress.phase@ == "uploading"@,
        progress.bytes_sent as int == (if sent + chunk_len > u64::MAX {
            u64::MAX as int
        } else {
            sent + chunk_len
        }),
        progress.bytes_total == total,
        progress.error is None,
{
    let bytes_sent: u64 = sent.saturating_add(chunk_len as u64);
    UploadProgress {
        phase: String::from_str("uploading"),
        bytes_sent,
        bytes_total: total,
        error: None,
    }
}

// ---------------------------------------------------------------------------
// Answers
// ---------------------------------------------------------------------------

/// The message for a request that the server answered without success.
pub open spec fn failure_message(label: Seq<char>, status_text: Seq<char>, body: Seq<char>) -> Seq<
    char,
> {
    label + " (HTTP "@ + status_text + "): "@ + body
}

/// Whether the text of an answer is needed to word the verdict on it: it is
/// for an answer without success, unless the answer is a refused token.
pub fn reads_body(status: u16, checks_token: bool) -> (b: bool)
    ensures
        b == (!is_success(status) && !(checks_token && status == 401)),
{
    (status < 200 || status > 299) && !(checks_token && status == 401)
}

/// The verdict on the server's answer to a request.
///
/// `label` says what failed, `status_text` is the status as the HTTP client
/// prints it, and `body` is the text of the answer.  Where `checks_token` is
/// set, the status 401 is reported as a refused token.
pub fn check_response(
    label: &str,
    status: u16,
    status_text: &str,
    body: &str,
    checks_token: bool,
) -> (r: Result<(), String>)
    ensures
        checks_token && status == 401 ==> (r matches Err(e) && e@
            == "authentication failed -- check your device token"@),
        !(checks_token && status == 401) && !is_success(status) ==> (r matches Err(e) && e@
            == failure_message(label@, status_text@, body@)),
        !(checks_token && status == 401) && is_success(status) ==> r is Ok,
{
    if checks_token && status == 401 {
        return Err(String::from_str("authentication failed -- check your device token"));
    }
    if status < 200 || status > 299 {
        let mut message = String::from_str(label);
        message.append(" (HTTP ");
        message.append(status_text);
        message.append("): ");
        message.append(body);
        return Err(message);
    }
    Ok(())
}

/// The message for a transfer that broke off: a cancelled upload says so,
/// whatever the transport said.
pub fn transfer_error(cancelled: bool, why: &str) -> (message: String)
    ensures
        message@ == (if cancelled {
            "upload cancelled"@
        } else {
            "OSS upload failed: "@ + why@
        }),
{
    if cancelled {
        String::from_str("upload cancelled")
    } else {
        let mut message = String::from_str("OSS upload failed: ");
        message.append(why);
        message
    }
}

} // verus!
