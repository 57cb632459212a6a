//! Capture sessions: system audio and microphone from one native stream.
//!
//! The native capture handle belongs to the thread that made it and never
//! enters the library.  The library decides how the stream is to be set up,
//! takes the raw buffers that the stream delivers, and says what goes on to
//! the encoder; its owner holds the handle, and reports what the platform
//! answered.

use crate::mixer::{fresh, push_emits, pushed, AudioMixer, Feed, MixerState, DEFAULT_MAX_PENDING};
use crate::recorder::text_view;
use crate::sample::{carried_of, mono_from_ieee, mono_of_ieee};
use vstd::prelude::*;

verus! {

// ---------------------------------------------------------------------------
// Permission and devices
// ---------------------------------------------------------------------------

/// Whether the platform lets this application capture.
#[derive(Debug, Clone, Copy, PartialEq, Eq, Structural)]
pub enum PermissionStatus {
    /// Capture is allowed.
    Granted,
    /// Capture was denied, or never asked for.
    Denied,
}

/// The permission, as a probe of the platform's shareable content shows it:
/// the probe succeeds exactly where capture is allowed.
pub fn check_permission(probe_succeeded: bool) -> (status: PermissionStatus)
    ensures
        status == (if probe_succeeded {
            PermissionStatus::Granted
        } else {
            PermissionStatus::Denied
        }),
{
    if probe_succeeded {
        PermissionStatus::Granted
    } else {
        PermissionStatus::Denied
    }
}

/// A microphone endpoint.
#[derive(Debug, Clone)]
pub struct AudioInputDeviceInfo {
    pub id: String,
    pub name: String,
}

/// The microphone endpoints, from the pairs of id and name that the platform
/// lists, in its order.
pub fn list_audio_input_devices(endpoints: Vec<(String, String)>) -> (list: Vec<
    AudioInputDeviceInfo,
>)
    ensures
        list.len() == endpoints.len(),
        forall|i: int|
            0 <= i < list.len() ==> (#[trigger] list[i]).id@ == endpoints[i].0@ && list[i].name@
                == endpoints[i].1@,
{
    let mut list: Vec<AudioInputDeviceInfo> = Vec::with_capacity(endpoints.len());
    let mut i: usize = 0;
    while i < endpoints.len()
        invariant
            i <= endpoints.len(),
            list.len() == i,
            forall|j: int|
                0 <= j < i ==> (#[trigger] list[j]).id@ == endpoints[j].0@ && list[j].name@
                    == endpoints[j].1@,
        decreases endpoints.len() - i,
    {
        let id = endpoints[i].0.clone();
        let name = endpoints[i].1.clone();
        list.push(AudioInputDeviceInfo { id, name });
        i += 1;
    }
    list
}

/// What a capture session is asked for.
#[derive(Debug, Clone)]
pub struct CaptureConfig {
    /// The sample rate, in Hz.
    pub sample_rate: u32,
    /// Whether to capture what the system plays.
    pub capture_system_audio: bool,
    /// Whether to capture the microphone.
    pub capture_microphone: bool,
    /// The id of the microphone to use; `None` for the system's default.
    pub microphone_device_id: Option<String>,
}

impl Default for CaptureConfig {
    /// Both feeds at 48 kHz, from the default microphone.
    fn default() -> (config: Self)
        ensures
            config.sample_rate == 48000,
            config.capture_system_audio,
            config.capture_microphone,
            config.microphone_device_id is None,
    {
        CaptureConfig {
            sample_rate: 48000,
            capture_system_audio: true,
            capture_microphone: true,
            microphone_device_id: None,
        }
    }
}

/// What can go wrong with a capture session.
#[derive(Debug, Clone)]
pub enum CaptureError {
    PermissionDenied(String),
    NoDisplay,
    StartFailed(String),
    StopFailed(String),
}

/// The message of an error.
pub open spec fn capture_error_text(e: CaptureError) -> Seq<char> {
    match e {
        CaptureError::PermissionDenied(m) => "permission denied: "@ + m@,
        CaptureError::NoDisplay => "no display found"@,
        CaptureError::StartFailed(m) => "failed to start capture: "@ + m@,
        CaptureError::StopFailed(m) => "failed to stop capture: "@ + m@,
    }
}

fn with_prefix(prefix: &str, message: &String) -> (text: String)
    ensures
        text@ == prefix@ + message@,
{
    let mut text = String::from_str(prefix);
    text.append(message.as_str());
    text
}

impl CaptureError {
    /// The message of the error, for people to read.
    pub fn to_string(&self) -> (text: String)
        ensures
            text@ == capture_error_text(*self),
    {
        match self {
            CaptureError::PermissionDenied(m) => with_prefix("permission denied: ", m),
            CaptureError::NoDisplay => String::from_str("no display found"),
            CaptureError::StartFailed(m) => with_prefix("failed to start capture: ", m),
            CaptureError::StopFailed(m) => with_prefix("failed to stop capture: ", m),
        }
    }
}

// ---------------------------------------------------------------------------
// Raw buffers
// ---------------------------------------------------------------------------

/// One buffer of a sample buffer list: interleaved 32-bit float PCM as raw
/// bytes, in little-endian byte order.
#[derive(Debug, Clone)]
pub struct AudioBuffer {
    pub data: Vec<u8>,
    pub number_channels: u32,
}

/// The 32-bit word that the bytes `4 * i` to `4 * i + 3` of `data` hold.
pub open spec fn word_at(data: Seq<u8>, i: int) -> u32 {
    (data[4 * i] as int + 0x100 * data[4 * i + 1] as int + 0x1_0000 * data[4 * i + 2] as int
        + 0x100_0000 * data[4 * i + 3] as int) as u32
}

/// The 32-bit words that `data` holds.
pub open spec fn words_of(data: Seq<u8>) -> Seq<u32> {
    Seq::new((data.len() / 4) as nat, |i: int| word_at(data, i))
}

/// The mono samples of one buffer.
///
/// An empty buffer and a buffer that does not hold whole words give nothing.
/// A buffer with more than one channel is averaged into mono and sanitized
/// after, unless the stream was set up for one channel, in which case its
/// data are mono already and are carried as they are.
pub open spec fn buffer_samples(data: Seq<u8>, channels: u32, expected_channels: u32) -> Seq<i32> {
    if data.len() == 0 || data.len() % 4 != 0 {
        Seq::empty()
    } else if channels <= 1 || expected_channels == 1 {
        carried_of(words_of(data))
    } else {
        mono_of_ieee(words_of(data), channels as int)
    }
}

/// The mono samples of the first `n` buffers of a list, in order.
pub open spec fn buffers_samples(buffers: Seq<AudioBuffer>, expected_channels: u32, n: int) -> Seq<
    i32,
>
    decreases n,
{
    if n <= 0 {
        Seq::empty()
    } else {
        buffers_samples(buffers, expected_channels, n - 1) + buffer_samples(
            buffers[n - 1].data@,
            buffers[n - 1].number_channels,
            expected_channels,
        )
    }
}

/// The mono samples of a buffer list; `None` where it holds none.
pub open spec fn extracted(buffers: Seq<AudioBuffer>, expected_channels: u32) -> Option<Seq<i32>> {
    let all = buffers_samples(buffers, expected_channels, buffers.len() as int);
    if all.len() == 0 {
        None
    } else {
        Some(all)
    }
}

/// The little-endian 32-bit words of `data`.
fn words_from_bytes(data: &Vec<u8>) -> (words: Vec<u32>)
    requires
        data.len() % 4 == 0,
    ensures
        words@ == words_of(data@),
{
    let n: usize = data.len() / 4;
    let mut words: Vec<u32> = Vec::with_capacity(n);
    let mut i: usize = 0;
    while i < n
        invariant
            i <= n,
            n == data.len() / 4,
            data.len() % 4 == 0,
            words.len() == i,
            forall|j: int| 0 <= j < i ==> #[trigger] words[j] == word_at(data@, j),
        decreases n - i,
    {
        let b0: u32 = data[4 * i] as u32;
        let b1: u32 = data[4 * i + 1] as u32;
        let b2: u32 = data[4 * i + 2] as u32;
        let b3: u32 = data[4 * i + 3] as u32;
        words.push(b0 + 0x100 * b1 + 0x1_0000 * b2 + 0x100_0000 * b3);
        i += 1;
    }
    assert(words@ =~= words_of(data@));
    words
}

/// Extracts the mono samples of a sample buffer list.
pub fn extract_mono_samples(buffers: &Vec<AudioBuffer>, expected_channels: u32) -> (pcm: Option<
    Vec<i32>,
>)
    ensures
        pcm is Some == extracted(buffers@, expected_channels) is Some,
        pcm matches Some(p) ==> p@ == extracted(buffers@, expected_channels).unwrap(),
{
    let mut all: Vec<i32> = Vec::new();
    let mut k: usize = 0;
    while k < buffers.len()
        invariant
            k <= buffers.len(),
            all@ == buffers_samples(buffers@, expected_channels, k as int),
        decreases buffers.len() - k,
    {
        let buf = &buffers[k];
        let ghost before = all@;
        if buf.data.len() != 0 && buf.data.len() % 4 == 0 {
            let words = words_from_bytes(&buf.data);
            let channels: usize = if buf.number_channels <= 1 || expected_channels == 1 {
                1
            } else {
                buf.number_channels as usize
            };
            let mono = mono_from_ieee(words.as_slice(), channels);
            all.extend_from_slice(mono.as_slice());
            assert(all@ =~= before + mono@);
        } else {
            assert(all@ =~= before + Seq::<i32>::empty());
        }
        k += 1;
    }
    if all.len() == 0 {
        None
    } else {
        Some(all)
    }
}

// ---------------------------------------------------------------------------
// Routing
// ---------------------------------------------------------------------------

/// The kinds of output that a native stream delivers.
#[derive(Debug, Clone, Copy, PartialEq, Eq, Structural)]
pub enum StreamOutputType {
    Screen,
    Audio,
    Microphone,
}

/// Where the samples of a session go.
pub enum OutputTarget {
    /// Straight on: there is one feed and nothing to mix.
    Direct,
    /// Through the mixer: there are two feeds.
    Mixer(AudioMixer),
}

/// An output target, as far as contracts go.
pub enum TargetState {
    Direct,
    Mixer(MixerState),
}

impl View for OutputTarget {
    type V = TargetState;

    open spec fn view(&self) -> TargetState {
        match self {
            OutputTarget::Direct => TargetState::Direct,
            OutputTarget::Mixer(m) => TargetState::Mixer(m@),
        }
    }
}

/// What is handed on when samples of kind `kind` reach a target.
pub open spec fn target_emits(target: TargetState, kind: StreamOutputType, pcm: Seq<i32>) -> Option<
    Seq<i32>,
> {
    match target {
        TargetState::Direct => Some(pcm),
        TargetState::Mixer(m) => match kind {
            StreamOutputType::Audio => push_emits(m, Feed::System, pcm),
            StreamOutputType::Microphone => push_emits(m, Feed::Microphone, pcm),
            StreamOutputType::Screen => None,
        },
    }
}

/// The target after samples of kind `kind` have reached it.
pub open spec fn target_after(target: TargetState, kind: StreamOutputType, pcm: Seq<i32>)
    -> TargetState {
    match target {
        TargetState::Direct => TargetState::Direct,
        TargetState::Mixer(m) => match kind {
            StreamOutputType::Audio => TargetState::Mixer(pushed(m, Feed::System, pcm)),
            StreamOutputType::Microphone => TargetState::Mixer(pushed(m, Feed::Microphone, pcm)),
            StreamOutputType::Screen => target,
        },
    }
}

/// Receives the buffers of one kind of output and passes their samples on.
///
/// A stream may hand every buffer to every handler, whatever kind the handler
/// was registered for.  A handler therefore looks at the kind of each buffer
/// and lets those of other kinds pass.
#[derive(Debug, Clone, Copy)]
pub struct AudioOutputHandler {
    /// The number of channels that the stream was set up with.
    pub channels: u32,
    /// The kind of output that this handler answers for.
    pub expected_type: StreamOutputType,
}

/// What a handler hands on for a buffer list of kind `output_type`.
pub open spec fn handler_emits(
    handler: AudioOutputHandler,
    target: TargetState,
    buffers: Seq<AudioBuffer>,
    output_type: StreamOutputType,
) -> Option<Seq<i32>> {
    if output_type != handler.expected_type {
        None
    } else {
        match extracted(buffers, handler.channels) {
            None => None,
            Some(pcm) => target_emits(target, handler.expected_type, pcm),
        }
    }
}

/// The target after a handler has seen a buffer list of kind `output_type`.
pub open spec fn handler_leaves(
    handler: AudioOutputHandler,
    target: TargetState,
    buffers: Seq<AudioBuffer>,
    output_type: StreamOutputType,
) -> TargetState {
    if output_type != handler.expected_type {
        target
    } else {
        match extracted(buffers, handler.channels) {
            None => target,
            Some(pcm) => target_after(target, handler.expected_type, pcm),
        }
    }
}

impl AudioOutputHandler {
    /// Takes a buffer list as the stream delivers it and returns the samples
    /// to hand on, if any.
    pub fn did_output_sample_buffer(
        &self,
        target: &mut OutputTarget,
        buffers: &Vec<AudioBuffer>,
        output_type: StreamOutputType,
    ) -> (out: Option<Vec<i32>>)
        ensures
            final(target)@ == handler_leaves(*self, old(target)@, buffers@, output_type),
            out is Some == handler_emits(*self, old(target)@, buffers@, output_type) is Some,
            out matches Some(o) ==> o@ == handler_emits(
                *self,
                old(target)@,
                buffers@,
                output_type,
            ).unwrap(),
    {
        if output_type != self.expected_type {
            return None;
        }
        let pcm = match extract_mono_samples(buffers, self.channels) {
            Some(p) => p,
            None => {
                return None;
            },
        };
        match target {
            OutputTarget::Direct => Some(pcm),
            OutputTarget::Mixer(mixer) => match self.expected_type {
                StreamOutputType::Audio => mixer.push_system(pcm.as_slice()),
                StreamOutputType::Microphone => mixer.push_mic(pcm.as_slice()),
                StreamOutputType::Screen => None,
            },
        }
    }
}

// ---------------------------------------------------------------------------
// Sessions
// ---------------------------------------------------------------------------

/// What the platform showed when it was asked about capture.
#[derive(Debug, Clone)]
pub struct CaptureProbe {
    /// What the platform said when it refused to list shareable content;
    /// `None` where it listed it.
    pub permission_error: Option<String>,
    /// The number of displays that it listed.
    pub display_count: usize,
    /// The microphone endpoints that it listed.
    pub microphones: Vec<AudioInputDeviceInfo>,
}

/// How the native stream is to be set up.
#[derive(Debug, Clone)]
pub struct StreamPlan {
    /// The width and height of the video frames, which are asked for only
    /// because the platform insists on video.
    pub width: u32,
    pub height: u32,
    /// Whether the stream captures what the system plays.
    pub captures_audio: bool,
    /// The sample rate of the system feed, in Hz.
    pub sample_rate: i32,
    /// The number of channels of the system feed.
    pub channel_count: u32,
    /// Whether the stream captures the microphone.
    pub captures_microphone: bool,
    /// The id of the microphone to capture; `None` for the default one.
    pub microphone_device_id: Option<String>,
    /// Whether a microphone was asked for by an id that the platform does not
    /// list, so that the default one stands in.
    pub fell_back: bool,
}

/// Whether `devices` lists a microphone with the id `id`.
pub open spec fn lists_id(devices: Seq<AudioInputDeviceInfo>, id: Seq<char>) -> bool {
    exists|i: int| 0 <= i < devices.len() && (#[trigger] devices[i]).id@ == id
}

/// The microphone that a session captures, by its id: the one asked for if
/// the platform lists it, else the default one.
pub open spec fn planned_microphone(config: CaptureConfig, devices: Seq<AudioInputDeviceInfo>)
    -> Option<Seq<char>> {
    match config.microphone_device_id {
        Some(id) => if config.capture_microphone && lists_id(devices, id@) {
            Some(id@)
        } else {
            None
        },
        None => None,
    }
}

/// Whether the stream plan `plan` is the one for `config`.
pub open spec fn is_plan_for(
    plan: StreamPlan,
    config: CaptureConfig,
    devices: Seq<AudioInputDeviceInfo>,
) -> bool {
    &&& plan.width == 2
    &&& plan.height == 2
    &&& plan.captures_audio == config.capture_system_audio
    &&& plan.sample_rate == config.sample_rate as i32
    &&& plan.channel_count == 1
    &&& plan.captures_microphone == config.capture_microphone
    &&& text_view(plan.microphone_device_id) == planned_microphone(config, devices)
    &&& plan.fell_back == (config.capture_microphone && config.microphone_device_id is Some
        && planned_microphone(config, devices) is None)
}

fn has_id(devices: &Vec<AudioInputDeviceInfo>, id: &String) -> (found: bool)
    ensures
        found == lists_id(devices@, id@),
{
    let mut i: usize = 0;
    while i < devices.len()
        invariant
            i <= devices.len(),
            forall|j: int| 0 <= j < i ==> (#[trigger] devices[j]).id@ != id@,
        decreases devices.len() - i,
    {
        if devices[i].id == *id {
            return true;
        }
        i += 1;
    }
    false
}

/// An open capture session.
pub struct SystemAudioCapture {
    plan: StreamPlan,
    target: OutputTarget,
    running: bool,
}

/// A session, as far as contracts go.
pub struct SessionState {
    pub target: TargetState,
    pub running: bool,
}

impl View for SystemAudioCapture {
    type V = SessionState;

    closed spec fn view(&self) -> SessionState {
        SessionState { target: self.target@, running: self.running }
    }
}

/// The text with which a refused permission is reported.
pub open spec fn permission_message(reason: Seq<char>) -> Seq<char> {
    "screen capture permission denied or unavailable: "@ + reason
}

/// Opens a capture session for `config`.
///
/// Without the permission to capture the session is refused, and so it is
/// without a display, which the platform needs even for sound alone.  With
/// the microphone the session mixes two feeds; without it the system feed
/// goes straight on.
pub fn start_capture(config: &CaptureConfig, probe: &CaptureProbe) -> (r: Result<
    SystemAudioCapture,
    CaptureError,
>)
    ensures
        probe.permission_error matches Some(reason) ==> (r matches Err(
            CaptureError::PermissionDenied(m),
        ) && m@ == permission_message(reason@)),
        probe.permission_error is None && probe.display_count == 0 ==> (r matches Err(e) && e
            is NoDisplay),
        probe.permission_error is None && probe.display_count > 0 ==> (r matches Ok(session)
            && is_plan_for(session.spec_plan(), *config, probe.microphones@) && !session@.running
            && session@.target == (if config.capture_microphone {
            TargetState::Mixer(fresh(DEFAULT_MAX_PENDING as nat))
        } else {
            TargetState::Direct
        })),
{
    match &probe.permission_error {
        Some(reason) => {
            return Err(
                CaptureError::PermissionDenied(
                    with_prefix("screen capture permission denied or unavailable: ", reason),
                ),
            );
        },
        None => {},
    }
    if probe.display_count == 0 {
        return Err(CaptureError::NoDisplay);
    }
    let mut microphone_device_id: Option<String> = None;
    let mut fell_back: bool = false;
    if config.capture_microphone {
        match &config.microphone_device_id {
            Some(id) => {
                if has_id(&probe.microphones, id) {
                    microphone_device_id = Some(id.clone());
                } else {
                    fell_back = true;
                }
            },
            None => {},
        }
    }
    let plan = StreamPlan {
        width: 2,
        height: 2,
        captures_audio: config.capture_system_audio,
        sample_rate: #[verifier::truncate]
        (config.sample_rate as i32),
        channel_count: 1,
        captures_microphone: config.capture_microphone,
        microphone_device_id,
        fell_back,
    };
    let target = if config.capture_microphone {
        OutputTarget::Mixer(AudioMixer::new())
    } else {
        OutputTarget::Direct
    };
    Ok(SystemAudioCapture { plan, target, running: false })
}

impl SystemAudioCapture {
    /// How the native stream of this session is to be set up.
    pub closed spec fn spec_plan(&self) -> StreamPlan {
        self.plan
    }

    /// How the native stream of this session is to be set up.
    pub fn plan(&self) -> (plan: &StreamPlan)
        ensures
            *plan == self.spec_plan(),
    {
        &self.plan
    }

    /// The handlers to register with the native stream, one for each kind of
    /// output that the session listens to.
    pub fn handlers(&self) -> (handlers: Vec<AudioOutputHandler>)
        ensures
            handlers.len() == (if self@.target is Mixer {
                2nat
            } else {
                1nat
            }),
            handlers[0].expected_type == StreamOutputType::Audio,
            handlers.len() == 2 ==> handlers[1].expected_type == StreamOutputType::Microphone,
            forall|i: int| 0 <= i < handlers.len() ==> (#[trigger] handlers[i]).channels == 1,
    {
        let mut handlers: Vec<AudioOutputHandler> = Vec::new();
        handlers.push(AudioOutputHandler { channels: 1, expected_type: StreamOutputType::Audio });
        match &self.target {
            OutputTarget::Mixer(_) => {
                handlers.push(
                    AudioOutputHandler {
                        channels: 1,
                        expected_type: StreamOutputType::Microphone,
                    },
                );
            },
            OutputTarget::Direct => {},
        }
        handlers
    }

    /// Takes what the platform answered when the stream was started: the
    /// session is running, or the start failed with the platform's message.
    pub fn started(&mut self, failure: Option<String>) -> (r: Result<(), CaptureError>)
        ensures
            failure matches Some(m) ==> (r matches Err(CaptureError::StartFailed(t)) && t@ == m@)
                && final(self)@ == old(self)@,
            failure is None ==> r is Ok && final(self)@ == (SessionState {
                running: true,
                ..old(self)@
            }),
            final(self).spec_plan() == old(self).spec_plan(),
    {
        match failure {
            Some(m) => Err(CaptureError::StartFailed(m)),
            None => {
                self.running = true;
                Ok(())
            },
        }
    }

    /// Takes a buffer list from the stream, on behalf of `handler`, and
    /// returns the samples to hand on to the encoder, if any.
    pub fn deliver(
        &mut self,
        handler: &AudioOutputHandler,
        buffers: &Vec<AudioBuffer>,
        output_type: StreamOutputType,
    ) -> (out: Option<Vec<i32>>)
        ensures
            final(self)@.target == handler_leaves(
                *handler,
                old(self)@.target,
                buffers@,
                output_type,
            ),
            final(self)@.running == old(self)@.running,
            final(self).spec_plan() == old(self).spec_plan(),
            out is Some == handler_emits(*handler, old(self)@.target, buffers@, output_type)
                is Some,
            out matches Some(o) ==> o@ == handler_emits(
                *handler,
                old(self)@.target,
                buffers@,
                output_type,
            ).unwrap(),
    {
        handler.did_output_sample_buffer(&mut self.target, buffers, output_type)
    }

    /// Ends the session, given what the platform answered when the stream
    /// was stopped.  What the mixer still holds is dropped.
    pub fn stop(self, failure: Option<String>) -> (r: Result<(), CaptureError>)
        ensures
            failure matches Some(m) ==> (r matches Err(CaptureError::StopFailed(t)) && t@ == m@),
            failure is None ==> r is Ok,
    {
        match failure {
            Some(m) => Err(CaptureError::StopFailed(m)),
            None => Ok(()),
        }
    }
}

} // verus!
