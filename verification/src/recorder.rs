//! The recording controller: an idle/recording state machine that owns the
//! encoding sink and the capture session of the recording in progress.
//!
//! The controller decides; its owner acts.  `plan_start` says which device to
//! open and which file to create, the owner opens and creates them, and
//! `start` takes what was opened and moves to `Recording`, or stays `Idle`
//! with the error that belongs to the step that failed.  While recording,
//! what the devices deliver goes through the controller and comes back as
//! bytes for the file.  `stop` closes the sink and hands back the path of the
//! finished file with the bytes that finish it.

use crate::audio::{position_of, AudioDeviceManager, DeviceRef, HostDevices};
use crate::capture::{
    handler_emits, handler_leaves, AudioBuffer, AudioOutputHandler, CaptureError, SessionState,
    StreamOutputType, SystemAudioCapture,
};
use crate::encoder::{
    accepts, closes, encode_samples_i16, encode_samples_ieee, encode_samples_u16,
    extension_of_format, pcm16_bytes, written, Closing, EncodingSink, OutputFormat, SinkState,
};
use crate::filename::{recording_name, recording_name_at, Timestamp};
use crate::paths::{audio_dir, home_dir, join_path, joined};
use crate::sample::{downmixed, mono_of_ieee, samples_of_i16, samples_of_u16};
use vstd::prelude::*;

verus! {

/// Whether a recording is in progress.
#[derive(Debug, Clone, Copy, PartialEq, Eq, Structural)]
pub enum RecorderState {
    Idle,
    Recording,
}

/// What can go wrong with a recording.
#[derive(Debug, Clone)]
pub enum RecordError {
    AlreadyRecording,
    NotRecording,
    DeviceNotFound,
    NoDefaultDevice,
    PermissionDenied(String),
    NoSource,
    ConfigError(String),
    CaptureError(String),
    StreamError(String),
    IoError(String),
    UnsupportedFormat(String),
    EncoderError(String),
}

/// The message of an error.
pub open spec fn error_text(e: RecordError) -> Seq<char> {
    match e {
        RecordError::AlreadyRecording => "already recording"@,
        RecordError::NotRecording => "not recording"@,
        RecordError::DeviceNotFound => "audio device not found"@,
        RecordError::NoDefaultDevice => "no default input device"@,
        RecordError::PermissionDenied(m) => "permission denied: "@ + m@,
        RecordError::NoSource => "no capture source found"@,
        RecordError::ConfigError(m) => "config error: "@ + m@,
        RecordError::CaptureError(m) => "capture error: "@ + m@,
        RecordError::StreamError(m) => "stream error: "@ + m@,
        RecordError::IoError(m) => "I/O error: "@ + m@,
        RecordError::UnsupportedFormat(m) => "unsupported sample format: "@ + m@,
        RecordError::EncoderError(m) => "encoder error: "@ + m@,
    }
}

fn prefixed(prefix: &str, message: &String) -> (text: String)
    ensures
        text@ == prefix@ + message@,
{
    let mut text = String::from_str(prefix);
    text.append(message.as_str());
    text
}

impl RecordError {
    /// The message of the error, for people to read.
    pub fn to_string(&self) -> (text: String)
        ensures
            text@ == error_text(*self),
    {
        match self {
            RecordError::AlreadyRecording => String::from_str("already recording"),
            RecordError::NotRecording => String::from_str("not recording"),
            RecordError::DeviceNotFound => String::from_str("audio device not found"),
            RecordError::NoDefaultDevice => String::from_str("no default input device"),
            RecordError::PermissionDenied(m) => prefixed("permission denied: ", m),
            RecordError::NoSource => String::from_str("no capture source found"),
            RecordError::ConfigError(m) => prefixed("config error: ", m),
            RecordError::CaptureError(m) => prefixed("capture error: ", m),
            RecordError::StreamError(m) => prefixed("stream error: ", m),
            RecordError::IoError(m) => prefixed("I/O error: ", m),
            RecordError::UnsupportedFormat(m) => prefixed("unsupported sample format: ", m),
            RecordError::EncoderError(m) => prefixed("encoder error: ", m),
        }
    }
}

// ---------------------------------------------------------------------------
// Configuration
// ---------------------------------------------------------------------------

/// Where recordings go and which device they come from.
#[derive(Debug, Clone)]
pub struct RecorderConfig {
    /// The directory in which recordings are saved.
    pub output_dir: String,
    /// The name of the selected input device; `None` for the default device.
    pub selected_device_name: Option<String>,
}

/// The name of the directory for recordings.
pub open spec fn recordings_dir_name() -> Seq<char> {
    "Lyre Recordings"@
}

/// The default directory for recordings: `Lyre Recordings` below the user's
/// audio directory; below `Music` in the home directory where there is no
/// audio directory; below the working directory where there is neither.
pub open spec fn default_dir(audio: Option<Seq<char>>, home: Option<Seq<char>>) -> Seq<char> {
    let base = match audio {
        Some(a) => a,
        None => match home {
            Some(h) => joined(h, "Music"@),
            None => "."@,
        },
    };
    joined(base, recordings_dir_name())
}

/// The characters of a text, where there is one.
pub open spec fn text_view(s: Option<String>) -> Option<Seq<char>> {
    match s {
        Some(t) => Some(t@),
        None => None,
    }
}

/// The default directory for recordings, given the user's audio directory
/// and home directory as far as they are known.
pub fn default_output_dir_from(audio: Option<String>, home: Option<String>) -> (dir: String)
    ensures
        dir@ == default_dir(text_view(audio), text_view(home)),
{
    let base: String = match audio {
        Some(a) => a,
        None => match home {
            Some(h) => join_path(h.as_str(), "Music"),
            None => String::from_str("."),
        },
    };
    join_path(base.as_str(), "Lyre Recordings")
}

impl Default for RecorderConfig {
    /// The default directory for recordings in this user's environment, and
    /// no device selected.
    fn default() -> (config: Self)
        ensures
            config.selected_device_name is None,
            exists|audio: Option<Seq<char>>, home: Option<Seq<char>>|
                config.output_dir@ == default_dir(audio, home),
    {
        let audio = audio_dir();
        let home = home_dir();
        let ghost a = text_view(audio);
        let ghost h = text_view(home);
        let output_dir = default_output_dir_from(audio, home);
        assert(output_dir@ == default_dir(a, h));
        RecorderConfig { output_dir, selected_device_name: None }
    }
}

// ---------------------------------------------------------------------------
// Starting
// ---------------------------------------------------------------------------

/// The steps of a start that the controller's owner carries out.
#[derive(Debug, Clone, Copy, PartialEq, Eq, Structural)]
pub enum StartStep {
    /// Asking the platform for the permission to capture.
    Permission,
    /// Finding what the platform wants to capture from.
    Source,
    /// Asking the device for its default input format.
    QueryFormat,
    /// Creating the output directory.
    CreateDir,
    /// Setting up the encoder.
    BuildEncoder,
    /// Creating the output file.
    CreateFile,
    /// Telling whether the device's sample format is one that can be read.
    SampleFormat,
    /// Opening the input stream.
    BuildStream,
    /// Starting the input stream.
    Play,
    /// Starting or stopping the capture session.
    Capture,
}

/// A step that failed, with what the failing party said.
#[derive(Debug, Clone)]
pub struct StartFailure {
    pub step: StartStep,
    pub message: String,
}

/// What a start is to do.
#[derive(Debug, Clone)]
pub struct StartPlan {
    /// The device to record from.
    pub device: DeviceRef,
    /// Whether a device was selected by name and the default device stands
    /// in for it because no device has that name.
    pub fell_back: bool,
    /// The format to write the recording in.
    pub format: OutputFormat,
    /// The directory to create.
    pub output_dir: String,
    /// The name of the file to create in it.
    pub file_name: String,
    /// The path of that file.
    pub output_path: String,
}

/// The device that a start records from: the selected one where a device of
/// that name exists, else the default device, if there is one.
pub open spec fn resolved_device(host: HostDevices, selected: Option<Seq<char>>) -> Option<
    DeviceRef,
> {
    let fallback = if host.has_default {
        Some(DeviceRef::Default)
    } else {
        None
    };
    match selected {
        Some(name) => match position_of(host, name) {
            Some(i) => Some(DeviceRef::Index(i as usize)),
            None => fallback,
        },
        None => fallback,
    }
}

/// Whether the default device stands in for a selected one.
pub open spec fn falls_back(host: HostDevices, selected: Option<Seq<char>>) -> bool {
    match selected {
        Some(name) => position_of(host, name) is None,
        None => false,
    }
}

/// Whether `e` is the error that belongs to the failed step `f`.
pub open spec fn is_error_of(e: RecordError, f: StartFailure) -> bool {
    match f.step {
        StartStep::Permission => e matches RecordError::PermissionDenied(m) && m@ == f.message@,
        StartStep::Source => e is NoSource,
        StartStep::QueryFormat => e matches RecordError::ConfigError(m) && m@ == f.message@,
        StartStep::CreateDir => e matches RecordError::IoError(m) && m@ == f.message@,
        StartStep::BuildEncoder => e matches RecordError::EncoderError(m) && m@ == f.message@,
        StartStep::CreateFile => e matches RecordError::IoError(m) && m@ == f.message@,
        StartStep::SampleFormat => e matches RecordError::UnsupportedFormat(m) && m@
            == f.message@,
        StartStep::BuildStream => e matches RecordError::StreamError(m) && m@ == f.message@,
        StartStep::Play => e matches RecordError::StreamError(m) && m@ == f.message@,
        StartStep::Capture => e matches RecordError::CaptureError(m) && m@ == f.message@,
    }
}

/// The error for a failed step.
pub fn error_for(failure: StartFailure) -> (e: RecordError)
    ensures
        is_error_of(e, failure),
{
    match failure.step {
        StartStep::Permission => RecordError::PermissionDenied(failure.message),
        StartStep::Source => RecordError::NoSource,
        StartStep::QueryFormat => RecordError::ConfigError(failure.message),
        StartStep::CreateDir => RecordError::IoError(failure.message),
        StartStep::BuildEncoder => RecordError::EncoderError(failure.message),
        StartStep::CreateFile => RecordError::IoError(failure.message),
        StartStep::SampleFormat => RecordError::UnsupportedFormat(failure.message),
        StartStep::BuildStream => RecordError::StreamError(failure.message),
        StartStep::Play => RecordError::StreamError(failure.message),
        StartStep::Capture => RecordError::CaptureError(failure.message),
    }
}

/// The failed step that an error of a capture session stands for.
pub fn capture_failure(error: CaptureError) -> (failure: StartFailure)
    ensures
        match error {
            CaptureError::PermissionDenied(m) => failure.step == StartStep::Permission
                && failure.message@ == m@,
            CaptureError::NoDisplay => failure.step == StartStep::Source,
            CaptureError::StartFailed(m) => failure.step == StartStep::Capture && failure.message@
                == m@,
            CaptureError::StopFailed(m) => failure.step == StartStep::Capture && failure.message@
                == m@,
        },
{
    match error {
        CaptureError::PermissionDenied(m) => StartFailure { step: StartStep::Permission, message: m },
        CaptureError::NoDisplay => StartFailure {
            step: StartStep::Source,
            message: String::from_str("no display found"),
        },
        CaptureError::StartFailed(m) => StartFailure { step: StartStep::Capture, message: m },
        CaptureError::StopFailed(m) => StartFailure { step: StartStep::Capture, message: m },
    }
}

/// What was opened for a recording.
pub struct SessionParts {
    /// The sink that encodes the recording.
    pub sink: EncodingSink,
    /// The capture session, where the recording comes from one.
    pub capture: Option<SystemAudioCapture>,
}

/// What finishes a recording.
#[derive(Debug, Clone)]
pub struct Stopped {
    /// The path of the file.
    pub path: String,
    /// The bytes that end the file, and what is to be overwritten in it.
    pub closing: Closing,
}

// ---------------------------------------------------------------------------
// The controller
// ---------------------------------------------------------------------------

/// The recording in progress.
struct RecordingSession {
    output_path: String,
    sink: EncodingSink,
    capture: Option<SystemAudioCapture>,
}

/// The controller of recordings: at most one at a time.
pub struct Recorder {
    config: RecorderConfig,
    format: OutputFormat,
    session: Option<RecordingSession>,
}

/// A recording in progress, as far as contracts go.
pub struct SessionView {
    /// The path of the file being recorded.
    pub output_path: Seq<char>,
    pub sink: SinkState,
    pub capture: Option<SessionState>,
}

/// What a controller is, as far as contracts go.
pub struct RecorderView {
    pub output_dir: Seq<char>,
    pub selected_device_name: Option<Seq<char>>,
    /// The format of the recordings to come.
    pub format: OutputFormat,
    /// The recording in progress; `None` while idle.
    pub session: Option<SessionView>,
}

impl RecorderView {
    /// Recording while there is a session, idle else.
    pub open spec fn state(self) -> RecorderState {
        if self.session is Some {
            RecorderState::Recording
        } else {
            RecorderState::Idle
        }
    }
}

/// The state of a capture session, where there is one.
pub open spec fn capture_view(capture: Option<SystemAudioCapture>) -> Option<SessionState> {
    match capture {
        Some(c) => Some(c@),
        None => None,
    }
}

impl View for Recorder {
    type V = RecorderView;

    closed spec fn view(&self) -> RecorderView {
        RecorderView {
            output_dir: self.config.output_dir@,
            selected_device_name: text_view(self.config.selected_device_name),
            format: self.format,
            session: match self.session {
                Some(s) => Some(
                    SessionView {
                        output_path: s.output_path@,
                        sink: s.sink@,
                        capture: capture_view(s.capture),
                    },
                ),
                None => None,
            },
        }
    }
}

/// Whether what was opened fits a plan: the sink is open and writes the
/// format of the plan.
pub open spec fn fits(parts: SessionParts, plan: StartPlan) -> bool {
    !parts.sink@.closed && parts.sink@.format == plan.format
}

/// The controller with the sink of its session in the state `sink`.
pub open spec fn with_sink(s: RecorderView, sink: SinkState) -> RecorderView {
    match s.session {
        Some(session) => RecorderView { session: Some(SessionView { sink, ..session }), ..s },
        None => s,
    }
}

/// The controller after mono samples were handed to it: they are written to
/// the sink of the recording in progress; while idle nothing changes.
pub open spec fn fed(s: RecorderView, samples: Seq<i32>) -> RecorderView {
    match s.session {
        Some(session) => with_sink(s, written(session.sink, samples)),
        None => s,
    }
}

/// Whether bytes are what feeding `samples` to the controller gives: none
/// where the samples are not taken in, and two bytes of PCM for each sample
/// where they go into a WAV file.
pub open spec fn feeds(s: RecorderView, samples: Seq<i32>, bytes: Seq<u8>) -> bool {
    match s.session {
        Some(session) => {
            &&& !accepts(session.sink, samples) ==> bytes.len() == 0
            &&& accepts(session.sink, samples) && session.sink.format == OutputFormat::Wav
                ==> bytes == pcm16_bytes(samples)
        },
        None => bytes.len() == 0,
    }
}

impl Recorder {
    /// An idle controller that writes MP3.
    pub fn new(config: RecorderConfig) -> (recorder: Self)
        ensures
            recorder@.state() == RecorderState::Idle,
            recorder@.format == OutputFormat::Mp3,
            recorder@.output_dir == config.output_dir@,
            recorder@.selected_device_name == text_view(config.selected_device_name),
    {
        Recorder { config, format: OutputFormat::Mp3, session: None }
    }

    /// The configuration for the recordings to come.
    pub fn config(&self) -> (config: &RecorderConfig)
        ensures
            config.output_dir@ == self@.output_dir,
            text_view(config.selected_device_name) == self@.selected_device_name,
    {
        &self.config
    }

    /// The format of the recordings to come.
    pub fn format(&self) -> (format: OutputFormat)
        ensures
            format == self@.format,
    {
        self.format
    }

    /// Whether a recording is in progress.
    pub fn state(&self) -> (state: RecorderState)
        ensures
            state == self@.state(),
    {
        if self.session.is_some() {
            RecorderState::Recording
        } else {
            RecorderState::Idle
        }
    }

    /// The path of the file being recorded, while recording.
    pub fn current_file(&self) -> (path: Option<String>)
        ensures
            match self@.session {
                Some(s) => path matches Some(p) && p@ == s.output_path,
                None => path is None,
            },
    {
        match &self.session {
            Some(s) => Some(s.output_path.clone()),
            None => None,
        }
    }

    /// What a start at the time `now` is to do with the devices at hand.
    ///
    /// A start is refused while a recording is in progress.  A selected
    /// device that the host does not list is replaced by the default device;
    /// without a default device there is nothing to record from.
    pub fn plan_start(&self, device_manager: &AudioDeviceManager, now: &Timestamp) -> (r: Result<
        StartPlan,
        RecordError,
    >)
        ensures
            self@.state() == RecorderState::Recording ==> (r matches Err(e) && e
                is AlreadyRecording),
            self@.state() == RecorderState::Idle ==> (match resolved_device(
                device_manager@,
                self@.selected_device_name,
            ) {
                None => (r matches Err(e) && e is NoDefaultDevice),
                Some(device) => (r matches Ok(plan) && plan.device == device && plan.fell_back
                    == falls_back(device_manager@, self@.selected_device_name) && plan.format
                    == self@.format && plan.output_dir@ == self@.output_dir && plan.file_name@
                    == recording_name(*now, extension_of_format(self@.format))
                    && plan.output_path@ == joined(
                    self@.output_dir,
                    recording_name(*now, extension_of_format(self@.format)),
                )),
            }),
    {
        if self.session.is_some() {
            return Err(RecordError::AlreadyRecording);
        }
        let mut fell_back: bool = false;
        let found: Option<DeviceRef> = match &self.config.selected_device_name {
            Some(name) => {
                let by_name = device_manager.input_device_by_name(name.as_str());
                match by_name {
                    Some(d) => Some(d),
                    None => {
                        fell_back = true;
                        device_manager.default_input_device()
                    },
                }
            },
            None => device_manager.default_input_device(),
        };
        let device: DeviceRef = match found {
            Some(d) => d,
            None => {
                return Err(RecordError::NoDefaultDevice);
            },
        };
        let file_name = recording_name_at(now, self.format);
        let output_path = join_path(self.config.output_dir.as_str(), file_name.as_str());
        Ok(
            StartPlan {
                device,
                fell_back,
                format: self.format,
                output_dir: self.config.output_dir.clone(),
                file_name,
                output_path,
            },
        )
    }

    /// Takes what was opened for a plan, or the step that failed.
    ///
    /// While a recording is in progress the start is refused.  Where a step
    /// failed, the controller stays idle and returns that step's error, and
    /// so it does with an encoder error where the sink does not fit the plan.
    /// Otherwise the recording of the planned file is in progress from now
    /// on, and its path is returned.
    pub fn start(&mut self, plan: &StartPlan, opened: Result<SessionParts, StartFailure>) -> (r:
        Result<String, RecordError>)
        ensures
            old(self)@.state() == RecorderState::Recording ==> (r matches Err(e) && e
                is AlreadyRecording) && final(self)@ == old(self)@,
            old(self)@.state() == RecorderState::Idle ==> match opened {
                Err(failure) => (r matches Err(e) && is_error_of(e, failure)) && final(self)@
                    == old(self)@,
                Ok(parts) => if fits(parts, *plan) {
                    (r matches Ok(path) && path@ == plan.output_path@) && final(self)@ == (
                    RecorderView {
                        session: Some(
                            SessionView {
                                output_path: plan.output_path@,
                                sink: parts.sink@,
                                capture: capture_view(parts.capture),
                            },
                        ),
                        ..old(self)@
                    })
                } else {
                    (r matches Err(e) && e is EncoderError) && final(self)@ == old(self)@
                },
            },
    {
        if self.session.is_some() {
            return Err(RecordError::AlreadyRecording);
        }
        match opened {
            Err(failure) => Err(error_for(failure)),
            Ok(parts) => {
                if parts.sink.is_closed() || parts.sink.format() != plan.format {
                    return Err(
                        RecordError::EncoderError(String::from_str("the sink does not fit the plan")),
                    );
                }
                self.session = Some(
                    RecordingSession {
                        output_path: plan.output_path.clone(),
                        sink: parts.sink,
                        capture: parts.capture,
                    },
                );
                Ok(plan.output_path.clone())
            },
        }
    }

    /// Encodes mono samples into the recording in progress and returns the
    /// bytes to append to its file.  While idle, nothing happens.
    pub fn write(&mut self, samples: &[i32]) -> (bytes: Vec<u8>)
        ensures
            final(self)@ == fed(old(self)@, samples@),
            feeds(old(self)@, samples@, bytes@),
    {
        match &mut self.session {
            Some(session) => session.sink.write(samples),
            None => Vec::new(),
        }
    }

    /// Encodes interleaved IEEE-754 single-precision input of `channels`
    /// channels into the recording in progress.
    pub fn write_ieee(&mut self, words: &[u32], channels: u16) -> (bytes: Vec<u8>)
        requires
            channels >= 1,
        ensures
            final(self)@ == fed(old(self)@, mono_of_ieee(words@, channels as int)),
            feeds(old(self)@, mono_of_ieee(words@, channels as int), bytes@),
    {
        match &mut self.session {
            Some(session) => encode_samples_ieee(&mut session.sink, words, channels),
            None => Vec::new(),
        }
    }

    /// Encodes interleaved signed 16-bit input of `channels` channels into
    /// the recording in progress.
    pub fn write_i16(&mut self, data: &[i16], channels: u16) -> (bytes: Vec<u8>)
        requires
            channels >= 1,
        ensures
            final(self)@ == fed(old(self)@, downmixed(samples_of_i16(data@), channels as int)),
            feeds(old(self)@, downmixed(samples_of_i16(data@), channels as int), bytes@),
    {
        match &mut self.session {
            Some(session) => encode_samples_i16(&mut session.sink, data, channels),
            None => Vec::new(),
        }
    }

    /// Encodes interleaved unsigned 16-bit input of `channels` channels into
    /// the recording in progress.
    pub fn write_u16(&mut self, data: &[u16], channels: u16) -> (bytes: Vec<u8>)
        requires
            channels >= 1,
        ensures
            final(self)@ == fed(old(self)@, downmixed(samples_of_u16(data@), channels as int)),
            feeds(old(self)@, downmixed(samples_of_u16(data@), channels as int), bytes@),
    {
        match &mut self.session {
            Some(session) => encode_samples_u16(&mut session.sink, data, channels),
            None => Vec::new(),
        }
    }

    /// Takes a buffer list from the capture session's stream, on behalf of
    /// `handler`, and returns the bytes to append to the file.
    ///
    /// The buffers go through the capture session, which mixes where there
    /// are two feeds; what it hands on is written to the sink.  While idle,
    /// and in a recording without capture session, nothing happens.
    pub fn deliver(
        &mut self,
        handler: &AudioOutputHandler,
        buffers: &Vec<AudioBuffer>,
        output_type: StreamOutputType,
    ) -> (bytes: Vec<u8>)
        ensures
            final(self)@ == delivered(old(self)@, *handler, buffers@, output_type),
            match delivery(old(self)@, *handler, buffers@, output_type) {
                Some(pcm) => feeds(old(self)@, pcm, bytes@),
                None => bytes@.len() == 0,
            },
    {
        match &mut self.session {
            Some(session) => match &mut session.capture {
                Some(capture) => match capture.deliver(handler, buffers, output_type) {
                    Some(pcm) => session.sink.write(pcm.as_slice()),
                    None => Vec::new(),
                },
                None => Vec::new(),
            },
            None => Vec::new(),
        }
    }

    /// Ends the recording: closes the sink and lets go of the capture
    /// session, with whatever its mixer still held.  Returns the path of the
    /// file and what finishes it.
    pub fn stop(&mut self) -> (r: Result<Stopped, RecordError>)
        ensures
            final(self)@ == (RecorderView { session: None, ..old(self)@ }),
            match old(self)@.session {
                None => r matches Err(e) && e is NotRecording,
                Some(session) => r matches Ok(stopped) && stopped.path@ == session.output_path
                    && closes(stopped.closing, session.sink),
            },
    {
        match self.session.take() {
            Some(session) => {
                let mut sink = session.sink;
                let closing = sink.close();
                Ok(Stopped { path: session.output_path, closing })
            },
            None => Err(RecordError::NotRecording),
        }
    }

    /// Sets the directory for the recordings to come.  A recording in
    /// progress stays where it is.
    pub fn set_output_dir(&mut self, dir: String)
        ensures
            final(self)@ == (RecorderView { output_dir: dir@, ..old(self)@ }),
    {
        self.config.output_dir = dir;
    }

    /// Selects the device for the recordings to come by its name; `None`
    /// selects the default device.
    pub fn select_device(&mut self, name: Option<String>)
        ensures
            final(self)@ == (RecorderView {
                selected_device_name: text_view(name),
                ..old(self)@
            }),
    {
        self.config.selected_device_name = name;
    }

    /// Sets the format for the recordings to come.
    pub fn set_format(&mut self, format: OutputFormat)
        ensures
            final(self)@ == (RecorderView { format, ..old(self)@ }),
    {
        self.format = format;
    }
}

/// What the capture session of the recording in progress hands on for a
/// buffer list; `None` where it hands on nothing or there is no session.
pub open spec fn delivery(
    s: RecorderView,
    handler: AudioOutputHandler,
    buffers: Seq<AudioBuffer>,
    output_type: StreamOutputType,
) -> Option<Seq<i32>> {
    match s.session {
        Some(session) => match session.capture {
            Some(capture) => handler_emits(handler, capture.target, buffers, output_type),
            None => None,
        },
        None => None,
    }
}

/// The controller after a buffer list was delivered to it.
pub open spec fn delivered(
    s: RecorderView,
    handler: AudioOutputHandler,
    buffers: Seq<AudioBuffer>,
    output_type: StreamOutputType,
) -> RecorderView {
    match s.session {
        Some(session) => match session.capture {
            Some(capture) => RecorderView {
                session: Some(
                    SessionView {
                        capture: Some(
                            SessionState {
                                target: handler_leaves(handler, capture.target, buffers, output_type),
                                ..capture
                            },
                        ),
                        sink: match handler_emits(handler, capture.target, buffers, output_type) {
                            Some(pcm) => written(session.sink, pcm),
                            None => session.sink,
                        },
                        ..session
                    },
                ),
                ..s
            },
            None => s,
        },
        None => s,
    }
}

// ---------------------------------------------------------------------------
// Laws
// ---------------------------------------------------------------------------

/// The controller's moves, on its view: a start that went through.
pub open spec fn started(s: RecorderView, session: SessionView) -> RecorderView {
    if s.session is Some {
        s
    } else {
        RecorderView { session: Some(session), ..s }
    }
}

/// The controller's moves, on its view: a stop.
pub open spec fn stopped(s: RecorderView) -> RecorderView {
    RecorderView { session: None, ..s }
}

/// At most one recording is open at a time: a start changes nothing while a
/// recording is in progress, so the session of that recording stays the one;
/// from idle, a start that went through leads to `Recording` and a stop
/// leads back to `Idle`.
pub proof fn lemma_state_machine(s: RecorderView, first: SessionView, second: SessionView)
    ensures
        s.state() == RecorderState::Idle ==> started(s, first).state() == RecorderState::Recording,
        started(started(s, first), second) == started(s, first),
        stopped(s).state() == RecorderState::Idle,
        stopped(started(stopped(s), first)) == stopped(s),
{
}

/// Feeding samples, delivering buffers and changing the settings never
/// starts or ends a recording, and never moves the file of the recording in
/// progress.
pub proof fn lemma_recording_goes_on(
    s: RecorderView,
    samples: Seq<i32>,
    handler: AudioOutputHandler,
    buffers: Seq<AudioBuffer>,
    output_type: StreamOutputType,
)
    ensures
        fed(s, samples).state() == s.state(),
        delivered(s, handler, buffers, output_type).state() == s.state(),
        s.session matches Some(session) ==> fed(s, samples).session.unwrap().output_path
            == session.output_path && delivered(
            s,
            handler,
            buffers,
            output_type,
        ).session.unwrap().output_path == session.output_path,
{
}

} // verus!
