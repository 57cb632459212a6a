//! Lyre: capture of system audio and microphone, mixed into one mono stream
//! and encoded as it arrives, to MP3 or to WAV.
//!
//! The library holds the logic of a recorder: the mixer, the encoding sink,
//! the recording controller and what they need.  It opens no device and no
//! file.  Its owner does, and hands over what the devices deliver; the library
//! hands back the bytes to write.

pub mod audio;
pub mod capture;
pub mod config;
pub mod encoder;
pub mod filename;
pub mod http_client;
pub mod menu;
pub mod mixer;
pub mod paths;
pub mod recorder;
pub mod recordings;
pub mod sample;
pub mod text;
pub mod upload;

pub use audio::{AudioDeviceInfo, AudioDeviceManager, DeviceRef};
pub use capture::{
    check_permission, list_audio_input_devices, start_capture, AudioInputDeviceInfo,
    CaptureConfig, CaptureError, PermissionStatus, SystemAudioCapture,
};
pub use config::{
    get_input_device, get_output_dir, has_config, save_config, save_input_device,
    save_output_dir, AppConfig,
};
pub use encoder::{EncodingSink, OutputFormat};
pub use filename::{generate_filename, Timestamp};
pub use http_client::normalize_url;
pub use mixer::{AudioMixer, Feed};
pub use recorder::{RecordError, Recorder, RecorderConfig, RecorderState};
pub use recordings::{
    batch_delete_recordings, default_output_dir, delete_recording, find_cleanable_recordings,
    list_recordings, CleanupError, CleanupFilter, CleanupResult, DirContent, DirEntry,
    RecordingInfo,
};
pub use upload::{
    cancel_upload, detect_audio_format, is_cancelled, reset_cancel, CancelFlag, ServerFolder,
    ServerTag, UploadOptions, UploadProgress, UploadResult,
};
