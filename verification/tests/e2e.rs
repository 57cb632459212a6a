//! The subsystems working together, on a directory that is held in memory:
//! recording, listing, clearing out and deleting.

use lyre::audio::{AudioDeviceManager, DeviceRef};
use lyre::encoder::{EncodingSink, OutputFormat};
use lyre::filename::{generate_filename, Timestamp};
use lyre::recorder::{
    RecordError, Recorder, RecorderConfig, RecorderState, SessionParts, StartFailure,
};
use lyre::recordings::{
    audio_duration, batch_delete_recordings, delete_recording, find_cleanable_recordings,
    is_audio_file, list_recordings, mp3_duration_estimate, wav_file_duration, CleanupFilter,
    DeleteAttempt, DirContent, DirEntry, DurationSource, RecordingInfo,
};
use std::io::Cursor;

// ============================================================================
// Helpers
// ============================================================================

/// A file of the directory: its path, its bytes and when it was written, in
/// seconds since the start of 1970.
struct File {
    path: String,
    bytes: Vec<u8>,
    modified: u64,
}

const NOW: u64 = 1_771_684_252;

fn file(path: &str, bytes: Vec<u8>, modified: u64) -> File {
    File { path: path.to_string(), bytes, modified }
}

/// A WAV file: 16-bit mono at 44100 Hz with `frames` samples.
fn create_test_wav(frames: i32) -> Vec<u8> {
    let spec = hound::WavSpec {
        channels: 1,
        sample_rate: 44100,
        bits_per_sample: 16,
        sample_format: hound::SampleFormat::Int,
    };
    let mut bytes = Vec::new();
    {
        let mut writer = hound::WavWriter::new(Cursor::new(&mut bytes), spec).unwrap();
        for i in 0..frames {
            writer.write_sample(i as i16).unwrap();
        }
        writer.finalize().unwrap();
    }
    bytes
}

/// An MP3 file: `num_samples` samples of silence at 44100 Hz mono.
fn create_test_mp3(num_samples: usize) -> Vec<u8> {
    let mut sink =
        EncodingSink::open(OutputFormat::Mp3, 44100).ok().expect("the encoder is set up");
    let mut bytes = sink.write(&vec![0i32; num_samples]);
    bytes.extend(sink.close().tail);
    bytes
}

/// What was opened for a recording at 48 kHz.
fn opened() -> Result<SessionParts, StartFailure> {
    let sink = EncodingSink::open(OutputFormat::Mp3, 48000).ok().expect("the encoder is set up");
    Ok(SessionParts { sink, capture: None })
}

/// The duration of a file, as a listing tells it.
fn duration_of(f: &File) -> Option<u64> {
    match audio_duration(&f.path) {
        DurationSource::WavHeader => wav_file_duration(&f.bytes),
        DurationSource::Mp3Size => mp3_duration_estimate(f.bytes.len() as u64),
        DurationSource::Unknown => None,
    }
}

/// The listing of a directory.
fn list(dir: &[File]) -> Vec<RecordingInfo> {
    let entries = dir
        .iter()
        .map(|f| DirEntry {
            path: f.path.clone(),
            is_file: true,
            size: f.bytes.len() as u64,
            duration_micros: if is_audio_file(&f.path) { duration_of(f) } else { None },
            modified_secs: f.modified,
        })
        .collect();
    list_recordings(DirContent::Entries(entries)).unwrap()
}

/// Deletes the files at `paths` from the directory `dir`, which lies at `root`.
fn batch_delete(dir: &mut Vec<File>, root: &str, paths: &[String]) -> lyre::recordings::CleanupResult {
    let mut attempts = Vec::new();
    for path in paths {
        let at = dir.iter().position(|f| &f.path == path);
        let size = at.map(|i| dir[i].bytes.len() as u64).unwrap_or(0);
        let canonical = match at {
            Some(_) => Ok(path.clone()),
            None => Err("No such file or directory (os error 2)".to_string()),
        };
        let error = match delete_recording(canonical, Ok(root.to_string())) {
            Ok(_) => {
                dir.remove(at.unwrap());
                None
            }
            Err(e) => Some(e),
        };
        attempts.push(DeleteAttempt { path: path.clone(), size, error });
    }
    batch_delete_recordings(&attempts)
}

fn secs(micros: Option<u64>) -> f64 {
    micros.unwrap() as f64 / 1_000_000.0
}

fn micros(secs: f64) -> u64 {
    (secs * 1_000_000.0).round() as u64
}

fn host_with_one_device() -> AudioDeviceManager {
    AudioDeviceManager::new(
        vec![Some("Built-in Microphone".to_string())],
        Some(Some("Built-in Microphone".to_string())),
    )
}

fn host_without_devices() -> AudioDeviceManager {
    AudioDeviceManager::new(Vec::new(), None)
}

fn now() -> Timestamp {
    Timestamp::new(2026, 2, 21, 14, 30, 52).unwrap()
}

// ============================================================================
// Recording
// ============================================================================

#[test]
fn e2e_double_start_is_error() {
    let config = RecorderConfig { output_dir: "/tmp/lyre".to_string(), selected_device_name: None };
    let device_manager = host_with_one_device();
    let mut recorder = Recorder::new(config);

    let plan = recorder.plan_start(&device_manager, &now()).ok().expect("a plan");
    recorder.start(&plan, opened()).ok().expect("first start should succeed");

    // The second start fails
    let result = recorder.start(&plan, opened());
    assert!(result.is_err());
    assert!(recorder.plan_start(&device_manager, &now()).is_err());

    let _ = recorder.stop();
}

#[test]
fn e2e_stop_without_start_is_error() {
    let config = RecorderConfig {
        output_dir: "/tmp/lyre-test-unused".to_string(),
        selected_device_name: None,
    };
    let mut recorder = Recorder::new(config);
    let result = recorder.stop();
    assert!(result.is_err());
}

#[test]
fn e2e_record_with_invalid_device_index() {
    // A device that is not there, on a host without a default device
    let config = RecorderConfig {
        output_dir: "/tmp/lyre".to_string(),
        selected_device_name: Some("Device 99999".to_string()),
    };
    let recorder = Recorder::new(config);
    let result = recorder.plan_start(&host_without_devices(), &now());
    assert!(result.is_err(), "should fail without a device to record from");
    assert!(matches!(result, Err(RecordError::NoDefaultDevice)));
}

#[test]
fn e2e_recorder_state_transitions() {
    let config = RecorderConfig { output_dir: "/tmp/lyre".to_string(), selected_device_name: None };
    let device_manager = host_with_one_device();
    let mut recorder = Recorder::new(config);

    // Initial state
    assert_eq!(recorder.state(), RecorderState::Idle);

    // Stop while idle: error, state unchanged
    assert!(recorder.stop().is_err());
    assert_eq!(recorder.state(), RecorderState::Idle);

    // Start: Recording
    let plan = recorder.plan_start(&device_manager, &now()).ok().expect("a plan");
    assert_eq!(plan.device, DeviceRef::Default);
    recorder.start(&plan, opened()).ok().expect("started");
    assert_eq!(recorder.state(), RecorderState::Recording);

    // Start while recording: error, state unchanged
    assert!(recorder.start(&plan, opened()).is_err());
    assert_eq!(recorder.state(), RecorderState::Recording);

    // Stop: Idle
    recorder.stop().ok().expect("stopped");
    assert_eq!(recorder.state(), RecorderState::Idle);

    // Can start again after stopping
    let plan = recorder.plan_start(&device_manager, &now()).ok().expect("a plan");
    recorder.start(&plan, opened()).ok().expect("started");
    assert_eq!(recorder.state(), RecorderState::Recording);
    recorder.stop().ok().expect("stopped");
    assert_eq!(recorder.state(), RecorderState::Idle);
}

#[test]
fn e2e_record_then_list_then_delete() {
    let output_dir = "/tmp/lyre".to_string();
    let config = RecorderConfig { output_dir: output_dir.clone(), selected_device_name: None };
    let mut recorder = Recorder::new(config);
    let mut dir: Vec<File> = Vec::new();

    // Record half a second of silence
    let plan = recorder.plan_start(&host_with_one_device(), &now()).ok().expect("a plan");
    let recording_path = recorder.start(&plan, opened()).ok().expect("started");
    let mut bytes = Vec::new();
    for _ in 0..25 {
        bytes.extend(recorder.write(&vec![0i32; 960]));
    }
    let stopped = recorder.stop().ok().expect("stopped");
    bytes.extend(stopped.closing.tail);
    let saved_path = stopped.path;
    assert_eq!(saved_path, recording_path);
    dir.push(file(&saved_path, bytes, NOW));

    // The listing finds the file
    let recordings = list(&dir);
    assert_eq!(recordings.len(), 1, "expected 1 recording after recording");

    let rec = &recordings[0];
    assert!(rec.name.starts_with("recording-"));
    assert!(rec.name.ends_with(".mp3"));
    assert!(rec.size > 0, "recording should have non-zero file size");
    assert!(rec.duration_micros.is_some(), "recording should have a readable duration");
    assert!(rec.duration_micros.unwrap() > 0, "duration should be positive");
    assert!((secs(rec.duration_micros) - 0.5).abs() < 0.1);
    assert!(!rec.created_at.is_empty(), "created_at should be a non-empty ISO string");
    assert_eq!(rec.path, recording_path, "path should match the recorded file");

    // Delete the recording
    let paths = vec![rec.path.clone()];
    let result = batch_delete(&mut dir, &output_dir, &paths);
    assert_eq!(result.deleted_count, 1);

    // It is gone
    assert!(list(&dir).is_empty(), "recording list should be empty after deletion");
}

#[test]
fn e2e_generate_filename_format() {
    let f1 = generate_filename();
    let f2 = generate_filename();

    // Format: recording-YYYYMMDD-HHMMSS.mp3
    assert!(f1.starts_with("recording-"), "should start with 'recording-'");
    assert!(f1.ends_with(".mp3"), "should end with '.mp3'");
    assert!(f1.len() > 20, "should have full timestamp");

    assert!(f2.starts_with("recording-"));
    assert!(f2.ends_with(".mp3"));
}

// ============================================================================
// Listing
// ============================================================================

#[test]
fn e2e_list_recordings_mixed_files() {
    let dir = vec![
        file("/rec/first.wav", create_test_wav(4410), NOW),
        file("/rec/second.mp3", create_test_mp3(44100), NOW),
        file("/rec/readme.txt", b"not audio".to_vec(), NOW),
        file("/rec/data.json", b"{}".to_vec(), NOW),
        file("/rec/.hidden", b"hidden".to_vec(), NOW),
    ];

    let recordings = list(&dir);

    // Only the .wav and .mp3 files
    assert_eq!(recordings.len(), 2, "should list only wav + mp3 files");

    let names: Vec<&str> = recordings.iter().map(|r| r.name.as_str()).collect();
    assert!(names.contains(&"first.wav"));
    assert!(names.contains(&"second.mp3"));
}

#[test]
fn e2e_list_recordings_sorted_newest_first() {
    let dir = vec![
        // written a minute earlier
        file("/rec/older.wav", create_test_wav(4410), NOW - 60),
        file("/rec/newer.wav", create_test_wav(4410), NOW),
    ];

    let recordings = list(&dir);
    assert_eq!(recordings.len(), 2);
    assert_eq!(recordings[0].name, "newer.wav", "newest should come first");
    assert_eq!(recordings[1].name, "older.wav", "oldest should come last");
}

#[test]
fn e2e_list_recordings_has_correct_metadata() {
    let dir = vec![
        // WAV: 0.1s (4410 samples at 44100 Hz)
        file("/rec/test.wav", create_test_wav(4410), NOW),
        // MP3: 1s (44100 samples at 44100 Hz)
        file("/rec/test.mp3", create_test_mp3(44100), NOW),
    ];

    let recordings = list(&dir);
    assert_eq!(recordings.len(), 2);

    for rec in &recordings {
        assert!(rec.size > 0, "{}: size should be > 0", rec.name);
        assert!(rec.duration_micros.is_some(), "{}: should have duration", rec.name);
        assert!(rec.duration_micros.unwrap() > 0, "{}: duration should be positive", rec.name);
        assert!(dir.iter().any(|f| f.path == rec.path), "{}: path should exist", rec.name);
        assert!(!rec.created_at.is_empty(), "{}: created_at should be set", rec.name);
    }

    // The WAV is about 0.1 s long
    let wav_rec = recordings.iter().find(|r| r.name == "test.wav").unwrap();
    assert!(
        (secs(wav_rec.duration_micros) - 0.1).abs() < 0.02,
        "WAV duration should be ~0.1s, got {}",
        secs(wav_rec.duration_micros)
    );

    // The MP3 is about 1.0 s long
    let mp3_rec = recordings.iter().find(|r| r.name == "test.mp3").unwrap();
    assert!(
        (secs(mp3_rec.duration_micros) - 1.0).abs() < 0.1,
        "MP3 duration should be ~1.0s, got {}",
        secs(mp3_rec.duration_micros)
    );
}

#[test]
fn e2e_list_recordings_empty_and_nonexistent() {
    // An empty directory
    let result = list(&[]);
    assert!(result.is_empty());

    // A directory that does not exist: empty, and no error
    let result = list_recordings(DirContent::Missing).unwrap();
    assert!(result.is_empty());
}

// ============================================================================
// Deleting
// ============================================================================

#[test]
fn e2e_delete_recording_success() {
    let mut dir = vec![file("/rec/to-delete.wav", create_test_wav(4410), NOW)];

    let result = batch_delete(&mut dir, "/rec", &["/rec/to-delete.wav".to_string()]);
    assert_eq!(result.deleted_count, 1);
    assert!(dir.is_empty(), "file should be deleted");

    // The listing is empty
    assert!(list(&dir).is_empty());
}

#[test]
fn e2e_delete_recording_path_traversal_blocked() {
    // A file outside the output directory
    let outside_file = "/outside/secret.wav".to_string();

    // An attempt to delete it is turned down
    let result = delete_recording(Ok(outside_file), Ok("/rec".to_string()));
    assert!(result.is_err(), "should reject path outside output dir");
    assert!(result.unwrap_err().contains("outside"), "error should mention 'outside'");
}

#[test]
fn e2e_delete_recording_nonexistent_file() {
    let result = delete_recording(
        Err("No such file or directory (os error 2)".to_string()),
        Ok("/rec".to_string()),
    );
    assert!(result.is_err(), "should fail for nonexistent file");
}

#[test]
fn e2e_batch_delete_all_succeed() {
    // Three files
    let mut dir: Vec<File> =
        (1..=3).map(|i| file(&format!("/rec/rec-{i}.wav"), create_test_wav(4410), NOW)).collect();
    let files: Vec<String> = dir.iter().map(|f| f.path.clone()).collect();

    let result = batch_delete(&mut dir, "/rec", &files);
    assert_eq!(result.deleted_count, 3);
    assert!(result.freed_bytes > 0);
    assert!(result.errors.is_empty());

    // All files are gone
    assert!(list(&dir).is_empty());
}

#[test]
fn e2e_batch_delete_partial_failure() {
    let mut dir = vec![file("/rec/exists.wav", create_test_wav(4410), NOW)];

    let paths = vec!["/rec/exists.wav".to_string(), "/rec/ghost.wav".to_string()];
    let result = batch_delete(&mut dir, "/rec", &paths);

    assert_eq!(result.deleted_count, 1, "1 should succeed");
    assert_eq!(result.errors.len(), 1, "1 should fail");
    assert!(dir.is_empty(), "existing file should be deleted");
}

#[test]
fn e2e_batch_delete_empty_list() {
    let result = batch_delete_recordings(&Vec::new());
    assert_eq!(result.deleted_count, 0);
    assert_eq!(result.freed_bytes, 0);
    assert!(result.errors.is_empty());
}

// ============================================================================
// Clearing out
// ============================================================================

fn only_short(min_duration_secs: f64) -> CleanupFilter {
    CleanupFilter {
        before_date: None,
        min_duration_micros: Some(micros(min_duration_secs)),
        max_duration_micros: None,
        max_size_bytes: None,
    }
}

#[test]
fn e2e_find_cleanable_recordings_with_real_files() {
    let dir = vec![
        // A short WAV (0.1s)
        file("/rec/short.wav", create_test_wav(4410), NOW),
        // A longer MP3 (2s)
        file("/rec/long.mp3", create_test_mp3(88200), NOW),
        // A large file: 10s of WAV
        file("/rec/big.wav", create_test_wav(441000), NOW),
    ];

    let recordings = list(&dir);
    assert_eq!(recordings.len(), 3);

    // Shorter than 1s: short.wav only
    let cleanable = find_cleanable_recordings(&recordings, &only_short(1.0));
    assert_eq!(cleanable.len(), 1);
    assert_eq!(cleanable[0].name, "short.wav");

    // Larger than 500KB: big.wav only
    let filter = CleanupFilter {
        before_date: None,
        min_duration_micros: None,
        max_duration_micros: None,
        max_size_bytes: Some(500_000),
    };
    let cleanable = find_cleanable_recordings(&recordings, &filter);
    assert_eq!(cleanable.len(), 1);
    assert_eq!(cleanable[0].name, "big.wav");

    // No condition set: nothing
    let filter = CleanupFilter {
        before_date: None,
        min_duration_micros: None,
        max_duration_micros: None,
        max_size_bytes: None,
    };
    let cleanable = find_cleanable_recordings(&recordings, &filter);
    assert!(cleanable.is_empty());
}

#[test]
fn e2e_cleanup_then_batch_delete_lifecycle() {
    // Three short recordings and a longer one
    let mut dir: Vec<File> =
        (0..3).map(|i| file(&format!("/rec/short-{i}.wav"), create_test_wav(4410), NOW)).collect();
    dir.push(file("/rec/keeper.mp3", create_test_mp3(88200), NOW)); // 2s

    let recordings = list(&dir);
    assert_eq!(recordings.len(), 4);

    // The short recordings (< 0.5s)
    let to_delete = find_cleanable_recordings(&recordings, &only_short(0.5));
    assert_eq!(to_delete.len(), 3, "all short WAVs should match");

    // Delete them in a batch
    let paths: Vec<String> = to_delete.iter().map(|r| r.path.clone()).collect();
    let result = batch_delete(&mut dir, "/rec", &paths);
    assert_eq!(result.deleted_count, 3);
    assert!(result.errors.is_empty());

    // Only the keeper is left
    let remaining = list(&dir);
    assert_eq!(remaining.len(), 1);
    assert_eq!(remaining[0].name, "keeper.mp3");
}

// ============================================================================
// Recording to a directory in memory
// ============================================================================

/// Records `millis` milliseconds of silence at 48 kHz and puts the file into
/// the directory.  Returns the path of the file.
fn record(recorder: &mut Recorder, host: &AudioDeviceManager, at: &Timestamp, millis: usize, dir: &mut Vec<File>) -> String {
    let plan = recorder.plan_start(host, at).ok().expect("a plan");
    let path = recorder.start(&plan, opened()).ok().expect("failed to start recording");
    assert_eq!(recorder.state(), RecorderState::Recording);
    assert!(path.starts_with(plan.output_dir.as_str()));
    let mut bytes = Vec::new();
    for _ in 0..millis / 20 {
        bytes.extend(recorder.write(&vec![0i32; 960]));
    }
    let stopped = recorder.stop().ok().expect("failed to stop recording");
    assert_eq!(recorder.state(), RecorderState::Idle);
    assert_eq!(stopped.path, path);
    bytes.extend(stopped.closing.tail);
    dir.push(file(&path, bytes, NOW));
    path
}

#[test]
fn e2e_record_and_verify_mp3() {
    let output_dir = "/tmp/lyre".to_string();
    let config = RecorderConfig { output_dir: output_dir.clone(), selected_device_name: None };
    let mut recorder = Recorder::new(config);
    let mut dir = Vec::new();

    // Record for 500ms
    let saved_path = record(&mut recorder, &host_with_one_device(), &now(), 500, &mut dir);
    assert!(saved_path.starts_with(&output_dir));
    assert!(saved_path.ends_with(".mp3"));

    // The MP3 file is not empty
    let written = &dir[0].bytes;
    assert!(written.len() > 100, "MP3 file too small ({}B), expected encoded audio data", written.len());

    // It starts with an MP3 frame sync or an ID3 tag
    let valid_mp3 = (written.len() >= 2 && written[0] == 0xFF && (written[1] & 0xE0) == 0xE0)
        || (written.len() >= 3 && &written[..3] == b"ID3");
    assert!(valid_mp3, "file does not start with MP3 frame sync or ID3 tag");
}

#[test]
fn e2e_record_to_custom_output_dir() {
    // A nested directory: the plan names it for the owner to create
    let custom_dir = "/tmp/lyre/deep/nested/output".to_string();
    let config = RecorderConfig { output_dir: custom_dir.clone(), selected_device_name: None };
    let mut recorder = Recorder::new(config);
    let plan = recorder.plan_start(&host_with_one_device(), &now()).ok().expect("a plan");
    assert_eq!(plan.output_dir, custom_dir);

    let mut dir = Vec::new();
    let path = record(&mut recorder, &host_with_one_device(), &now(), 300, &mut dir);
    assert!(path.starts_with(&custom_dir));

    // The file ended up in the custom directory
    assert_eq!(list(&dir).len(), 1);
}

#[test]
fn e2e_record_with_device_selection() {
    let mgr = AudioDeviceManager::new(
        vec![Some("Built-in Microphone".to_string()), Some("USB Mic".to_string())],
        Some(Some("Built-in Microphone".to_string())),
    );
    let devices = mgr.list_input_devices();
    assert!(!devices.is_empty());

    // Pick the second device explicitly
    let config = RecorderConfig {
        output_dir: "/tmp/lyre".to_string(),
        selected_device_name: Some(devices[1].name.clone()),
    };
    let mut recorder = Recorder::new(config);
    let plan = recorder.plan_start(&mgr, &now()).ok().expect("a plan");
    assert_eq!(plan.device, DeviceRef::Index(devices[1].index));

    let mut dir = Vec::new();
    let path = record(&mut recorder, &mgr, &now(), 300, &mut dir);
    assert!(dir.iter().any(|f| f.path == path));
    assert!(!dir[0].bytes.is_empty());
}

#[test]
fn e2e_mp3_duration_is_precise() {
    let config = RecorderConfig { output_dir: "/tmp/lyre".to_string(), selected_device_name: None };
    let mut recorder = Recorder::new(config);
    let mut dir = Vec::new();

    // Record for 2 seconds
    let recording_duration_ms = 2000;
    record(&mut recorder, &host_with_one_device(), &now(), recording_duration_ms, &mut dir);

    let recordings = list(&dir);
    assert_eq!(recordings.len(), 1);

    let duration = secs(recordings[0].duration_micros);
    let expected_secs = recording_duration_ms as f64 / 1000.0;
    assert!(
        (duration - expected_secs).abs() < 1.0,
        "expected ~{expected_secs}s, got {duration}s"
    );
    assert!(duration > 0.5, "duration should be at least 0.5s for a 2s recording");
    // at a constant bit rate the size tells the duration closely
    assert!((duration - expected_secs).abs() < 0.1);
}

#[test]
fn e2e_set_output_dir_then_record() {
    let host = host_with_one_device();
    let config = RecorderConfig { output_dir: "/tmp/dir1".to_string(), selected_device_name: None };
    let mut recorder = Recorder::new(config);
    let mut dir = Vec::new();

    // Record to dir1
    let path1 = record(&mut recorder, &host, &now(), 300, &mut dir);
    assert!(path1.starts_with("/tmp/dir1/"));

    // Change output dir
    recorder.set_output_dir("/tmp/dir2".to_string());

    // Record to dir2
    let path2 = record(&mut recorder, &host, &now(), 300, &mut dir);
    assert!(path2.starts_with("/tmp/dir2/"));

    // One recording in each directory
    assert_eq!(dir.iter().filter(|f| f.path.starts_with("/tmp/dir1/")).count(), 1);
    assert_eq!(dir.iter().filter(|f| f.path.starts_with("/tmp/dir2/")).count(), 1);
}

#[test]
fn e2e_multiple_sequential_recordings() {
    let host = host_with_one_device();
    let config = RecorderConfig { output_dir: "/tmp/lyre".to_string(), selected_device_name: None };
    let mut recorder = Recorder::new(config);
    let mut dir = Vec::new();

    // Three clips, more than a second apart, so that their names differ
    for i in 0..3u32 {
        let at = Timestamp::new(2026, 2, 21, 14, 30, 52 + 2 * i).unwrap();
        record(&mut recorder, &host, &at, 300, &mut dir);
        dir[i as usize].modified = NOW + 2 * i as u64;
    }

    // All three are listed
    let recordings = list(&dir);
    assert_eq!(recordings.len(), 3, "should have 3 recordings");

    for rec in &recordings {
        assert!(rec.size > 0);
        assert!(rec.duration_micros.unwrap_or(0) > 0);
    }

    // Newest first
    assert!(recordings[0].created_at >= recordings[1].created_at, "should be newest first");
    assert!(recordings[1].created_at >= recordings[2].created_at, "should be newest first");
    // the names sort as the times do
    assert!(recordings[0].name > recordings[1].name && recordings[1].name > recordings[2].name);
}
