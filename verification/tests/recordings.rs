use lyre::filename::{file_time_text, iso_time_text, Timestamp, MAX_FILE_TIME};
use lyre::recordings::{
    audio_duration, batch_delete_recordings, default_output_dir, delete_recording,
    find_cleanable_recordings, is_audio_file, is_within, list_recordings, mp3_duration_estimate,
    recording_info, sort_newest_first, wav_duration, CleanupFilter, DeleteAttempt, DirContent,
    DirEntry, DurationSource, RecordingInfo,
};

/// A regular file of a directory.
fn entry(path: &str, size: u64, duration_micros: Option<u64>, modified_secs: u64) -> DirEntry {
    DirEntry { path: path.to_string(), is_file: true, size, duration_micros, modified_secs }
}

/// The listing of a directory with these entries.
fn listing(entries: Vec<DirEntry>) -> Vec<RecordingInfo> {
    list_recordings(DirContent::Entries(entries)).unwrap()
}

fn micros(secs: f64) -> u64 {
    (secs * 1_000_000.0).round() as u64
}

fn make_recording(name: &str, size: u64, duration: Option<f64>, created_at: &str) -> RecordingInfo {
    RecordingInfo {
        path: format!("/tmp/test/{name}"),
        name: name.to_string(),
        size,
        duration_micros: duration.map(micros),
        created_at: created_at.to_string(),
    }
}

fn filter(
    before_date: Option<&str>,
    min_duration_secs: Option<f64>,
    max_duration_secs: Option<f64>,
    max_size_bytes: Option<u64>,
) -> CleanupFilter {
    CleanupFilter {
        before_date: before_date.map(|d| d.to_string()),
        min_duration_micros: min_duration_secs.map(micros),
        max_duration_micros: max_duration_secs.map(micros),
        max_size_bytes,
    }
}

fn deleted(path: &str, size: u64) -> DeleteAttempt {
    DeleteAttempt { path: path.to_string(), size, error: None }
}

fn failed(path: &str, why: &str) -> DeleteAttempt {
    DeleteAttempt { path: path.to_string(), size: 0, error: Some(why.to_string()) }
}

#[test]
fn test_list_recordings_empty_dir() {
    let result = list_recordings(DirContent::Entries(Vec::new())).unwrap();
    assert!(result.is_empty());
}

#[test]
fn test_list_recordings_nonexistent_dir() {
    let result = list_recordings(DirContent::Missing).unwrap();
    assert!(result.is_empty());
}

#[test]
fn test_list_recordings_sorted_newest_first() {
    let now: u64 = 1_771_684_252;
    // the first file was written ten seconds before the second
    let older = entry("/rec/older.wav", 8864, Some(100_000), now - 10);
    let newer = entry("/rec/newer.wav", 8864, Some(100_000), now);

    let result = listing(vec![older, newer]);
    assert_eq!(result.len(), 2);
    assert_eq!(result[0].name, "newer.wav");
    assert_eq!(result[1].name, "older.wav");
}

#[test]
fn test_list_recordings_has_duration() {
    // 4410 frames at 44100 Hz: 0.1 seconds
    let duration = wav_duration(4410, 44100);
    let result = listing(vec![entry("/rec/test.wav", 8864, duration, 0)]);
    assert_eq!(result.len(), 1);
    assert!(result[0].duration_micros.is_some());
    assert!(result[0].size > 0);
    assert_eq!(result[0].duration_micros, Some(100_000));
}

#[test]
fn test_delete_recording_success() {
    let result = delete_recording(Ok("/tmp/a/to-delete.wav".to_string()), Ok("/tmp/a".to_string()));
    assert_eq!(result, Ok("/tmp/a/to-delete.wav".to_string()));
}

#[test]
fn test_delete_recording_outside_dir() {
    let result = delete_recording(Ok("/tmp/b/outside.wav".to_string()), Ok("/tmp/a".to_string()));
    assert!(result.is_err());
    assert!(result.unwrap_err().contains("outside"));
}

#[test]
fn test_delete_recording_not_found() {
    let result = delete_recording(
        Err("No such file or directory (os error 2)".to_string()),
        Ok("/tmp/a".to_string()),
    );
    assert!(result.is_err());
    assert_eq!(
        result,
        Err("file not found: No such file or directory (os error 2)".to_string())
    );
}

#[test]
fn test_default_output_dir() {
    let dir = default_output_dir();
    assert!(dir.contains("Lyre Recordings"));
}

// --- Cleanup filter ---

#[test]
fn test_cleanup_no_filters_matches_nothing() {
    let recordings = vec![make_recording("a.mp3", 1000, Some(10.0), "2026-02-20T10:00:00+0800")];
    let filter = filter(None, None, None, None);
    let result = find_cleanable_recordings(&recordings, &filter);
    assert!(result.is_empty());
}

#[test]
fn test_cleanup_before_date() {
    let recordings = vec![
        make_recording("old.mp3", 1000, Some(10.0), "2025-01-01T00:00:00+0800"),
        make_recording("new.mp3", 1000, Some(10.0), "2026-06-01T00:00:00+0800"),
    ];
    let filter = filter(Some("2026-01-01T00:00:00+0800"), None, None, None);
    let result = find_cleanable_recordings(&recordings, &filter);
    assert_eq!(result.len(), 1);
    assert_eq!(result[0].name, "old.mp3");
}

#[test]
fn test_cleanup_short_duration() {
    let recordings = vec![
        make_recording("short.mp3", 500, Some(0.5), "2026-02-20T10:00:00+0800"),
        make_recording("normal.mp3", 5000, Some(30.0), "2026-02-20T10:00:00+0800"),
    ];
    let filter = filter(None, Some(5.0), None, None);
    let result = find_cleanable_recordings(&recordings, &filter);
    assert_eq!(result.len(), 1);
    assert_eq!(result[0].name, "short.mp3");
}

#[test]
fn test_cleanup_long_duration() {
    let recordings = vec![
        make_recording("normal.mp3", 5000, Some(30.0), "2026-02-20T10:00:00+0800"),
        make_recording("long.mp3", 50000, Some(3600.0), "2026-02-20T10:00:00+0800"),
    ];
    let filter = filter(None, None, Some(1800.0), None);
    let result = find_cleanable_recordings(&recordings, &filter);
    assert_eq!(result.len(), 1);
    assert_eq!(result[0].name, "long.mp3");
}

#[test]
fn test_cleanup_large_file() {
    let recordings = vec![
        make_recording("small.mp3", 1_000_000, Some(30.0), "2026-02-20T10:00:00+0800"),
        make_recording("huge.mp3", 500_000_000, Some(300.0), "2026-02-20T10:00:00+0800"),
    ];
    let filter = filter(None, None, None, Some(100_000_000));
    let result = find_cleanable_recordings(&recordings, &filter);
    assert_eq!(result.len(), 1);
    assert_eq!(result[0].name, "huge.mp3");
}

#[test]
fn test_cleanup_or_logic_multiple_filters() {
    let recordings = vec![
        make_recording("old.mp3", 1000, Some(30.0), "2025-01-01T00:00:00+0800"),
        make_recording("short.mp3", 500, Some(0.5), "2026-06-01T00:00:00+0800"),
        make_recording("huge.mp3", 500_000_000, Some(60.0), "2026-06-01T00:00:00+0800"),
        make_recording("ok.mp3", 5000, Some(30.0), "2026-06-01T00:00:00+0800"),
    ];
    let filter = filter(Some("2026-01-01T00:00:00+0800"), Some(5.0), None, Some(100_000_000));
    let result = find_cleanable_recordings(&recordings, &filter);
    assert_eq!(result.len(), 3);
    let names: Vec<&str> = result.iter().map(|r| r.name.as_str()).collect();
    assert!(names.contains(&"old.mp3"));
    assert!(names.contains(&"short.mp3"));
    assert!(names.contains(&"huge.mp3"));
    assert!(!names.contains(&"ok.mp3"));
    assert_eq!(names, vec!["old.mp3", "short.mp3", "huge.mp3"]);
}

#[test]
fn test_cleanup_skips_none_duration() {
    // A recording without duration meets no condition on durations
    let recordings = vec![make_recording("no-dur.mp3", 1000, None, "2026-06-01T00:00:00+0800")];
    let filter = filter(None, Some(5.0), None, None);
    let result = find_cleanable_recordings(&recordings, &filter);
    assert!(result.is_empty());
}

#[test]
fn test_batch_delete_recordings() {
    let attempts = vec![deleted("/tmp/a/a.wav", 8864), deleted("/tmp/a/b.wav", 8864)];
    let result = batch_delete_recordings(&attempts);
    assert_eq!(result.deleted_count, 2);
    assert!(result.freed_bytes > 0);
    assert_eq!(result.freed_bytes, 17728);
    assert!(result.errors.is_empty());
}

#[test]
fn test_batch_delete_partial_failure() {
    let attempts = vec![
        deleted("/tmp/a/exists.wav", 8864),
        failed("/tmp/a/ghost.wav", "file not found: No such file or directory (os error 2)"),
    ];
    let result = batch_delete_recordings(&attempts);
    assert_eq!(result.deleted_count, 1);
    assert_eq!(result.errors.len(), 1);
    assert_eq!(result.errors[0].path, "/tmp/a/ghost.wav");
    assert_eq!(
        result.errors[0].error,
        "file not found: No such file or directory (os error 2)"
    );
    assert_eq!(result.freed_bytes, 8864);
}

#[test]
fn cleanup_conditions_are_strict() {
    let rec = vec![make_recording("a.mp3", 1000, Some(5.0), "2026-01-01T00:00:00+0800")];
    // exactly at a bound: not cleared out
    assert!(find_cleanable_recordings(&rec, &filter(None, Some(5.0), None, None)).is_empty());
    assert!(find_cleanable_recordings(&rec, &filter(None, None, Some(5.0), None)).is_empty());
    assert!(find_cleanable_recordings(&rec, &filter(None, None, None, Some(1000))).is_empty());
    assert!(
        find_cleanable_recordings(&rec, &filter(Some("2026-01-01T00:00:00+0800"), None, None, None))
            .is_empty()
    );
    // just beyond: cleared out
    assert_eq!(find_cleanable_recordings(&rec, &filter(None, Some(5.000001), None, None)).len(), 1);
    assert_eq!(find_cleanable_recordings(&rec, &filter(None, None, Some(4.999999), None)).len(), 1);
    assert_eq!(find_cleanable_recordings(&rec, &filter(None, None, None, Some(999))).len(), 1);
    assert_eq!(
        find_cleanable_recordings(&rec, &filter(Some("2026-01-01T00:00:01+0800"), None, None, None))
            .len(),
        1
    );
}

#[test]
fn listing_keeps_the_order_of_equal_times() {
    let at = |name: &str, created_at: &str| make_recording(name, 1, None, created_at);
    let mut list = vec![
        at("a", "2026-01-01T00:00:00+0000"),
        at("b", "2026-01-03T00:00:00+0000"),
        at("c", "2026-01-01T00:00:00+0000"),
        at("d", "2026-01-02T00:00:00+0000"),
        at("e", "2026-01-03T00:00:00+0000"),
    ];
    sort_newest_first(&mut list);
    let names: Vec<&str> = list.iter().map(|r| r.name.as_str()).collect();
    assert_eq!(names, vec!["b", "e", "d", "a", "c"]);
}

#[test]
fn audio_files_go_by_their_extension() {
    assert!(is_audio_file("/rec/a.mp3"));
    assert!(is_audio_file("/rec/a.WAV"));
    assert!(is_audio_file("a.b.Mp3"));
    assert!(!is_audio_file("/rec/notes.txt"));
    assert!(!is_audio_file("/rec/.mp3"));
    assert!(!is_audio_file("/rec/mp3"));
    assert!(!is_audio_file("/rec.mp3/readme"));
    assert!(!is_audio_file("/rec/a.mp3x"));
    assert_eq!(audio_duration("/rec/a.Wav"), DurationSource::WavHeader);
    assert_eq!(audio_duration("/rec/a.mp3"), DurationSource::Mp3Size);
    assert_eq!(audio_duration("/rec/a.flac"), DurationSource::Unknown);
    assert_eq!(audio_duration("/rec/a"), DurationSource::Unknown);
}

#[test]
fn durations_in_microseconds() {
    assert_eq!(wav_duration(44100, 44100), Some(1_000_000));
    assert_eq!(wav_duration(1, 3), Some(333_333));
    assert_eq!(wav_duration(0, 44100), Some(0));
    assert_eq!(wav_duration(44100, 0), None);
    assert_eq!(wav_duration(u32::MAX, 1), Some(4_294_967_295_000_000));
    assert_eq!(mp3_duration_estimate(0), None);
    assert_eq!(mp3_duration_estimate(24000), Some(1_000_000));
    assert_eq!(mp3_duration_estimate(16000), Some(666_666));
    assert_eq!(mp3_duration_estimate(1), Some(41));
    assert_eq!(mp3_duration_estimate(u64::MAX), Some(u64::MAX));
}

#[test]
fn recording_info_takes_the_name_from_the_path() {
    let rec = recording_info("/rec/recording-20260221-143052.mp3", 48000, Some(2_000_000), 0);
    assert_eq!(rec.path, "/rec/recording-20260221-143052.mp3");
    assert_eq!(rec.name, "recording-20260221-143052.mp3");
    assert_eq!(rec.size, 48000);
    assert_eq!(rec.duration_micros, Some(2_000_000));
    // local time in ISO 8601, with the offset of the time zone
    let bytes = rec.created_at.as_bytes();
    assert_eq!(bytes.len(), 24);
    assert_eq!(bytes[4], b'-');
    assert_eq!(bytes[10], b'T');
    assert!(bytes[19] == b'+' || bytes[19] == b'-');
    assert!(rec.created_at.starts_with("1970-01-01") || rec.created_at.starts_with("1969-12-31"));
}

#[test]
fn paths_inside_and_outside_a_directory() {
    assert!(is_within("/rec", "/rec"));
    assert!(is_within("/rec/a.mp3", "/rec"));
    assert!(is_within("/rec/sub/a.mp3", "/rec"));
    assert!(is_within("/rec", "/"));
    assert!(is_within("/", "/"));
    assert!(!is_within("/recordings/a.mp3", "/rec"));
    assert!(!is_within("/re", "/rec"));
    assert!(!is_within("/other/rec/a.mp3", "/rec"));
    assert!(!is_within("rec/a.mp3", "/"));
}

#[test]
fn delete_reports_an_unusable_directory_first() {
    assert_eq!(
        delete_recording(Err("no file".to_string()), Err("no dir".to_string())),
        Err("invalid output directory: no dir".to_string())
    );
    assert_eq!(
        delete_recording(Ok("/b/x.wav".to_string()), Ok("/a".to_string())),
        Err("file is outside the recordings directory".to_string())
    );
}

#[test]
fn batch_sums_saturate() {
    let attempts = vec![deleted("/a", u64::MAX), deleted("/b", 5), failed("/c", "busy")];
    let result = batch_delete_recordings(&attempts);
    assert_eq!(result.deleted_count, 2);
    assert_eq!(result.freed_bytes, u64::MAX);
    assert_eq!(result.errors.len(), 1);
}

#[test]
fn test_list_recordings_ignores_non_audio() {
    // A .txt file is left out; a .wav file and an .mp3 file are listed
    let result = listing(vec![
        entry("/rec/notes.txt", 5, None, 0),
        entry("/rec/recording.wav", 8864, Some(100_000), 0),
        entry("/rec/recording.mp3", 16000, Some(666_666), 0),
    ]);
    assert_eq!(result.len(), 2);
}

#[test]
fn times_are_written_in_iso_8601() {
    let t = Timestamp::new(2026, 2, 21, 14, 30, 52).unwrap();
    assert_eq!(iso_time_text(&t, 8 * 3600), "2026-02-21T14:30:52+0800");
    assert_eq!(iso_time_text(&t, 0), "2026-02-21T14:30:52+0000");
    assert_eq!(iso_time_text(&t, -(9 * 3600 + 30 * 60)), "2026-02-21T14:30:52-0930");
    // seconds of an offset are rounded to the nearest minute
    assert_eq!(iso_time_text(&t, 3600 + 29), "2026-02-21T14:30:52+0100");
    assert_eq!(iso_time_text(&t, 3600 + 30), "2026-02-21T14:30:52+0101");
    assert_eq!(iso_time_text(&t, -10), "2026-02-21T14:30:52-0000");
    assert_eq!(iso_time_text(&t, 86_399), "2026-02-21T14:30:52+2400");
    let early = Timestamp::new(5, 1, 2, 3, 4, 5).unwrap();
    assert_eq!(iso_time_text(&early, -3600), "0005-01-02T03:04:05-0100");
    let late = Timestamp::new(10000, 1, 1, 0, 0, 0).unwrap();
    assert_eq!(iso_time_text(&late, 3600), "+10000-01-01T00:00:00+0100");
}

#[test]
fn the_times_of_files_are_what_chrono_writes() {
    for secs in [0u64, 1, 86_399, 1_771_684_252, 4_102_444_800, MAX_FILE_TIME] {
        let expected = chrono::DateTime::from_timestamp(secs as i64, 0)
            .unwrap()
            .with_timezone(&chrono::Local)
            .format("%Y-%m-%dT%H:%M:%S%z")
            .to_string();
        assert_eq!(file_time_text(secs), expected, "{secs}");
        assert_eq!(recording_info("/rec/a.mp3", 1, None, secs).created_at, expected);
    }
    // what lies beyond is taken for the start of 1970
    assert_eq!(file_time_text(MAX_FILE_TIME + 1), file_time_text(0));
    assert_eq!(file_time_text(u64::MAX), file_time_text(0));
}

#[test]
fn a_listing_holds_the_regular_audio_files_each_once_from_new_to_old() {
    let now: u64 = 1_771_684_252;
    let directory = DirEntry {
        path: "/rec/archive.mp3".to_string(),
        is_file: false,
        size: 96,
        duration_micros: None,
        modified_secs: now,
    };
    let result = listing(vec![
        entry("/rec/old.MP3", 24000, Some(1_000_000), now - 7200),
        entry("/rec/readme.txt", 12, None, now),
        directory,
        entry("/rec/new.Wav", 8864, Some(100_000), now),
        entry("/rec/.mp3", 1, None, now),
        entry("/rec/mid.wav", 0, None, now - 3600),
        entry("/rec/song.flac", 1, None, now),
    ]);
    let names: Vec<&str> = result.iter().map(|r| r.name.as_str()).collect();
    assert_eq!(names, vec!["new.Wav", "mid.wav", "old.MP3"]);
    assert_eq!(result[0].path, "/rec/new.Wav");
    assert_eq!((result[0].size, result[0].duration_micros), (8864, Some(100_000)));
    assert_eq!((result[1].size, result[1].duration_micros), (0, None));
    assert_eq!(result[2].created_at, file_time_text(now - 7200));
    // files of the same second keep the order of the directory
    let twins = listing(vec![entry("/rec/b.mp3", 1, None, now), entry("/rec/a.mp3", 1, None, now)]);
    assert_eq!(twins[0].name, "b.mp3");
    assert_eq!(twins[1].name, "a.mp3");
}

#[test]
fn a_directory_that_cannot_be_read_is_an_error() {
    assert_eq!(
        list_recordings(DirContent::Unreadable("Permission denied (os error 13)".to_string())).err(),
        Some("failed to read directory: Permission denied (os error 13)".to_string())
    );
    assert_eq!(list_recordings(DirContent::Missing).ok().map(|l| l.len()), Some(0));
}
