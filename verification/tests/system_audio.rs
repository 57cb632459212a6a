use lyre::capture::{
    check_permission, extract_mono_samples, list_audio_input_devices, start_capture, AudioBuffer,
    AudioInputDeviceInfo, CaptureConfig, CaptureError, CaptureProbe, PermissionStatus,
    StreamOutputType,
};
use lyre::mixer::{AudioMixer, Feed};
use lyre::sample::{sample_from_ieee, FULL_SCALE};

/// The sample that stands for an amplitude.
fn s(x: f32) -> i32 {
    sample_from_ieee(x.to_bits())
}

/// The amplitude that a sample stands for.
fn f(v: i32) -> f32 {
    v as f32 / FULL_SCALE as f32
}

fn samples(xs: &[f32]) -> Vec<i32> {
    xs.iter().map(|x| s(*x)).collect()
}

fn granted_probe() -> CaptureProbe {
    CaptureProbe { permission_error: None, display_count: 1, microphones: Vec::new() }
}

#[test]
fn test_capture_config_default() {
    let config = CaptureConfig::default();
    assert_eq!(config.sample_rate, 48000);
    assert!(config.capture_system_audio);
    assert!(config.capture_microphone);
    assert!(config.microphone_device_id.is_none());
}

#[test]
fn test_capture_error_display() {
    assert_eq!(CaptureError::NoDisplay.to_string(), "no display found");
    assert_eq!(
        CaptureError::PermissionDenied("test".into()).to_string(),
        "permission denied: test"
    );
    assert_eq!(
        CaptureError::StartFailed("test".into()).to_string(),
        "failed to start capture: test"
    );
    assert_eq!(
        CaptureError::StopFailed("test".into()).to_string(),
        "failed to stop capture: test"
    );
}

#[test]
fn test_check_permission() {
    // Whatever the probe gave, the status is one of the two.
    for probe in [true, false] {
        let status = check_permission(probe);
        assert!(status == PermissionStatus::Granted || status == PermissionStatus::Denied);
    }
    assert_eq!(check_permission(true), PermissionStatus::Granted);
    assert_eq!(check_permission(false), PermissionStatus::Denied);
}

#[test]
fn test_list_audio_devices() {
    // No endpoints: an empty list, no panic.
    assert!(list_audio_input_devices(Vec::new()).is_empty());
    let devices = list_audio_input_devices(vec![
        ("BuiltInMicrophoneDevice".to_string(), "MacBook Pro Microphone".to_string()),
        ("usb-1".to_string(), "USB Mic".to_string()),
    ]);
    assert_eq!(devices.len(), 2);
    for device in &devices {
        assert!(!device.id.is_empty());
        assert!(!device.name.is_empty());
    }
    assert_eq!(devices[0].id, "BuiltInMicrophoneDevice");
    assert_eq!(devices[1].name, "USB Mic");
}

// --- AudioMixer ---

#[test]
fn test_mixer_both_sources_equal_length() {
    let mut mixer = AudioMixer::new();

    let first = mixer.push_system(&samples(&[1.0, 0.5, 0.0]));
    // Nothing emitted yet: the microphone has not delivered
    assert!(first.is_none());

    let out = mixer.push_mic(&samples(&[0.0, 0.5, 1.0])).expect("both feeds hold samples");
    assert_eq!(out.len(), 3);
    assert!((f(out[0]) - 0.5).abs() < f32::EPSILON); // (1.0 + 0.0) / 2
    assert!((f(out[1]) - 0.5).abs() < f32::EPSILON); // (0.5 + 0.5) / 2
    assert!((f(out[2]) - 0.5).abs() < f32::EPSILON); // (0.0 + 1.0) / 2
    assert_eq!(out, vec![FULL_SCALE / 2; 3]);
}

#[test]
fn test_mixer_unequal_lengths() {
    let mut mixer = AudioMixer::new();

    assert!(mixer.push_system(&samples(&[0.8, 0.6, 0.4, 0.2])).is_none());
    let out = mixer.push_mic(&samples(&[0.2, 0.4])).expect("two samples overlap");
    // Two samples are mixed, two stay in the system buffer
    assert_eq!(out.len(), 2);
    assert!((f(out[0]) - 0.5).abs() < f32::EPSILON); // (0.8 + 0.2) / 2
    assert!((f(out[1]) - 0.5).abs() < f32::EPSILON); // (0.6 + 0.4) / 2
    assert_eq!(mixer.pending_system(), &samples(&[0.4, 0.2]));
    assert!(mixer.pending_mic().is_empty());
}

#[test]
fn test_mixer_single_source_drains_at_threshold() {
    let mut mixer = AudioMixer::with_max_pending(10);

    // Ten system samples and no microphone: drained
    let out = mixer.push_system(&samples(&[0.5; 10])).expect("the threshold is reached");
    assert_eq!(out.len(), 10);
    assert!(out.iter().all(|&v| (f(v) - 0.5).abs() < f32::EPSILON));
    assert!(mixer.pending_system().is_empty());
}

#[test]
fn test_mixer_clamps_output() {
    let mut mixer = AudioMixer::new();

    // Both at the extreme: the average is still in range
    assert!(mixer.push_system(&samples(&[1.0, -1.0])).is_none());
    let out = mixer.push_mic(&samples(&[1.0, -1.0])).expect("both feeds hold samples");
    assert_eq!(out.len(), 2);
    assert!(f(out[0]) <= 1.0);
    assert!(f(out[1]) >= -1.0);
    assert_eq!(out, vec![FULL_SCALE, -FULL_SCALE]);
}

#[test]
fn test_mixer_preserves_sample_count() {
    // Two seconds at 48 kHz, both feeds in frames of 960 samples (20 ms).
    let mut mixer = AudioMixer::new();
    let mut total = 0usize;

    let frame = samples(&vec![0.1_f32; 960]);
    let frames_per_second = 50; // 48000 / 960
    let total_frames = frames_per_second * 2;

    for _ in 0..total_frames {
        if let Some(out) = mixer.push_system(&frame) {
            total += out.len();
        }
        if let Some(out) = mixer.push_mic(&frame) {
            total += out.len();
        }
    }

    // Two seconds' worth of samples, not twice that
    assert_eq!(total, 96000);
}

#[test]
fn mixer_below_threshold_emits_nothing() {
    let mut mixer = AudioMixer::with_max_pending(10);
    assert!(mixer.push_system(&[1, 2, 3, 4, 5, 6, 7, 8, 9]).is_none());
    assert_eq!(mixer.pending_system().len(), 9);
    // one more sample reaches the threshold: all ten come out, in order
    assert_eq!(mixer.push_system(&[10]), Some(vec![1, 2, 3, 4, 5, 6, 7, 8, 9, 10]));
}

#[test]
fn mixer_drains_microphone_alone_too() {
    let mut mixer = AudioMixer::with_max_pending(3);
    assert_eq!(mixer.push(Feed::Microphone, &[7, 8]), None);
    assert_eq!(mixer.push(Feed::Microphone, &[9]), Some(vec![7, 8, 9]));
    assert!(mixer.pending_mic().is_empty());
}

#[test]
fn mixer_with_threshold_zero_emits_the_empty_system_buffer_first() {
    let mut mixer = AudioMixer::with_max_pending(0);
    // the empty system buffer has reached a threshold of zero
    assert_eq!(mixer.push_mic(&[1, 2]), Some(Vec::new()));
    assert_eq!(mixer.pending_mic(), &vec![1, 2]);
}

#[test]
fn mixer_rounds_toward_zero_and_keeps_the_surplus_in_order() {
    let mut mixer = AudioMixer::new();
    assert!(mixer.push_mic(&[3, -3, 10, 20, 30]).is_none());
    assert_eq!(mixer.push_system(&[4, -4]), Some(vec![3, -3]));
    assert_eq!(mixer.pending_mic(), &vec![10, 20, 30]);
    // (MAX + 10) / 2 is clamped; (MIN + 20) / 2 is just inside the range
    assert_eq!(mixer.push_system(&[i32::MAX, i32::MIN, 0, 5]), Some(vec![
        FULL_SCALE,
        -FULL_SCALE + 10,
        15
    ]));
    assert_eq!(mixer.pending_system(), &vec![5]);
}

#[test]
fn mixer_starts_with_the_default_threshold() {
    assert_eq!(AudioMixer::new().max_pending_samples(), 4800);
}

// --- Sessions ---

fn le_bytes(xs: &[f32]) -> Vec<u8> {
    xs.iter().flat_map(|x| x.to_le_bytes()).collect()
}

#[test]
fn extract_decodes_little_endian_floats() {
    let buffers = vec![AudioBuffer { data: le_bytes(&[0.5, -0.25]), number_channels: 1 }];
    assert_eq!(
        extract_mono_samples(&buffers, 1),
        Some(vec![FULL_SCALE / 2, -(FULL_SCALE / 4)])
    );
}

#[test]
fn extract_skips_empty_and_ragged_buffers() {
    let mut ragged = le_bytes(&[0.5]);
    ragged.push(0);
    let buffers = vec![
        AudioBuffer { data: Vec::new(), number_channels: 1 },
        AudioBuffer { data: ragged, number_channels: 1 },
    ];
    assert_eq!(extract_mono_samples(&buffers, 1), None);
    assert_eq!(extract_mono_samples(&Vec::new(), 1), None);
}

#[test]
fn extract_downmixes_stereo_unless_mono_was_asked_for() {
    let buffers = vec![AudioBuffer { data: le_bytes(&[1.0, 0.0, 0.5, 0.5]), number_channels: 2 }];
    assert_eq!(
        extract_mono_samples(&buffers, 2),
        Some(vec![FULL_SCALE / 2, FULL_SCALE / 2])
    );
    assert_eq!(
        extract_mono_samples(&buffers, 1),
        Some(vec![FULL_SCALE, 0, FULL_SCALE / 2, FULL_SCALE / 2])
    );
}

#[test]
fn session_without_permission_is_refused() {
    let probe = CaptureProbe {
        permission_error: Some("declined".to_string()),
        display_count: 1,
        microphones: Vec::new(),
    };
    match start_capture(&CaptureConfig::default(), &probe) {
        Err(CaptureError::PermissionDenied(m)) => {
            assert_eq!(m, "screen capture permission denied or unavailable: declined")
        }
        _ => panic!("expected PermissionDenied"),
    }
}

#[test]
fn session_without_display_is_refused() {
    let probe = CaptureProbe { permission_error: None, display_count: 0, microphones: Vec::new() };
    assert!(matches!(
        start_capture(&CaptureConfig::default(), &probe),
        Err(CaptureError::NoDisplay)
    ));
}

#[test]
fn session_plan_follows_the_config() {
    let config = CaptureConfig {
        sample_rate: 44100,
        capture_system_audio: true,
        capture_microphone: true,
        microphone_device_id: Some("usb-1".to_string()),
    };
    let mut probe = granted_probe();
    probe.microphones =
        vec![AudioInputDeviceInfo { id: "usb-1".to_string(), name: "USB Mic".to_string() }];
    let session = start_capture(&config, &probe).ok().expect("the session opens");
    let plan = session.plan();
    assert_eq!((plan.width, plan.height), (2, 2));
    assert!(plan.captures_audio);
    assert_eq!(plan.sample_rate, 44100);
    assert_eq!(plan.channel_count, 1);
    assert!(plan.captures_microphone);
    assert_eq!(plan.microphone_device_id, Some("usb-1".to_string()));
    assert!(!plan.fell_back);
    assert_eq!(session.handlers().len(), 2);
}

#[test]
fn session_falls_back_to_the_default_microphone() {
    let config = CaptureConfig {
        sample_rate: 48000,
        capture_system_audio: true,
        capture_microphone: true,
        microphone_device_id: Some("gone".to_string()),
    };
    let session = start_capture(&config, &granted_probe()).ok().expect("the session opens");
    assert_eq!(session.plan().microphone_device_id, None);
    assert!(session.plan().fell_back);
}

#[test]
fn session_mixes_two_feeds() {
    let mut session =
        start_capture(&CaptureConfig::default(), &granted_probe()).ok().expect("opens");
    assert!(session.started(None).is_ok());
    let handlers = session.handlers();
    let audio = vec![AudioBuffer { data: le_bytes(&[1.0, 0.5]), number_channels: 1 }];
    let mic = vec![AudioBuffer { data: le_bytes(&[0.0, 0.5]), number_channels: 1 }];

    // every buffer reaches every handler; each handler answers for its own kind only
    assert_eq!(session.deliver(&handlers[1], &audio, StreamOutputType::Audio), None);
    assert_eq!(session.deliver(&handlers[0], &audio, StreamOutputType::Audio), None);
    assert_eq!(session.deliver(&handlers[0], &mic, StreamOutputType::Microphone), None);
    assert_eq!(
        session.deliver(&handlers[1], &mic, StreamOutputType::Microphone),
        Some(vec![FULL_SCALE / 2, FULL_SCALE / 2])
    );
    assert_eq!(session.deliver(&handlers[0], &audio, StreamOutputType::Screen), None);
    assert!(session.stop(None).is_ok());
}

#[test]
fn session_with_one_feed_passes_it_on() {
    let config = CaptureConfig {
        sample_rate: 48000,
        capture_system_audio: true,
        capture_microphone: false,
        microphone_device_id: None,
    };
    let mut session = start_capture(&config, &granted_probe()).ok().expect("opens");
    let handlers = session.handlers();
    assert_eq!(handlers.len(), 1);
    let audio = vec![AudioBuffer { data: le_bytes(&[0.25]), number_channels: 1 }];
    assert_eq!(
        session.deliver(&handlers[0], &audio, StreamOutputType::Audio),
        Some(vec![FULL_SCALE / 4])
    );
    assert_eq!(session.deliver(&handlers[0], &audio, StreamOutputType::Microphone), None);
}

#[test]
fn session_reports_what_the_platform_said() {
    let mut session =
        start_capture(&CaptureConfig::default(), &granted_probe()).ok().expect("opens");
    match session.started(Some("busy".to_string())) {
        Err(e) => assert_eq!(e.to_string(), "failed to start capture: busy"),
        Ok(()) => panic!("expected StartFailed"),
    }
    match session.stop(Some("gone".to_string())) {
        Err(e) => assert_eq!(e.to_string(), "failed to stop capture: gone"),
        Ok(()) => panic!("expected StopFailed"),
    }
}

#[test]
fn words_beyond_full_scale_are_mixed_before_they_are_clamped() {
    // a stereo buffer: the frame 1.5, -0.5 averages to 0.5
    let stereo = vec![AudioBuffer { data: le_bytes(&[1.5, -0.5, 2.0, 2.0]), number_channels: 2 }];
    assert_eq!(extract_mono_samples(&stereo, 2), Some(vec![FULL_SCALE / 2, FULL_SCALE]));
    // a frame with a word that is no number gives silence
    let broken = vec![AudioBuffer { data: le_bytes(&[f32::NAN, 0.5, 0.5, 0.5]), number_channels: 2 }];
    assert_eq!(extract_mono_samples(&broken, 2), Some(vec![0, FULL_SCALE / 2]));

    // two feeds: 1.5 from the system and -0.5 from the microphone mix to 0.5
    let mut session =
        start_capture(&CaptureConfig::default(), &granted_probe()).ok().expect("opens");
    let handlers = session.handlers();
    let system = vec![AudioBuffer { data: le_bytes(&[1.5, 1.5]), number_channels: 1 }];
    let mic = vec![AudioBuffer { data: le_bytes(&[-0.5, 1.0]), number_channels: 1 }];
    assert_eq!(session.deliver(&handlers[0], &system, StreamOutputType::Audio), None);
    assert_eq!(
        session.deliver(&handlers[1], &mic, StreamOutputType::Microphone),
        Some(vec![FULL_SCALE / 2, FULL_SCALE])
    );
}
