use lyre::audio::{AudioDeviceInfo, AudioDeviceManager, DeviceRef, SampleFormat, StreamFormat};
use lyre::recorder::{error_for, StartStep};

fn named(names: &[&str]) -> Vec<Option<String>> {
    names.iter().map(|n| Some(n.to_string())).collect()
}

#[test]
fn test_audio_device_manager_creation() {
    // A host without devices: the list is empty, and nothing panics
    let manager = AudioDeviceManager::new(Vec::new(), None);
    let devices = manager.list_input_devices();
    assert!(devices.is_empty());
}

#[test]
fn test_device_info_fields() {
    let info = AudioDeviceInfo { name: "Test Mic".to_string(), index: 0, is_default: true };
    assert_eq!(info.name, "Test Mic");
    assert_eq!(info.index, 0);
    assert!(info.is_default);
}

#[test]
fn test_list_devices_default_flag() {
    let manager = AudioDeviceManager::new(
        named(&["Built-in Microphone", "USB Mic", "USB Mic"]),
        Some(Some("USB Mic".to_string())),
    );
    let devices = manager.list_input_devices();
    // At most one device is marked as default
    let default_count = devices.iter().filter(|d| d.is_default).count();
    assert!(default_count <= 1);
    assert_eq!(default_count, 1);
    assert!(devices[1].is_default);
}

#[test]
fn test_input_device_by_invalid_index() {
    let manager = AudioDeviceManager::new(named(&["Built-in Microphone"]), None);
    // A very large index gives nothing
    let result = manager.input_device_by_index(99999);
    assert!(result.is_none());
}

#[test]
fn e2e_device_enumeration() {
    let mgr = AudioDeviceManager::new(
        named(&["Built-in Microphone", "USB Mic"]),
        Some(Some("Built-in Microphone".to_string())),
    );
    let devices = mgr.list_input_devices();
    for dev in &devices {
        println!("  device[{}]: {} (default={})", dev.index, dev.name, dev.is_default);
    }
    assert_eq!(devices.len(), 2);
}

#[test]
fn devices_without_a_name_are_left_out_but_counted() {
    let manager = AudioDeviceManager::new(
        vec![Some("A".to_string()), None, Some("B".to_string())],
        Some(Some("B".to_string())),
    );
    let devices = manager.list_input_devices();
    assert_eq!(devices.len(), 2);
    assert_eq!((devices[0].name.as_str(), devices[0].index, devices[0].is_default), ("A", 0, false));
    assert_eq!((devices[1].name.as_str(), devices[1].index, devices[1].is_default), ("B", 2, true));
}

#[test]
fn a_default_device_without_a_name_marks_nothing() {
    let manager = AudioDeviceManager::new(named(&["A", "B"]), Some(None));
    assert!(manager.list_input_devices().iter().all(|d| !d.is_default));
    assert_eq!(manager.default_input_device(), Some(DeviceRef::Default));
}

#[test]
fn devices_are_found_by_index_and_by_name() {
    let manager = AudioDeviceManager::new(named(&["A", "B", "B"]), None);
    assert_eq!(manager.default_input_device(), None);
    assert_eq!(manager.input_device_by_index(2), Some(DeviceRef::Index(2)));
    assert_eq!(manager.input_device_by_index(3), None);
    assert_eq!(manager.input_device_by_name("B"), Some(DeviceRef::Index(1)));
    assert_eq!(manager.input_device_by_name("A"), Some(DeviceRef::Index(0)));
    assert_eq!(manager.input_device_by_name("C"), None);
}

#[test]
fn the_default_input_format_is_taken_or_fails_a_step() {
    let format = |channels, sample_format| StreamFormat { channels, sample_rate: 48000, sample_format };
    match AudioDeviceManager::default_input_config(Ok(format(2, SampleFormat::Float32))) {
        Ok(f) => {
            assert_eq!((f.channels, f.sample_rate), (2, 48000));
            assert!(matches!(f.sample_format, SampleFormat::Float32));
        }
        Err(_) => panic!("the format is one that is read"),
    }
    assert!(AudioDeviceManager::default_input_config(Ok(format(1, SampleFormat::Int16))).is_ok());
    assert!(AudioDeviceManager::default_input_config(Ok(format(1, SampleFormat::UInt16))).is_ok());

    let failure = |reported| match AudioDeviceManager::default_input_config(reported) {
        Err(f) => (f.step, error_for(f).to_string()),
        Ok(_) => panic!("expected a failure"),
    };
    assert_eq!(
        failure(Err("device no longer available".to_string())),
        (StartStep::QueryFormat, "config error: device no longer available".to_string())
    );
    assert_eq!(
        failure(Ok(format(0, SampleFormat::Float32))),
        (StartStep::QueryFormat, "config error: device reports no channels".to_string())
    );
    assert_eq!(
        failure(Ok(format(2, SampleFormat::Other("I8".to_string())))),
        (StartStep::SampleFormat, "unsupported sample format: I8".to_string())
    );
}
