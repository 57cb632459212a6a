use lyre::config::{
    config_path_from, get_input_device, get_output_dir, has_config, requested_output_dir,
    save_config, save_input_device, save_output_dir, AppConfig,
};

/// What loading gives: the stored settings, or nothing set where nothing is stored.
fn load(store: &Option<AppConfig>) -> Result<AppConfig, String> {
    Ok(store.clone().unwrap_or_default())
}

#[test]
fn test_config_roundtrip() {
    let mut store: Option<AppConfig> = None;

    // Initially empty
    let config = load(&store).unwrap();
    assert!(config.server_url.is_empty());
    assert!(config.token.is_empty());
    assert!(config.output_dir.is_none());
    assert!(config.input_device.is_none());
    assert!(!has_config(load(&store)));

    // Save server config
    store = Some(save_config(load(&store), "https://lyre.example.com", "lyre_abc123"));
    let config = load(&store).unwrap();
    assert_eq!(config.server_url, "https://lyre.example.com");
    assert_eq!(config.token, "lyre_abc123");
    assert!(config.output_dir.is_none());
    assert!(has_config(load(&store)));

    // Set custom output dir: the server config stays
    store = Some(save_output_dir(load(&store), Some("/tmp/my-recordings")));
    let config = load(&store).unwrap();
    assert_eq!(config.server_url, "https://lyre.example.com");
    assert_eq!(config.output_dir, Some("/tmp/my-recordings".to_string()));
    let dir = get_output_dir(load(&store));
    assert_eq!(dir, "/tmp/my-recordings");

    // Overwrite server config: the output dir stays
    store = Some(save_config(load(&store), "https://lyre.dev.hexly.ai", "lyre_xyz"));
    let config = load(&store).unwrap();
    assert_eq!(config.server_url, "https://lyre.dev.hexly.ai");
    assert_eq!(config.token, "lyre_xyz");
    assert_eq!(config.output_dir, Some("/tmp/my-recordings".to_string()));

    // Reset output dir to default
    store = Some(save_output_dir(load(&store), None));
    let dir = get_output_dir(load(&store));
    assert!(dir.contains("Lyre Recordings"));

    // --- Input device ---
    // Initially no input device
    assert!(get_input_device(load(&store)).is_none());

    // Save a device name
    store = Some(save_input_device(load(&store), Some("USB Mic")));
    assert_eq!(get_input_device(load(&store)), Some("USB Mic".to_string()));

    // The server config does not touch the input device
    store = Some(save_config(load(&store), "https://lyre.example.com", "tok"));
    assert_eq!(get_input_device(load(&store)), Some("USB Mic".to_string()));

    // Reset to auto
    store = Some(save_input_device(load(&store), None));
    assert!(get_input_device(load(&store)).is_none());

    // An empty name counts as none
    store = Some(save_input_device(load(&store), Some("")));
    assert!(get_input_device(load(&store)).is_none());

    // Clear
    store = None;
    let config = load(&store).unwrap();
    assert!(config.server_url.is_empty());
    assert!(!has_config(load(&store)));
}

#[test]
fn e2e_config_roundtrip() {
    let mut store: Option<AppConfig> = None;

    // Initially no config
    assert!(!has_config(load(&store)), "should not have config initially");

    // Save server credentials
    store = Some(save_config(load(&store), "https://lyre.example.com", "tok_test123"));
    assert!(has_config(load(&store)), "should have config after save");

    let config = load(&store).unwrap();
    assert_eq!(config.server_url, "https://lyre.example.com");
    assert_eq!(config.token, "tok_test123");
    assert!(config.output_dir.is_none());

    // Save output dir: the server config stays
    store = Some(save_output_dir(load(&store), Some("/custom/recordings")));
    let config = load(&store).unwrap();
    assert_eq!(config.server_url, "https://lyre.example.com");
    assert_eq!(config.token, "tok_test123");
    assert_eq!(config.output_dir, Some("/custom/recordings".to_string()));

    // get_output_dir gives the custom path
    let dir = get_output_dir(load(&store));
    assert_eq!(dir, "/custom/recordings");

    // Overwrite server config: the output dir stays
    store = Some(save_config(load(&store), "https://new-server.dev", "tok_new"));
    let config = load(&store).unwrap();
    assert_eq!(config.server_url, "https://new-server.dev");
    assert_eq!(config.output_dir, Some("/custom/recordings".to_string()));

    // Reset output dir
    store = Some(save_output_dir(load(&store), None));
    let dir = get_output_dir(load(&store));
    assert!(dir.contains("Lyre Recordings"), "should fall back to default dir after reset");

    // Clear config entirely
    store = None;
    assert!(!has_config(load(&store)));
}

#[test]
fn settings_that_cannot_be_loaded_count_as_unset() {
    let broken = || Err::<AppConfig, String>("failed to parse config: EOF".to_string());
    assert!(!has_config(broken()));
    assert!(get_input_device(broken()).is_none());
    assert!(get_output_dir(broken()).contains("Lyre Recordings"));
    let saved = save_config(broken(), "https://lyre.dev", "tok");
    assert_eq!(saved.server_url, "https://lyre.dev");
    assert_eq!(saved.token, "tok");
    assert!(saved.output_dir.is_none() && saved.input_device.is_none());
    let saved = save_output_dir(broken(), Some("/rec"));
    assert!(saved.server_url.is_empty() && saved.token.is_empty());
    assert_eq!(saved.output_dir, Some("/rec".to_string()));
    let saved = save_input_device(broken(), Some("Mic"));
    assert_eq!(saved.input_device, Some("Mic".to_string()));
}

#[test]
fn has_config_needs_server_and_token() {
    let with = |server_url: &str, token: &str| {
        Ok(AppConfig {
            server_url: server_url.to_string(),
            token: token.to_string(),
            output_dir: None,
            input_device: None,
        })
    };
    assert!(has_config(with("https://lyre.dev", "tok")));
    assert!(!has_config(with("", "tok")));
    assert!(!has_config(with("https://lyre.dev", "")));
}

#[test]
fn an_empty_output_dir_counts_as_none() {
    let config = AppConfig {
        server_url: String::new(),
        token: String::new(),
        output_dir: Some(String::new()),
        input_device: None,
    };
    assert!(get_output_dir(Ok(config)).ends_with("Lyre Recordings"));
}

#[test]
fn the_settings_file_lies_below_the_data_directory() {
    assert_eq!(
        config_path_from(Some("/Users/a/Library/Application Support".to_string())),
        Ok("/Users/a/Library/Application Support/com.lyre.app/config.json".to_string())
    );
    assert_eq!(
        config_path_from(None),
        Err("could not determine app data directory".to_string())
    );
}

#[test]
fn a_blank_path_asks_for_the_default_directory() {
    assert_eq!(requested_output_dir(""), None);
    assert_eq!(requested_output_dir("  \t"), None);
    assert_eq!(requested_output_dir(" /rec "), Some(" /rec ".to_string()));
}
