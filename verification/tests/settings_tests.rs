use resonance::room_core::Error;

#[test]
fn lib_default_settings() {
    let settings = resonance::config::Settings::default();
    assert_eq!(settings.username, "Anonymous");

    let settings = resonance::settings_manager::Settings::default();
    assert_eq!(settings.username, "Anonymous");
    assert_eq!(settings.audio_input_device, "");
    assert_eq!(settings.audio_output_device, "");
    assert!(!settings.ice_servers.is_empty());
}

#[test]
fn file_not_found_uses_defaults() {
    let config = resonance::settings_manager::ConfigManager::with_file(
        "nonexistent.toml".to_string(),
        None,
    )
    .unwrap();
    assert_eq!(config.settings().username, "Anonymous");
}

#[test]
fn default_ice_servers_are_the_ten_google_servers() {
    let settings = resonance::settings_manager::Settings::default();
    assert_eq!(settings.ice_servers.len(), 10);
    assert_eq!(settings.ice_servers[0], "stun:stun.l.google.com:19302");
    assert_eq!(settings.ice_servers[9], "stun:stun4.l.google.com:5349");
}

#[test]
fn loaded_settings_are_kept_and_load_errors_returned() {
    let mut loaded = resonance::settings_manager::Settings::default();
    loaded.username = "TestUser".to_string();
    loaded.audio_input_device = "TestMic".to_string();
    let config = resonance::settings_manager::ConfigManager::with_file(
        "test_config.toml".to_string(),
        Some(Ok(loaded)),
    )
    .unwrap();
    assert_eq!(config.settings().username, "TestUser");
    assert_eq!(config.settings().audio_input_device, "TestMic");
    assert_eq!(config.config_file(), "test_config.toml");

    let failed = resonance::settings_manager::ConfigManager::with_file(
        "broken.toml".to_string(),
        Some(Err(Error::Config("Failed to parse config file: bad".to_string()))),
    );
    assert!(matches!(failed, Err(Error::Config(_))));
}

#[test]
fn settings_can_be_changed_in_place_and_replaced() {
    let mut config = resonance::settings_manager::ConfigManager::with_file(
        "test_config.toml".to_string(),
        None,
    )
    .unwrap();
    config.settings_mut().username = "TestUser".to_string();
    assert_eq!(config.settings().username, "TestUser");

    let mut replacement = resonance::settings_manager::Settings::default();
    replacement.audio_output_device = "Speakers".to_string();
    config.update_settings(replacement);
    assert_eq!(config.settings().username, "Anonymous");
    assert_eq!(config.settings().audio_output_device, "Speakers");
}

#[test]
fn basic_config_manager_uses_defaults() {
    let manager = resonance::config::ConfigManager::new().unwrap();
    assert_eq!(manager.settings().username, "Anonymous");
}
