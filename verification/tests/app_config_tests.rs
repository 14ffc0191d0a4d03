use resonance::app_config::{AudioQuality, Config};

#[test]
fn test_default_config() {
    let config = Config::default();
    assert_eq!(config.audio_quality, AudioQuality::Medium);
}

#[test]
fn test_config_serialization() {
    let config = Config::default();
    let serialized = config.to_string();
    let deserialized = Config::from_str(&serialized).unwrap();
    assert_eq!(config, deserialized);
}

#[test]
fn test_custom_config() {
    let mut config = Config::default();
    config.audio_quality = AudioQuality::High;
    config.username = "TestUser".to_string();
    config.input_device = Some("Microphone".to_string());

    let serialized = config.to_string();
    let deserialized = Config::from_str(&serialized).unwrap();
    assert_eq!(config, deserialized);
}
