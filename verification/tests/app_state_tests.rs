use resonance::app_config::{AudioQuality, Config};
use resonance::app_state::{create_failure, join_failure, leave_failure, manager_missing, App};
use resonance::session::SessionError;

#[test]
fn test_app_creation() {
    let app = App::new();
    assert!(app.is_initialized());
}

#[test]
fn test_app_config() {
    let mut app = App::new();
    assert_eq!(app.config().audio_quality, AudioQuality::Medium);

    let mut custom_config = Config::default();
    custom_config.audio_quality = AudioQuality::High;
    custom_config.username = "TestUser".to_string();

    app.update_config(custom_config.clone());
    assert_eq!(app.config().audio_quality, AudioQuality::High);
    assert_eq!(app.config().username, "TestUser");
}

#[test]
fn test_app_shutdown() {
    let mut app = App::new();
    assert!(app.initialize());
    assert!(!app.initialize());
    app.shutdown();
    assert!(!app.is_initialized());
}

#[test]
fn test_config_load_save() {
    let mut custom_config = Config::default();
    custom_config.audio_quality = AudioQuality::High;
    custom_config.username = "TestUser".to_string();

    let app = App::with_config(custom_config);
    let saved = app.config_file_text();

    let mut new_app = App::new();
    assert!(new_app.load_config_text(&saved).is_ok());

    assert_eq!(new_app.config().audio_quality, AudioQuality::High);
    assert_eq!(new_app.config().username, "TestUser");
}

#[test]
fn bad_config_text_changes_nothing() {
    let mut app = App::new();
    let e = app.load_config_text("colour=blue").unwrap_err();
    assert!(e.starts_with("Failed to parse config: Configuration error: "));
    assert_eq!(app.config(), &Config::default());
}

#[test]
fn session_failure_messages() {
    assert_eq!(manager_missing(), "Session manager not initialized");
    assert_eq!(leave_failure(&SessionError::NoActiveSession), "No active session");
    assert_eq!(
        leave_failure(&SessionError::NetworkError("x".to_string())),
        "Failed to leave session: Network error: x"
    );
    assert_eq!(
        create_failure(&SessionError::CreationError("y".to_string())),
        "Failed to create P2P session: Failed to create session: y"
    );
    assert_eq!(
        join_failure(&SessionError::JoinError("z".to_string())),
        "Failed to join P2P session: Failed to join session: z"
    );
}
