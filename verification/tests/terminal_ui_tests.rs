use resonance::app_config::Config;
use resonance::audio::{devices_or_defaults, AudioDevice, AudioDeviceManager};
use resonance::menu::MenuAction;
use resonance::participant_list::{Participant, ParticipantListWidget};
use resonance::terminal_ui::{
    choose_device, default_device, device_set_message, device_step, settings_step,
    update_device_config, DeviceStep, SettingsStep, TerminalUI, UiKey,
};

fn device(id: &str, name: &str, is_input: bool) -> AudioDevice {
    AudioDevice { id: id.to_string(), name: name.to_string(), is_input }
}

#[test]
fn test_participant_list_widget() {
    let mut widget = ParticipantListWidget::new();
    let participants = vec![Participant::new("User1"), Participant::new("User2")];

    widget.set_participants(participants.clone());
    let displayed = widget.get_participants();

    assert_eq!(participants.len(), displayed.len());
    assert_eq!(participants[0].name, displayed[0].name);
}

#[test]
fn test_participant_selection() {
    let mut widget = ParticipantListWidget::new();
    let participants = vec![
        Participant::new("User1"),
        Participant::new("User2"),
        Participant::new("User3"),
    ];

    widget.set_participants(participants.clone());

    assert!(widget.selected().is_none());

    widget.select_next();
    assert_eq!(widget.selected().unwrap().name, "User1");

    widget.select_next();
    assert_eq!(widget.selected().unwrap().name, "User2");

    widget.select_previous();
    assert_eq!(widget.selected().unwrap().name, "User1");
}

#[test]
fn selection_wraps() {
    let mut widget = ParticipantListWidget::new();
    widget.set_participants(vec![Participant::new("a"), Participant::new("b")]);
    widget.select_previous();
    widget.select_previous();
    assert_eq!(widget.selected().unwrap().name, "b");
    widget.select_next();
    assert_eq!(widget.selected().unwrap().name, "a");
    assert_eq!(Participant::new("x").id.len(), 36);
}

#[test]
fn menu_navigation_and_shortcuts() {
    let mut ui = TerminalUI::new();
    ui.update_menu_items(false);
    assert_eq!(ui.menu_items().len(), 4);
    assert_eq!(ui.selected(), Some(0));
    ui.handle_key_event(UiKey::Up);
    assert_eq!(ui.selected(), Some(0));
    for _ in 0..10 {
        ui.handle_key_event(UiKey::Down);
    }
    assert_eq!(ui.selected(), Some(3));
    assert_eq!(ui.handle_key_event(UiKey::Enter), Some(MenuAction::Quit));
    assert_eq!(ui.handle_key_event(UiKey::Char('j')), Some(MenuAction::Join));
    assert_eq!(ui.handle_key_event(UiKey::Char('z')), None);
    ui.update_menu_items(true);
    assert_eq!(ui.menu_items()[2].label, "Leave Session");
    assert_eq!(ui.menu_title(), "Menu");
}

#[test]
fn submenus_and_return() {
    let mut ui = TerminalUI::new();
    ui.update_menu_items(true);
    ui.show_settings_menu();
    assert_eq!(ui.menu_level(), 1);
    assert_eq!(ui.menu_items()[0].label, "  Input (microphone)");
    let devices = vec![device("m1", "Mic", true), device("m2", "Headset", true)];
    let current = device("m2", "Headset", true);
    ui.show_device_menu(true, &devices, Some(&current));
    assert_eq!(ui.menu_title(), "Menu > Settings > Input Devices");
    let labels: Vec<String> = ui.menu_items().iter().map(|m| m.label.clone()).collect();
    assert_eq!(
        labels,
        vec!["    System Default", "    Mic ", "    Headset (current)", "    Back"]
    );
    assert_eq!(ui.menu_items()[2].action, MenuAction::DeviceSelect(1));
    ui.return_to_previous_menu();
    assert_eq!(ui.menu_level(), 1);
    assert_eq!(ui.menu_title(), "Menu > Settings");
    assert_eq!(ui.menu_items().len(), 4);
    ui.return_to_previous_menu();
    assert_eq!(ui.menu_level(), 0);
    assert_eq!(ui.menu_title(), "Menu");
    assert_eq!(ui.menu_items().len(), 5);
    ui.return_to_previous_menu();
    assert_eq!(ui.menu_level(), 0);
}

#[test]
fn text_input_editing() {
    let mut ui = TerminalUI::new();
    ui.update_menu_items(false);
    ui.show_text_input_popup("Link:");
    assert!(ui.is_text_input_active());
    for c in "abd".chars() {
        assert_eq!(ui.handle_key_event(UiKey::Char(c)), None);
    }
    ui.handle_key_event(UiKey::Left);
    ui.handle_key_event(UiKey::Char('c'));
    assert_eq!(ui.get_input_text().unwrap(), "abcd");
    ui.handle_key_event(UiKey::Right);
    ui.handle_key_event(UiKey::Right);
    ui.handle_key_event(UiKey::Backspace);
    assert_eq!(ui.get_input_text().unwrap(), "abc");
    ui.handle_key_event(UiKey::Left);
    ui.handle_key_event(UiKey::Left);
    ui.handle_key_event(UiKey::Delete);
    assert_eq!(ui.get_input_text().unwrap(), "ac");
    // the arrows still move the menu; other keys do nothing while the popup is open
    ui.handle_key_event(UiKey::Down);
    assert_eq!(ui.selected(), Some(1));
    assert_eq!(ui.handle_key_event(UiKey::Other), None);
    ui.handle_key_event(UiKey::Enter);
    assert!(!ui.is_text_input_active());
    assert_eq!(ui.get_input_text().unwrap(), "ac");
    ui.handle_key_event(UiKey::Esc);
    assert_eq!(ui.get_input_text().unwrap(), "");
    ui.close_text_input();
    assert!(ui.get_input_text().is_none());
}

#[test]
fn notifications_and_links() {
    let mut ui = TerminalUI::new();
    let (exit, copy) = ui.handle_menu_action(MenuAction::CopyLink, 100);
    assert!(!exit);
    assert!(copy.is_none());
    assert_eq!(ui.notification_message().unwrap(), "No active link to copy");
    ui.update_notification(2099);
    assert!(ui.notification_message().is_some());
    ui.update_notification(2100);
    assert!(ui.notification_message().is_none());
    ui.set_connection_link(Some("room:1".to_string()));
    let (_, copy) = ui.handle_menu_action(MenuAction::CopyLink, 0);
    assert_eq!(copy.unwrap(), "room:1");
    assert!(!ui.note_copy(false, 0));
    assert_eq!(ui.notification_message().unwrap(), "Failed to copy link!");
    assert!(ui.note_copy(true, 0));
    assert_eq!(ui.notification_message().unwrap(), "Link copied to clipboard!");
    let (_, copy) = ui.handle_menu_action(MenuAction::Quit, 0);
    assert!(copy.is_none());
}

#[test]
fn settings_decisions() {
    assert_eq!(settings_step(Some(MenuAction::SettingsInputDevice), UiKey::Enter), SettingsStep::InputDevices);
    assert_eq!(settings_step(Some(MenuAction::SettingsOutputDevice), UiKey::Enter), SettingsStep::OutputDevices);
    assert_eq!(settings_step(Some(MenuAction::SettingsTestSession), UiKey::Enter), SettingsStep::TestSession);
    assert_eq!(settings_step(Some(MenuAction::Quit), UiKey::Char('q')), SettingsStep::Back);
    assert_eq!(settings_step(Some(MenuAction::Join), UiKey::Char('j')), SettingsStep::Stay);
    assert_eq!(settings_step(None, UiKey::Esc), SettingsStep::Back);
    assert_eq!(settings_step(None, UiKey::Up), SettingsStep::Stay);
    assert_eq!(device_step(Some(MenuAction::DeviceSelect(2)), UiKey::Enter), DeviceStep::Select(2));
    assert_eq!(device_step(Some(MenuAction::DeviceDefault), UiKey::Enter), DeviceStep::Default);
    assert_eq!(device_step(Some(MenuAction::DeviceBack), UiKey::Enter), DeviceStep::Back);
    assert_eq!(device_step(None, UiKey::Esc), DeviceStep::Back);
}

#[test]
fn device_choices_and_messages() {
    let devices = vec![device("a", "Mic A", true)];
    assert_eq!(choose_device(0, &devices).unwrap().name, "Mic A");
    assert_eq!(choose_device(1, &devices).unwrap_err(), "Invalid device selection");
    assert_eq!(default_device(&vec![]).unwrap_err(), "No default device available");
    assert_eq!(default_device(&devices).unwrap().id, "a");
    assert_eq!(device_set_message(true, "Mic A", &Ok(())), "Set input device to: Mic A");
    assert_eq!(
        device_set_message(false, "Spk", &Err("busy".to_string())),
        "Error setting output device: busy"
    );
    let mut config = Config::default();
    update_device_config(&mut config, &devices[0], true);
    assert_eq!(config.input_device.as_deref(), Some("a"));
    assert!(config.output_device.is_none());
}

#[test]
fn device_manager_selection() {
    let mut m = AudioDeviceManager::new();
    let mic = device("m", "Mic", true);
    let spk = device("s", "Speaker", false);
    assert!(m.select_input_device(&mic).is_ok());
    assert_eq!(m.current_input_device().unwrap().id, "m");
    let e = m.select_input_device(&spk).unwrap_err();
    assert_eq!(e.to_display_string(), "Audio Error: Attempted to select an output device as input");
    assert!(m.select_output_device(&spk).is_ok());
    assert!(m.select_output_device(&mic).is_err());
    assert_eq!(m.current_output_device().unwrap().name, "Speaker");
    assert_eq!(mic.to_display_string(), "Mic (Input)");
    assert_eq!(spk.to_display_string(), "Speaker (Output)");
}

#[test]
fn test_audio_devices_enumeration() {
    let devices = devices_or_defaults(vec![]);
    assert!(!devices.is_empty());
    assert_eq!(devices[0].name, "Default Microphone");
    assert_eq!(devices[1].id, "output1");
    let found = devices_or_defaults(vec![device("x", "X", false)]);
    assert_eq!(found.len(), 1);
}

#[test]
fn test_audio_device_selection() {
    let mut manager = AudioDeviceManager::new();
    let devices = devices_or_defaults(vec![]);
    if !devices.is_empty() {
        let input_device = devices.iter().find(|d| d.is_input).unwrap();
        let result = manager.select_input_device(input_device);
        assert!(result.is_ok());
    }
}

#[test]
fn typing_then_backspace_restores_popup() {
    let mut ui = TerminalUI::new();
    ui.show_text_input_popup("x");
    ui.handle_key_event(UiKey::Char('a'));
    ui.handle_key_event(UiKey::Char('b'));
    ui.handle_key_event(UiKey::Left);
    ui.handle_key_event(UiKey::Char('z'));
    ui.handle_key_event(UiKey::Backspace);
    assert_eq!(ui.get_input_text().unwrap(), "ab");
}

#[test]
fn settings_and_back_restores_main_menu() {
    let mut ui = TerminalUI::new();
    ui.update_menu_items(false);
    ui.handle_key_event(UiKey::Down);
    ui.show_settings_menu();
    ui.return_to_previous_menu();
    let labels: Vec<String> = ui.menu_items().iter().map(|m| m.label.clone()).collect();
    assert_eq!(labels, vec!["Create Session", "Join Session", "Settings", "Quit"]);
    assert_eq!(ui.selected(), Some(0));
    assert_eq!(ui.menu_level(), 0);
    assert_eq!(ui.menu_title(), "Menu");
}

#[test]
fn next_then_previous_returns() {
    let mut widget = ParticipantListWidget::new();
    widget.set_participants(vec![Participant::new("a"), Participant::new("b"), Participant::new("c")]);
    widget.select_previous();
    let first = widget.selected().unwrap().name;
    widget.select_next();
    widget.select_previous();
    assert_eq!(widget.selected().unwrap().name, first);
}
