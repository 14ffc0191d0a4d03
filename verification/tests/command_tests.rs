use resonance::commands::{
    created_message, help_message, joined_message, participants_message, quit_message,
    volume_message, Command, CommandAction, CommandProcessor,
};

#[test]
fn test_command_parsing() {
    let processor = CommandProcessor::new();

    let cmd = processor.parse("/join abc123").unwrap();
    assert_eq!(cmd.name, "join");
    assert_eq!(cmd.args, vec!["abc123"]);

    let cmd = processor.parse("/volume 80").unwrap();
    assert_eq!(cmd.name, "volume");
    assert_eq!(cmd.args, vec!["80"]);

    let result = processor.parse("not a command");
    assert!(result.is_err());
}

#[test]
fn test_command_execution() {
    let processor = CommandProcessor::new();

    match processor.plan("/join abc123") {
        Ok(CommandAction::Join(link)) => assert_eq!(link, "abc123"),
        _ => panic!("Expected a join"),
    }
    assert_eq!(joined_message(), "Joined session successfully");

    assert!(matches!(processor.plan("/create"), Ok(CommandAction::Create)));
    let reply = created_message("https://link.example");
    assert!(reply.contains("https://link.example"));

    assert!(matches!(processor.plan("/volume 80"), Ok(CommandAction::Volume(80))));
    assert_eq!(volume_message(80), "Volume set to 80");
}

#[test]
fn parse_trims_and_splits_on_whitespace() {
    let p = CommandProcessor::new();
    let c = p.parse("   /position  1 \t 2   3  ").unwrap();
    assert_eq!(c.name, "position");
    assert_eq!(c.args, vec!["1", "2", "3"]);
    assert_eq!(c.to_display_string(), "/position 1 2 3");
    assert_eq!(p.parse("x").unwrap_err(), "Not a command (must start with /)");
    assert_eq!(p.parse("  /   ").unwrap_err(), "Empty command");
}

#[test]
fn plan_errors() {
    let p = CommandProcessor::new();
    assert_eq!(p.plan("/join").unwrap_err(), "Missing session link");
    assert_eq!(p.plan("/volume").unwrap_err(), "Missing volume level");
    assert_eq!(p.plan("/volume 256").unwrap_err(), "Volume must be a number between 0-100");
    assert_eq!(p.plan("/volume abc").unwrap_err(), "Volume must be a number between 0-100");
    assert_eq!(p.plan("/volume 101").unwrap_err(), "Volume must be a number between 0-100");
    assert_eq!(p.plan("/volume 150").unwrap_err(), "Volume must be a number between 0-100");
    assert_eq!(p.plan("/volume 255").unwrap_err(), "Volume must be a number between 0-100");
    assert!(matches!(p.plan("/volume 100"), Ok(CommandAction::Volume(100))));
    assert!(matches!(p.plan("/volume 0"), Ok(CommandAction::Volume(0))));
    assert_eq!(
        p.plan("/position 1 2").unwrap_err(),
        "Missing position coordinates (need x y z)"
    );
    assert_eq!(p.plan("/dance now").unwrap_err(), "Unknown command: /dance");
    assert!(matches!(p.plan("/who"), Ok(CommandAction::Who)));
    assert!(matches!(p.plan("/help"), Ok(CommandAction::Help)));
    assert!(matches!(p.plan("/quit"), Ok(CommandAction::Quit)));
    match p.plan("/position 1 2.5 -3") {
        Ok(CommandAction::Position(x, y, z)) => {
            assert_eq!((x.as_str(), y.as_str(), z.as_str()), ("1", "2.5", "-3"));
        }
        _ => panic!("Expected a position"),
    }
}

#[test]
fn reports() {
    assert_eq!(quit_message(), "Quitting application...");
    assert_eq!(participants_message(&vec![]), "No participants in the session");
    assert_eq!(
        participants_message(&vec!["a".to_string(), "b".to_string()]),
        "Participants in this session:\n  - a\n  - b"
    );
    assert_eq!(
        help_message(&vec!["/x".to_string()]),
        "Available commands:\n  /x"
    );
}

#[test]
fn seven_commands_known() {
    let p = CommandProcessor::new();
    let cmds = p.get_commands();
    assert_eq!(cmds.len(), 7);
    let names: Vec<&str> = cmds.iter().map(|(n, _)| n.as_str()).collect();
    for n in ["join", "create", "volume", "position", "who", "help", "quit"] {
        assert!(names.contains(&n));
    }
}

#[test]
fn parsing_the_displayed_text_gives_the_command_back() {
    let p = CommandProcessor::new();
    let cmd = Command { name: "position".to_string(), args: vec!["1".to_string(), "-2".to_string(), "3.5".to_string()] };
    let text = cmd.to_display_string();
    assert_eq!(text, "/position 1 -2 3.5");
    let back = p.parse(&text).unwrap();
    assert_eq!(back.name, cmd.name);
    assert_eq!(back.args, cmd.args);
    let bare = Command { name: "who".to_string(), args: vec![] };
    let back = p.parse(&bare.to_display_string()).unwrap();
    assert_eq!(back.name, "who");
    assert!(back.args.is_empty());
}

#[test]
fn a_name_is_listed_exactly_when_it_is_not_unknown() {
    let p = CommandProcessor::new();
    let cmds = p.get_commands();
    for name in ["join", "create", "volume", "position", "who", "help", "quit", "dance", "joinx", "Help"] {
        let listed = cmds.iter().any(|(n, _)| n == name);
        let unknown = match p.plan(&format!("/{}", name)) {
            Err(e) => e == format!("Unknown command: /{}", name),
            Ok(_) => false,
        };
        assert_eq!(listed, !unknown, "{}", name);
    }
}
