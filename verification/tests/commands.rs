use translate_bot::commands::{
    decide_command, decide_command_given, device_arguments_given, parse_command,
    parse_verify_device_arguments, Command, CommandAction, Report,
};

#[test]
fn verify_device_command_arguments_are_strict() {
    let (user, device) = parse_verify_device_arguments("@alice:example.org DEVICE").unwrap();
    assert_eq!(user.as_str(), "@alice:example.org");
    assert_eq!(device.as_str(), "DEVICE");
    assert!(parse_verify_device_arguments("@alice:example.org").is_err());
    assert!(parse_verify_device_arguments("not-a-user DEVICE").is_err());
    assert!(parse_verify_device_arguments("@alice:example.org DEVICE extra").is_err());
}

#[test]
fn verify_device_errors_are_told_apart() {
    let number = "expected exactly a Matrix user ID and device ID";
    let user = "invalid Matrix user ID";
    assert_eq!(parse_verify_device_arguments("").unwrap_err(), number);
    assert_eq!(parse_verify_device_arguments("a b c").unwrap_err(), number);
    assert_eq!(parse_verify_device_arguments("a b").unwrap_err(), user);
    assert_eq!(
        parse_verify_device_arguments("  @a:b.org \t D  "),
        Ok(("@a:b.org".to_owned(), "D".to_owned()))
    );
    assert_eq!(device_arguments_given("a b", true), Ok(("a".to_owned(), "b".to_owned())));
    assert_eq!(device_arguments_given("a b", false), Err(user));
}

#[test]
fn commands_are_recognized() {
    assert!(matches!(
        parse_command("!verify-device @a:b D"),
        Some(Command::VerifyDevice { arguments }) if arguments == "@a:b D"
    ));
    assert!(matches!(
        parse_command("!reset-trust @a:b"),
        Some(Command::ResetTrust { target }) if target == "@a:b"
    ));
    assert!(matches!(
        parse_command("!translate"),
        Some(Command::Translate { subcommand, argument })
            if subcommand.is_empty() && argument.is_empty()
    ));
    assert!(matches!(
        parse_command("!translate  debug \t $e:x  y"),
        Some(Command::Translate { subcommand, argument })
            if subcommand == "debug" && argument == "$e:x  y"
    ));
    assert!(parse_command("!verify-device").is_none());
    assert!(parse_command("!reset-trust").is_none());
    assert!(parse_command("!translated text").is_none());
    assert!(parse_command("hello !translate").is_none());
}

fn decided(raw: &str, is_admin: bool) -> CommandAction {
    decide_command(parse_command(raw).unwrap(), is_admin)
}

#[test]
fn commands_are_for_administrators() {
    for raw in ["!verify-device @a:b.org D", "!reset-trust @a:b.org", "!translate status"] {
        assert!(matches!(decided(raw, false), CommandAction::Ignore));
        assert!(!matches!(decided(raw, true), CommandAction::Ignore));
    }
}

#[test]
fn trust_commands_need_a_user_id() {
    assert!(matches!(
        decided("!verify-device @a:b.org D", true),
        CommandAction::VerifyDevice { user, device } if user == "@a:b.org" && device == "D"
    ));
    assert!(matches!(
        decided("!verify-device nobody D", true),
        CommandAction::Reject { problem } if problem == "invalid Matrix user ID"
    ));
    assert!(matches!(
        decided("!reset-trust   @a:b.org", true),
        CommandAction::GrantUser { user } if user == "@a:b.org"
    ));
    assert!(matches!(
        decided("!reset-trust nobody", true),
        CommandAction::Reject { problem } if problem == "invalid user ID"
    ));
    assert!(matches!(
        decide_command_given(parse_command("!reset-trust nobody").unwrap(), true, true),
        CommandAction::GrantUser { user } if user == "nobody"
    ));
}

#[test]
fn translate_subcommands() {
    assert!(matches!(decided("!translate status", true), CommandAction::Reply(Report::Status)));
    assert!(matches!(decided("!translate stats", true), CommandAction::Reply(Report::Stats)));
    assert!(matches!(decided("!translate version", true), CommandAction::Reply(Report::Version)));
    assert!(matches!(
        decided("!translate debug $e:x", true),
        CommandAction::Reply(Report::Debug { event_id }) if event_id == "$e:x"
    ));
    assert!(matches!(
        decided("!translate retry", true),
        CommandAction::Reply(Report::Retry { event_id }) if event_id.is_empty()
    ));
    assert!(matches!(decided("!translate", true), CommandAction::Reply(Report::Usage)));
    assert!(matches!(decided("!translate Status", true), CommandAction::Reply(Report::Usage)));
}
