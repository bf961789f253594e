//! Parsing and replies of the launcher console.
use tem_launcher::console::{console_reply, parse_console_command, ConsoleCommand};

#[test]
fn echo_keeps_arguments_verbatim() {
    let cmd = parse_console_command(&b"echo hello  world".to_vec());
    assert_eq!(cmd, ConsoleCommand::Echo(b"hello  world".to_vec()));
    assert_eq!(console_reply(&cmd), Some(b"hello  world".to_vec()));
}

#[test]
fn echo_without_arguments_replies_empty() {
    let cmd = parse_console_command(&b"echo".to_vec());
    assert_eq!(cmd, ConsoleCommand::Echo(Vec::new()));
    assert_eq!(console_reply(&cmd), Some(Vec::new()));
}

#[test]
fn command_word_matches_case_insensitively() {
    assert_eq!(parse_console_command(&b"ECHO x".to_vec()), ConsoleCommand::Echo(b"x".to_vec()));
    assert_eq!(parse_console_command(&b"Help".to_vec()), ConsoleCommand::Help);
    assert_eq!(parse_console_command(&b"UA".to_vec()), ConsoleCommand::UserAgent);
}

#[test]
fn user_agent_has_two_spellings() {
    assert_eq!(parse_console_command(&b"ua".to_vec()), ConsoleCommand::UserAgent);
    assert_eq!(parse_console_command(&b"user-agent".to_vec()), ConsoleCommand::UserAgent);
}

#[test]
fn folder_commands_parse_and_defer_to_the_caller() {
    let game = parse_console_command(&b"game".to_vec());
    let config = parse_console_command(&b"config".to_vec());
    assert_eq!(game, ConsoleCommand::OpenGameFolder);
    assert_eq!(config, ConsoleCommand::OpenConfigFolder);
    assert_eq!(console_reply(&game), None);
    assert_eq!(console_reply(&config), None);
}

#[test]
fn surrounding_whitespace_is_trimmed() {
    assert_eq!(parse_console_command(&b"  help  ".to_vec()), ConsoleCommand::Help);
}

#[test]
fn help_reply_lists_the_commands() {
    assert_eq!(
        console_reply(&ConsoleCommand::Help),
        Some(b"Commands: user-agent, game, config".to_vec())
    );
}

#[test]
fn unknown_command_keeps_its_original_case() {
    let cmd = parse_console_command(&b"FooBar baz".to_vec());
    assert_eq!(cmd, ConsoleCommand::Unknown(b"FooBar".to_vec()));
    assert_eq!(console_reply(&cmd), Some(b"Unknown command: FooBar".to_vec()));
}
