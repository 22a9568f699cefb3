use engine::command::parse_command;
use engine::command::Command;

#[test]
fn exit_tokens_quit() {
    assert_eq!(parse_command("exit\n"), Command::Quit);
    assert_eq!(parse_command("quit\n"), Command::Quit);
    assert_eq!(parse_command("q\n"), Command::Quit);
}

#[test]
fn windows_line_endings_are_trimmed() {
    assert_eq!(parse_command("exit\r\n"), Command::Quit);
    assert_eq!(parse_command("q\r\n"), Command::Quit);
    assert_eq!(parse_command("\r\n"), Command::Ignore);
}

#[test]
fn tokens_without_terminator_still_quit() {
    assert_eq!(parse_command("exit"), Command::Quit);
    assert_eq!(parse_command("q"), Command::Quit);
}

#[test]
fn empty_line_is_ignored() {
    assert_eq!(parse_command("\n"), Command::Ignore);
    assert_eq!(parse_command(""), Command::Ignore);
}

#[test]
fn other_input_is_echoed() {
    assert_eq!(parse_command("hello\n"), Command::Echo);
    assert_eq!(parse_command("exit now\n"), Command::Echo);
    assert_eq!(parse_command("quitx\n"), Command::Echo);
    assert_eq!(parse_command("Q\n"), Command::Echo);
    assert_eq!(parse_command(" exit\n"), Command::Echo);
}

#[test]
fn only_the_trailing_terminator_is_trimmed() {
    // An interior newline keeps the line from matching a token.
    assert_eq!(parse_command("exit\n\n"), Command::Echo);
    // A lone carriage return is not a line terminator.
    assert_eq!(parse_command("exit\r"), Command::Echo);
}
