use task_tracker::cli::{parse_args, Command, ParseError};
use task_tracker::decimal::{i64_string, parse_i64, u64_string};

fn args(parts: &[&str]) -> Vec<String> {
    parts.iter().map(|p| p.to_string()).collect()
}

#[test]
fn parse_add() {
    match parse_args(&args(&["add", "write the report"])) {
        Ok(Command::Add { task }) => assert_eq!(task, "write the report"),
        other => panic!("unexpected: {:?}", other.err()),
    }
}

#[test]
fn parse_add_missing_task() {
    assert_eq!(parse_args(&args(&["add"])).err(), Some(ParseError::MissingTask));
}

#[test]
fn parse_add_empty_task() {
    assert_eq!(parse_args(&args(&["add", ""])).err(), Some(ParseError::EmptyTask));
}

#[test]
fn parse_add_extra_argument() {
    assert_eq!(
        parse_args(&args(&["add", "a", "b"])).err(),
        Some(ParseError::UnexpectedArgument)
    );
}

#[test]
fn parse_complete() {
    match parse_args(&args(&["complete", "7"])) {
        Ok(Command::Complete { task_id }) => assert_eq!(task_id, 7),
        other => panic!("unexpected: {:?}", other.err()),
    }
}

#[test]
fn parse_complete_negative_id() {
    match parse_args(&args(&["complete", "-3"])) {
        Ok(Command::Complete { task_id }) => assert_eq!(task_id, -3),
        other => panic!("unexpected: {:?}", other.err()),
    }
}

#[test]
fn parse_complete_missing_id() {
    assert_eq!(parse_args(&args(&["complete"])).err(), Some(ParseError::MissingTaskId));
}

#[test]
fn parse_complete_invalid_id() {
    assert_eq!(
        parse_args(&args(&["complete", "seven"])).err(),
        Some(ParseError::InvalidTaskId)
    );
}

#[test]
fn parse_list_default_is_open_only() {
    match parse_args(&args(&["list"])) {
        Ok(Command::List { all }) => assert!(!all),
        other => panic!("unexpected: {:?}", other.err()),
    }
}

#[test]
fn parse_list_all_flags() {
    for flag in ["-a", "--all"] {
        match parse_args(&args(&["list", flag])) {
            Ok(Command::List { all }) => assert!(all),
            other => panic!("unexpected: {:?}", other.err()),
        }
    }
}

#[test]
fn parse_list_bad_flag() {
    assert_eq!(
        parse_args(&args(&["list", "--bogus"])).err(),
        Some(ParseError::UnexpectedArgument)
    );
}

#[test]
fn parse_no_command() {
    assert_eq!(parse_args(&args(&[])).err(), Some(ParseError::MissingCommand));
}

#[test]
fn parse_unknown_command() {
    assert_eq!(parse_args(&args(&["frobnicate"])).err(), Some(ParseError::UnknownCommand));
}

#[test]
fn render_decimal() {
    assert_eq!(u64_string(0), "0");
    assert_eq!(u64_string(907), "907");
    assert_eq!(i64_string(0), "0");
    assert_eq!(i64_string(42), "42");
    assert_eq!(i64_string(-7), "-7");
    assert_eq!(i64_string(i64::MAX), "9223372036854775807");
    assert_eq!(i64_string(i64::MIN), "-9223372036854775808");
}

#[test]
fn parse_decimal() {
    assert_eq!(parse_i64("0"), Some(0));
    assert_eq!(parse_i64("007"), Some(7));
    assert_eq!(parse_i64("+42"), Some(42));
    assert_eq!(parse_i64("-9223372036854775808"), Some(i64::MIN));
    assert_eq!(parse_i64("9223372036854775807"), Some(i64::MAX));
    assert_eq!(parse_i64("9223372036854775808"), None);
    assert_eq!(parse_i64("-9223372036854775809"), None);
    assert_eq!(parse_i64("99999999999999999999999999"), None);
    assert_eq!(parse_i64(""), None);
    assert_eq!(parse_i64("-"), None);
    assert_eq!(parse_i64("+"), None);
    assert_eq!(parse_i64("12a"), None);
    assert_eq!(parse_i64(" 12"), None);
}

#[test]
fn parse_error_messages_differ() {
    let texts: Vec<String> = [
        ParseError::MissingCommand,
        ParseError::UnknownCommand,
        ParseError::MissingTask,
        ParseError::EmptyTask,
        ParseError::MissingTaskId,
        ParseError::InvalidTaskId,
        ParseError::UnexpectedArgument,
    ]
    .iter()
    .map(|e| e.text())
    .collect();
    for i in 0..texts.len() {
        assert!(!texts[i].is_empty());
        for j in 0..i {
            assert_ne!(texts[i], texts[j]);
        }
    }
}
