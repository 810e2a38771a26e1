use rvault::cmd::{confirm_new_password, help_text, parse_command, Command};
use rvault::error::VaultError;

fn args(words: &[&str]) -> Vec<String> {
    let mut v = vec!["vault".to_string()];
    v.extend(words.iter().map(|w| w.to_string()));
    v
}

#[test]
fn parses_each_command() {
    assert!(matches!(parse_command(&args(&["init"])), Ok(Command::Init)));
    assert!(matches!(parse_command(&args(&["list"])), Ok(Command::List)));
    assert!(matches!(parse_command(&args(&["change-password"])), Ok(Command::ChangePassword)));
    match parse_command(&args(&["add", "db"])) {
        Ok(Command::Add { key }) => assert_eq!(key, "db"),
        other => panic!("unexpected {:?}", other),
    }
    match parse_command(&args(&["get", "db"])) {
        Ok(Command::Get { key }) => assert_eq!(key, "db"),
        other => panic!("unexpected {:?}", other),
    }
    match parse_command(&args(&["remove", "db"])) {
        Ok(Command::Remove { key }) => assert_eq!(key, "db"),
        other => panic!("unexpected {:?}", other),
    }
}

#[test]
fn missing_or_unknown_command_gives_help() {
    assert_eq!(parse_command(&args(&[])).unwrap_err(), help_text());
    assert_eq!(parse_command(&args(&["help"])).unwrap_err(), help_text());
    assert_eq!(parse_command(&args(&["add"])).unwrap_err(), help_text());
    assert_eq!(parse_command(&args(&["get", "a", "b"])).unwrap_err(), help_text());
    assert_eq!(parse_command(&args(&["initx"])).unwrap_err(), help_text());
}

#[test]
fn help_text_lists_commands() {
    let h = help_text();
    assert!(h.starts_with("Usage:\n  vault init\n"));
    assert!(h.ends_with("  vault change-password"));
    assert_eq!(h.lines().count(), 7);
}

#[test]
fn matching_passwords_are_confirmed() {
    assert_eq!(confirm_new_password("correct-horse", "correct-horse"), Ok(false));
    assert_eq!(confirm_new_password("short", "short"), Ok(true));
    assert_eq!(confirm_new_password("123456789", "123456789"), Ok(true));
    assert_eq!(confirm_new_password("1234567890", "1234567890"), Ok(false));
}

#[test]
fn differing_passwords_are_refused() {
    assert_eq!(confirm_new_password("abc", "abd"), Err(VaultError::PasswordMismatch));
    assert_eq!(confirm_new_password("abc", "abcd"), Err(VaultError::PasswordMismatch));
}
