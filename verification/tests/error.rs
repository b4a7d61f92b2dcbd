use actstore::error::ErrorKind;

#[test]
fn not_found_is_no_failure() {
    assert!(!ErrorKind::NotFound.is_failure());
}

#[test]
fn config_and_invalid_command_are_failures() {
    assert!(ErrorKind::Config.is_failure());
    assert!(ErrorKind::InvalidCommand.is_failure());
}

#[test]
fn only_invalid_command_shows_help() {
    assert!(ErrorKind::InvalidCommand.shows_help());
    assert!(!ErrorKind::Config.shows_help());
    assert!(!ErrorKind::NotFound.shows_help());
}

#[test]
fn error_messages() {
    assert_eq!(ErrorKind::NotFound.message(), "Entry not found");
    assert_eq!(ErrorKind::Config.message(), "Missing ACT_EDITOR environment variable.");
    assert_eq!(ErrorKind::InvalidCommand.message(), "error: invalid command");
}
