//! The ways a command can end without doing what was asked.

use vstd::prelude::*;

verus! {

/// Why a command did not do what was asked.
#[derive(Clone, Copy, Debug, PartialEq, Eq, Structural)]
pub enum ErrorKind {
    /// No entry has the key. A normal negative answer, not a failure.
    NotFound,
    /// The editor program is not configured.
    Config,
    /// The first word of the command line is not a verb, or a verb came with
    /// the wrong number of arguments.
    InvalidCommand,
}

/// The message that names an error to the user.
pub open spec fn error_message(error: ErrorKind) -> Seq<char> {
    match error {
        ErrorKind::NotFound => "Entry not found"@,
        ErrorKind::Config => "Missing ACT_EDITOR environment variable."@,
        ErrorKind::InvalidCommand => "error: invalid command"@,
    }
}

impl ErrorKind {
    /// The message that names the error to the user.
    pub fn message(self) -> (text: &'static str)
        ensures
            text@ == error_message(self),
    {
        match self {
            ErrorKind::NotFound => "Entry not found",
            ErrorKind::Config => "Missing ACT_EDITOR environment variable.",
            ErrorKind::InvalidCommand => "error: invalid command",
        }
    }

    /// Whether the invocation as a whole has failed and must end with a
    /// nonzero exit status. A missing key does not fail the invocation.
    pub fn is_failure(self) -> (failed: bool)
        ensures
            failed == (self != ErrorKind::NotFound),
    {
        match self {
            ErrorKind::NotFound => false,
            ErrorKind::Config => true,
            ErrorKind::InvalidCommand => true,
        }
    }

    /// Whether the usage summary is shown after the error message.
    pub fn shows_help(self) -> (shown: bool)
        ensures
            shown == (self == ErrorKind::InvalidCommand),
    {
        match self {
            ErrorKind::InvalidCommand => true,
            _ => false,
        }
    }
}

} // verus!
