//! The command line: verbs, their aliases, and how the words after the verb
//! become a key and a value.

use vstd::prelude::*;
use crate::error::ErrorKind;
use crate::statement::{Query, QueryView};
use crate::text::{after_first_word, first_word, join_words, joined, split_first_word};

verus! {

/// The operations that a command line can ask for.
#[derive(Clone, Copy, Debug, PartialEq, Eq, Structural)]
pub enum Verb {
    Help,
    Version,
    List,
    Delete,
    Note,
    Save,
    Get,
    Open,
    Run,
    Edit,
}

/// The verb that `word` names, with all its aliases.
pub open spec fn verb_of(word: Seq<char>) -> Option<Verb> {
    if word == "help"@ || word == "h"@ {
        Some(Verb::Help)
    } else if word == "version"@ || word == "ver"@ || word == "v"@ {
        Some(Verb::Version)
    } else if word == "ls"@ {
        Some(Verb::List)
    } else if word == "delete"@ || word == "del"@ || word == "d"@ || word == "unset"@
        || word == "rm"@ || word == "remove"@ || word == "rem"@ {
        Some(Verb::Delete)
    } else if word == "note"@ {
        Some(Verb::Note)
    } else if word == "set"@ || word == "save"@ || word == "sv"@ || word == "s"@ {
        Some(Verb::Save)
    } else if word == "get"@ || word == "show"@ || word == "g"@ {
        Some(Verb::Get)
    } else if word == "open"@ || word == "url"@ {
        Some(Verb::Open)
    } else if word == "run"@ {
        Some(Verb::Run)
    } else if word == "edit"@ {
        Some(Verb::Edit)
    } else {
        None
    }
}

/// Whether `word` is exactly `name`.
fn same_text(word: &str, name: &str) -> (same: bool)
    ensures
        same == (word@ == name@),
{
    *word == *name
}

/// The verb that `word` names, or `None` for a word that is no verb.
pub fn parse_verb(word: &str) -> (verb: Option<Verb>)
    ensures
        verb == verb_of(word@),
{
    if same_text(word, "help") || same_text(word, "h") {
        Some(Verb::Help)
    } else if same_text(word, "version") || same_text(word, "ver") || same_text(word, "v") {
        Some(Verb::Version)
    } else if same_text(word, "ls") {
        Some(Verb::List)
    } else if same_text(word, "delete") || same_text(word, "del") || same_text(word, "d")
        || same_text(word, "unset") || same_text(word, "rm") || same_text(word, "remove")
        || same_text(word, "rem") {
        Some(Verb::Delete)
    } else if same_text(word, "note") {
        Some(Verb::Note)
    } else if same_text(word, "set") || same_text(word, "save") || same_text(word, "sv")
        || same_text(word, "s") {
        Some(Verb::Save)
    } else if same_text(word, "get") || same_text(word, "show") || same_text(word, "g") {
        Some(Verb::Get)
    } else if same_text(word, "open") || same_text(word, "url") {
        Some(Verb::Open)
    } else if same_text(word, "run") {
        Some(Verb::Run)
    } else if same_text(word, "edit") {
        Some(Verb::Edit)
    } else {
        None
    }
}

/// One operation with its arguments.
#[derive(Debug, PartialEq, Eq)]
pub enum Command {
    Help,
    Version,
    List,
    Delete { key: String },
    Note { key: String, note: String },
    Save { key: String, value: String },
    Get { key: String },
    Open { key: String },
    Run { key: String },
    Edit { key: String },
}

/// A [`Command`] as plain text.
pub enum CommandView {
    Help,
    Version,
    List,
    Delete { key: Seq<char> },
    Note { key: Seq<char>, note: Seq<char> },
    Save { key: Seq<char>, value: Seq<char> },
    Get { key: Seq<char> },
    Open { key: Seq<char> },
    Run { key: Seq<char> },
    Edit { key: Seq<char> },
}

impl View for Command {
    type V = CommandView;

    open spec fn view(&self) -> CommandView {
        match self {
            Command::Help => CommandView::Help,
            Command::Version => CommandView::Version,
            Command::List => CommandView::List,
            Command::Delete { key } => CommandView::Delete { key: key@ },
            Command::Note { key, note } => CommandView::Note { key: key@, note: note@ },
            Command::Save { key, value } => CommandView::Save { key: key@, value: value@ },
            Command::Get { key } => CommandView::Get { key: key@ },
            Command::Open { key } => CommandView::Open { key: key@ },
            Command::Run { key } => CommandView::Run { key: key@ },
            Command::Edit { key } => CommandView::Edit { key: key@ },
        }
    }
}

/// The command that `verb` makes with nothing after it.
pub open spec fn bare_command(verb: Verb) -> Result<CommandView, ErrorKind> {
    match verb {
        Verb::Help => Ok(CommandView::Help),
        Verb::Version => Ok(CommandView::Version),
        Verb::List => Ok(CommandView::List),
        _ => Err(ErrorKind::InvalidCommand),
    }
}

/// The command that `verb` makes with `rest`, the words after it joined by
/// single spaces. `note` and `set` take the first word of `rest` as the key and
/// what follows it as the note or value; the other verbs take all of `rest` as
/// the key.
pub open spec fn command_with(verb: Verb, rest: Seq<char>) -> Result<CommandView, ErrorKind> {
    match verb {
        Verb::Help | Verb::Version | Verb::List => Err(ErrorKind::InvalidCommand),
        Verb::Delete => Ok(CommandView::Delete { key: rest }),
        Verb::Note => Ok(
            CommandView::Note { key: first_word(rest), note: after_first_word(rest) },
        ),
        Verb::Save => Ok(
            CommandView::Save { key: first_word(rest), value: after_first_word(rest) },
        ),
        Verb::Get => Ok(CommandView::Get { key: rest }),
        Verb::Open => Ok(CommandView::Open { key: rest }),
        Verb::Run => Ok(CommandView::Run { key: rest }),
        Verb::Edit => Ok(CommandView::Edit { key: rest }),
    }
}

/// The command that the words of a command line make. The first word is the
/// verb. No words at all ask for help.
pub open spec fn command_of(tokens: Seq<Seq<char>>) -> Result<CommandView, ErrorKind> {
    if tokens.len() == 0 {
        Ok(CommandView::Help)
    } else {
        match verb_of(tokens[0]) {
            None => Err(ErrorKind::InvalidCommand),
            Some(verb) => if tokens.len() == 1 {
                bare_command(verb)
            } else {
                command_with(verb, joined(tokens.skip(1)))
            },
        }
    }
}

/// Whether `outcome` is `expected`, as plain text.
pub open spec fn parses_to(
    outcome: Result<Command, ErrorKind>,
    expected: Result<CommandView, ErrorKind>,
) -> bool {
    match outcome {
        Ok(command) => expected == Ok::<CommandView, ErrorKind>(command@),
        Err(error) => expected == Err::<CommandView, ErrorKind>(error),
    }
}

/// Reads a command line: the words after the program's name.
///
/// `InvalidCommand` comes back for a first word that is no verb, for `help`,
/// `version` or `ls` followed by anything, and for any other verb with nothing
/// after it. After `set` and `note` a key alone is enough: the value or note is
/// then empty.
pub fn parse_command(tokens: &[String]) -> (outcome: Result<Command, ErrorKind>)
    ensures
        parses_to(outcome, command_of(tokens.deep_view())),
{
    let n = tokens.len();
    if n == 0 {
        return Ok(Command::Help);
    }
    assert(tokens.deep_view()[0] == tokens[0]@);
    let verb = match parse_verb(tokens[0].as_str()) {
        Some(verb) => verb,
        None => {
            return Err(ErrorKind::InvalidCommand);
        },
    };
    if n == 1 {
        return match verb {
            Verb::Help => Ok(Command::Help),
            Verb::Version => Ok(Command::Version),
            Verb::List => Ok(Command::List),
            _ => Err(ErrorKind::InvalidCommand),
        };
    }
    let words = &tokens[1..n];
    assert(words.deep_view() =~= tokens.deep_view().skip(1));
    let rest = join_words(words);
    match verb {
        Verb::Help | Verb::Version | Verb::List => Err(ErrorKind::InvalidCommand),
        Verb::Delete => Ok(Command::Delete { key: rest }),
        Verb::Note => {
            let (key, note) = split_first_word(rest.as_str());
            Ok(Command::Note { key: key.to_owned(), note: note.to_owned() })
        },
        Verb::Save => {
            let (key, value) = split_first_word(rest.as_str());
            Ok(Command::Save { key: key.to_owned(), value: value.to_owned() })
        },
        Verb::Get => Ok(Command::Get { key: rest }),
        Verb::Open => Ok(Command::Open { key: rest }),
        Verb::Run => Ok(Command::Run { key: rest }),
        Verb::Edit => Ok(Command::Edit { key: rest }),
    }
}

/// The rows that a command reads.
pub open spec fn query_of(command: CommandView) -> Option<QueryView> {
    match command {
        CommandView::Help | CommandView::Version => None,
        CommandView::List => Some(QueryView::All),
        CommandView::Delete { key } => Some(QueryView::ByKey { key: key }),
        CommandView::Note { key, .. } => Some(QueryView::ByKey { key: key }),
        CommandView::Save { key, .. } => Some(QueryView::ByKey { key: key }),
        CommandView::Get { key } => Some(QueryView::ByKey { key: key }),
        CommandView::Open { key } => Some(QueryView::ByKey { key: key }),
        CommandView::Run { key } => Some(QueryView::ByKey { key: key }),
        CommandView::Edit { key } => Some(QueryView::ByKey { key: key }),
    }
}

impl Command {
    /// The verb of the command.
    pub fn verb(&self) -> (verb: Verb)
        ensures
            verb == match self@ {
                CommandView::Help => Verb::Help,
                CommandView::Version => Verb::Version,
                CommandView::List => Verb::List,
                CommandView::Delete { .. } => Verb::Delete,
                CommandView::Note { .. } => Verb::Note,
                CommandView::Save { .. } => Verb::Save,
                CommandView::Get { .. } => Verb::Get,
                CommandView::Open { .. } => Verb::Open,
                CommandView::Run { .. } => Verb::Run,
                CommandView::Edit { .. } => Verb::Edit,
            },
    {
        match self {
            Command::Help => Verb::Help,
            Command::Version => Verb::Version,
            Command::List => Verb::List,
            Command::Delete { .. } => Verb::Delete,
            Command::Note { .. } => Verb::Note,
            Command::Save { .. } => Verb::Save,
            Command::Get { .. } => Verb::Get,
            Command::Open { .. } => Verb::Open,
            Command::Run { .. } => Verb::Run,
            Command::Edit { .. } => Verb::Edit,
        }
    }

    /// The query for the rows that the command reads: all rows for a listing,
    /// the rows with the command's key for the commands that have one, none
    /// for help and version.
    pub fn query(&self) -> (query: Option<Query>)
        ensures
            match query {
                Some(q) => query_of(self@) == Some(q@),
                None => query_of(self@) is None,
            },
    {
        match self {
            Command::Help => None,
            Command::Version => None,
            Command::List => Some(Query::All),
            Command::Delete { key } => Some(Query::ByKey { key: key.clone() }),
            Command::Note { key, .. } => Some(Query::ByKey { key: key.clone() }),
            Command::Save { key, .. } => Some(Query::ByKey { key: key.clone() }),
            Command::Get { key } => Some(Query::ByKey { key: key.clone() }),
            Command::Open { key } => Some(Query::ByKey { key: key.clone() }),
            Command::Run { key } => Some(Query::ByKey { key: key.clone() }),
            Command::Edit { key } => Some(Query::ByKey { key: key.clone() }),
        }
    }
}

} // verus!
