//! Carrying out a command on the store.

use vstd::prelude::*;
use crate::command::{command_of, parse_command, Command, CommandView};
use crate::entry::{Entry, EntryView};
use crate::error::ErrorKind;
use crate::resolver::{
    resolution, resolve_edit, resolve_open, resolve_run, text_of, ActionKind, RequestView,
    SideEffectRequest,
};
use crate::statement::{Statement, StatementView};
use crate::store::EntryStore;
use crate::table::{
    effect, first_match, found_after, has_key, lemma_first_match_has_key, lemma_found_after,
    set_statement,
};

verus! {

/// What a command that succeeded has to show for itself.
#[derive(Debug, PartialEq, Eq)]
pub enum Reply {
    /// The usage summary is to be shown.
    Help,
    /// The version is to be shown.
    Version,
    /// All entries, in scan order.
    Listing(Vec<Entry>),
    /// The entry that was asked for.
    Found(Entry),
    /// The store was changed; the statement makes the change durable.
    Written(Statement),
    /// An external action is to be carried out.
    Action(SideEffectRequest),
}

/// A [`Reply`] as plain text.
pub enum ReplyView {
    Help,
    Version,
    Listing(Seq<EntryView>),
    Found(EntryView),
    Written(StatementView),
    Action(RequestView),
}

impl View for Reply {
    type V = ReplyView;

    open spec fn view(&self) -> ReplyView {
        match self {
            Reply::Help => ReplyView::Help,
            Reply::Version => ReplyView::Version,
            Reply::Listing(entries) => ReplyView::Listing(entries.deep_view()),
            Reply::Found(entry) => ReplyView::Found(entry@),
            Reply::Written(statement) => ReplyView::Written(statement@),
            Reply::Action(request) => ReplyView::Action(request@),
        }
    }
}

/// The outcome of a command as plain text.
pub open spec fn outcome_view(outcome: Result<Reply, ErrorKind>) -> Result<ReplyView, ErrorKind> {
    match outcome {
        Ok(reply) => Ok(reply@),
        Err(error) => Err(error),
    }
}

/// The outcome of an action on the entry with `key`.
pub open spec fn action_outcome(
    rows: Seq<EntryView>,
    kind: ActionKind,
    key: Seq<char>,
    editor: Option<Seq<char>>,
) -> Result<ReplyView, ErrorKind> {
    match resolution(rows, kind, key, editor) {
        Ok(request) => Ok(ReplyView::Action(request)),
        Err(error) => Err(error),
    }
}

/// The outcome of `command` on a table with the given rows, with `editor` the
/// configured editor program, if any.
pub open spec fn outcome_of(
    rows: Seq<EntryView>,
    command: CommandView,
    editor: Option<Seq<char>>,
) -> Result<ReplyView, ErrorKind> {
    match command {
        CommandView::Help => Ok(ReplyView::Help),
        CommandView::Version => Ok(ReplyView::Version),
        CommandView::List => Ok(ReplyView::Listing(rows)),
        CommandView::Get { key } => match first_match(rows, key) {
            Some(entry) => Ok(ReplyView::Found(entry)),
            None => Err(ErrorKind::NotFound),
        },
        CommandView::Save { key, value } => Ok(ReplyView::Written(set_statement(rows, key, value))),
        CommandView::Note { key, note } => if has_key(rows, key) {
            Ok(ReplyView::Written(StatementView::UpdateNote { key: key, note: note }))
        } else {
            Err(ErrorKind::NotFound)
        },
        CommandView::Delete { key } => if has_key(rows, key) {
            Ok(ReplyView::Written(StatementView::Delete { key: key }))
        } else {
            Err(ErrorKind::NotFound)
        },
        CommandView::Open { key } => action_outcome(rows, ActionKind::Open, key, None),
        CommandView::Run { key } => action_outcome(rows, ActionKind::Run, key, None),
        CommandView::Edit { key } => action_outcome(rows, ActionKind::Edit, key, editor),
    }
}

/// The rows after a command with the given outcome: changed by the statement
/// of a `Written` reply, and otherwise as they were.
pub open spec fn rows_after(rows: Seq<EntryView>, outcome: Result<ReplyView, ErrorKind>) -> Seq<
    EntryView,
> {
    match outcome {
        Ok(ReplyView::Written(statement)) => effect(rows, statement),
        _ => rows,
    }
}

/// What is found under `sought` after a command with the given outcome.
pub open spec fn found_after_outcome(
    rows: Seq<EntryView>,
    outcome: Result<ReplyView, ErrorKind>,
    sought: Seq<char>,
) -> Option<EntryView> {
    match outcome {
        Ok(ReplyView::Written(statement)) => found_after(rows, statement, sought),
        _ => first_match(rows, sought),
    }
}

/// After a command, every key holds what [`found_after_outcome`] says.
pub proof fn lemma_found_after_outcome(
    rows: Seq<EntryView>,
    outcome: Result<ReplyView, ErrorKind>,
    sought: Seq<char>,
)
    ensures
        first_match(rows_after(rows, outcome), sought) == found_after_outcome(
            rows,
            outcome,
            sought,
        ),
        has_key(rows_after(rows, outcome), sought) == found_after_outcome(
            rows,
            outcome,
            sought,
        ) is Some,
{
    match outcome {
        Ok(ReplyView::Written(statement)) => {
            lemma_found_after(rows, statement, sought);
        },
        _ => {
            lemma_first_match_has_key(rows, sought);
        },
    }
}

/// Carries out `command` on `store`. `editor` is the configured editor
/// program, which only `edit` needs.
///
/// Only `set`, `note` and `delete` change the store, and `note` and `delete`
/// only where the key is present.
pub fn execute(
    store: &mut EntryStore,
    command: &Command,
    editor: Option<&str>,
) -> (outcome: Result<Reply, ErrorKind>)
    ensures
        outcome_view(outcome) == outcome_of(old(store)@, command@, text_of(editor)),
        final(store)@ == rows_after(old(store)@, outcome_view(outcome)),
        final(store).is_initialized() == (old(store).is_initialized() || command@ is Save),
        forall|sought: Seq<char>| #[trigger]
            first_match(final(store)@, sought) == found_after_outcome(
                old(store)@,
                outcome_view(outcome),
                sought,
            ),
        forall|sought: Seq<char>| #[trigger]
            has_key(final(store)@, sought) == found_after_outcome(
                old(store)@,
                outcome_view(outcome),
                sought,
            ) is Some,
{
    proof {
        assert forall|sought: Seq<char>, outcome: Result<ReplyView, ErrorKind>|
            first_match(rows_after(store@, outcome), sought) == found_after_outcome(
                store@,
                outcome,
                sought,
            ) && has_key(rows_after(store@, outcome), sought) == found_after_outcome(
                store@,
                outcome,
                sought,
            ) is Some by {
            lemma_found_after_outcome(store@, outcome, sought);
        }
    }
    match command {
        Command::Help => Ok(Reply::Help),
        Command::Version => Ok(Reply::Version),
        Command::List => Ok(Reply::Listing(store.list())),
        Command::Get { key } => match store.get(key.as_str()) {
            Some(entry) => Ok(Reply::Found(entry)),
            None => Err(ErrorKind::NotFound),
        },
        Command::Save { key, value } => Ok(Reply::Written(store.set(key.as_str(), value.as_str()))),
        Command::Note { key, note } => match store.set_note(key.as_str(), note.as_str()) {
            Ok(statement) => Ok(Reply::Written(statement)),
            Err(error) => Err(error),
        },
        Command::Delete { key } => match store.delete(key.as_str()) {
            Ok(statement) => Ok(Reply::Written(statement)),
            Err(error) => Err(error),
        },
        Command::Open { key } => match resolve_open(store, key.as_str()) {
            Ok(request) => Ok(Reply::Action(request)),
            Err(error) => Err(error),
        },
        Command::Run { key } => match resolve_run(store, key.as_str()) {
            Ok(request) => Ok(Reply::Action(request)),
            Err(error) => Err(error),
        },
        Command::Edit { key } => match resolve_edit(store, key.as_str(), editor) {
            Ok(request) => Ok(Reply::Action(request)),
            Err(error) => Err(error),
        },
    }
}

/// The outcome of a whole command line on a table with the given rows.
pub open spec fn dispatch_outcome(
    rows: Seq<EntryView>,
    tokens: Seq<Seq<char>>,
    editor: Option<Seq<char>>,
) -> Result<ReplyView, ErrorKind> {
    match command_of(tokens) {
        Ok(command) => outcome_of(rows, command, editor),
        Err(error) => Err(error),
    }
}

/// Reads the command line `tokens` and carries out its command on `store`.
/// A command line that cannot be read leaves the store as it is.
pub fn dispatch(
    store: &mut EntryStore,
    tokens: &[String],
    editor: Option<&str>,
) -> (outcome: Result<Reply, ErrorKind>)
    ensures
        outcome_view(outcome) == dispatch_outcome(
            old(store)@,
            tokens.deep_view(),
            text_of(editor),
        ),
        final(store)@ == rows_after(old(store)@, outcome_view(outcome)),
        final(store).is_initialized() == (old(store).is_initialized() || command_of(
            tokens.deep_view(),
        ) matches Ok(CommandView::Save { .. })),
        forall|sought: Seq<char>| #[trigger]
            first_match(final(store)@, sought) == found_after_outcome(
                old(store)@,
                outcome_view(outcome),
                sought,
            ),
        forall|sought: Seq<char>| #[trigger]
            has_key(final(store)@, sought) == found_after_outcome(
                old(store)@,
                outcome_view(outcome),
                sought,
            ) is Some,
{
    match parse_command(tokens) {
        Ok(command) => execute(store, &command, editor),
        Err(error) => {
            proof {
                assert forall|sought: Seq<char>| #[trigger]
                    has_key(store@, sought) == first_match(store@, sought) is Some by {
                    lemma_first_match_has_key(store@, sought);
                }
            }
            Err(error)
        },
    }
}

} // verus!
