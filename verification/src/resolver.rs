//! Turning a stored value into a request for an external action.
//!
//! Nothing here starts a process: a request says what is to be run, and running
//! it is the caller's business.

use vstd::prelude::*;
use crate::error::ErrorKind;
use crate::store::EntryStore;
use crate::table::first_match;

verus! {

/// How a stored value is put to use.
#[derive(Clone, Copy, Debug, PartialEq, Eq, Structural)]
pub enum ActionKind {
    /// Hand the value to the desktop's default-handler launcher.
    Open,
    /// Run the value as a shell command line.
    Run,
    /// Open the value, a file path, in the configured editor.
    Edit,
}

/// What an executor is asked to run: a shell command line.
#[derive(Debug, PartialEq, Eq)]
pub struct SideEffectRequest {
    pub kind: ActionKind,
    pub command: String,
}

/// A [`SideEffectRequest`] as plain text.
pub struct RequestView {
    pub kind: ActionKind,
    pub command: Seq<char>,
}

impl View for SideEffectRequest {
    type V = RequestView;

    open spec fn view(&self) -> RequestView {
        RequestView { kind: self.kind, command: self.command@ }
    }
}

/// The command line that opens `value` with the default handler.
pub open spec fn open_command(value: Seq<char>) -> Seq<char> {
    "xdg-open "@ + value
}

/// The command line that opens `value` in `editor`.
pub open spec fn edit_command(editor: Seq<char>, value: Seq<char>) -> Seq<char> {
    editor + " "@ + value
}

/// The text of an optional string.
pub open spec fn text_of(s: Option<&str>) -> Option<Seq<char>> {
    match s {
        Some(s) => Some(s@),
        None => None,
    }
}

/// The request that `kind` makes of the entry with `key`.
///
/// A missing key is reported before a missing editor: without an entry there
/// is nothing to edit, whatever the configuration.
pub open spec fn resolution(
    rows: Seq<crate::entry::EntryView>,
    kind: ActionKind,
    key: Seq<char>,
    editor: Option<Seq<char>>,
) -> Result<RequestView, ErrorKind> {
    match first_match(rows, key) {
        None => Err(ErrorKind::NotFound),
        Some(entry) => match kind {
            ActionKind::Open => Ok(RequestView { kind: kind, command: open_command(entry.value) }),
            ActionKind::Run => Ok(RequestView { kind: kind, command: entry.value }),
            ActionKind::Edit => match editor {
                None => Err(ErrorKind::Config),
                Some(editor) => Ok(
                    RequestView { kind: kind, command: edit_command(editor, entry.value) },
                ),
            },
        },
    }
}

/// Whether `outcome` is `expected`, as plain text.
pub open spec fn resolves_to(
    outcome: Result<SideEffectRequest, ErrorKind>,
    expected: Result<RequestView, ErrorKind>,
) -> bool {
    match outcome {
        Ok(request) => expected == Ok::<RequestView, ErrorKind>(request@),
        Err(error) => expected == Err::<RequestView, ErrorKind>(error),
    }
}

/// The request to open the value stored under `key` with the desktop's
/// default handler, or `NotFound`.
pub fn resolve_open(store: &EntryStore, key: &str) -> (outcome: Result<
    SideEffectRequest,
    ErrorKind,
>)
    ensures
        resolves_to(outcome, resolution(store@, ActionKind::Open, key@, None)),
{
    match store.get(key) {
        Some(entry) => {
            let command = "xdg-open ".to_owned().concat(entry.value.as_str());
            Ok(SideEffectRequest { kind: ActionKind::Open, command })
        },
        None => Err(ErrorKind::NotFound),
    }
}

/// The request to run the value stored under `key` as a shell command line,
/// taken as it stands, or `NotFound`.
pub fn resolve_run(store: &EntryStore, key: &str) -> (outcome: Result<
    SideEffectRequest,
    ErrorKind,
>)
    ensures
        resolves_to(outcome, resolution(store@, ActionKind::Run, key@, None)),
{
    match store.get(key) {
        Some(entry) => Ok(SideEffectRequest { kind: ActionKind::Run, command: entry.value }),
        None => Err(ErrorKind::NotFound),
    }
}

/// The request to open the value stored under `key` in `editor`. `NotFound`
/// without an entry; `Config` where there is an entry and no editor.
pub fn resolve_edit(store: &EntryStore, key: &str, editor: Option<&str>) -> (outcome: Result<
    SideEffectRequest,
    ErrorKind,
>)
    ensures
        resolves_to(outcome, resolution(store@, ActionKind::Edit, key@, text_of(editor))),
{
    match store.get(key) {
        Some(entry) => match editor {
            Some(editor) => {
                let mut command = editor.to_owned();
                command.append(" ");
                command.append(entry.value.as_str());
                Ok(SideEffectRequest { kind: ActionKind::Edit, command })
            },
            None => Err(ErrorKind::Config),
        },
        None => Err(ErrorKind::NotFound),
    }
}

} // verus!
