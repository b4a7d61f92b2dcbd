//! What a command shows to the user.
//!
//! A line is a sequence of spans, each with the role that its text plays, so
//! that a front end can give keys, values and notes a look of their own. The
//! text of a line is the text of its spans, one after the other.

use vstd::prelude::*;
use crate::command::{Command, CommandView};
use crate::dispatch::{outcome_view, Reply, ReplyView};
use crate::entry::{entry_line, Entry, EntryView};
use crate::error::{error_message, ErrorKind};
use crate::statement::{Statement, StatementView};

verus! {

/// The part that a piece of text plays in a line.
#[derive(Clone, Copy, Debug, PartialEq, Eq, Structural)]
pub enum Role {
    /// Punctuation and messages.
    Plain,
    /// The key of an entry.
    Key,
    /// The value of an entry.
    Value,
    /// The note of an entry.
    Note,
}

/// A piece of a line.
#[derive(Debug, PartialEq, Eq)]
pub struct Span {
    pub role: Role,
    pub text: String,
}

/// A [`Span`] as plain text.
pub struct SpanView {
    pub role: Role,
    pub text: Seq<char>,
}

impl View for Span {
    type V = SpanView;

    open spec fn view(&self) -> SpanView {
        SpanView { role: self.role, text: self.text@ }
    }
}

impl DeepView for Span {
    type V = SpanView;

    open spec fn deep_view(&self) -> SpanView {
        self@
    }
}

/// One line of output.
#[derive(Debug, PartialEq, Eq)]
pub struct Line {
    pub spans: Vec<Span>,
}

impl View for Line {
    type V = Seq<SpanView>;

    open spec fn view(&self) -> Seq<SpanView> {
        self.spans.deep_view()
    }
}

impl DeepView for Line {
    type V = Seq<SpanView>;

    open spec fn deep_view(&self) -> Seq<SpanView> {
        self@
    }
}

/// The text of a line: the text of its spans, one after the other.
pub open spec fn plain_text(spans: Seq<SpanView>) -> Seq<char>
    decreases spans.len(),
{
    if spans.len() == 0 {
        Seq::empty()
    } else {
        plain_text(spans.drop_last()) + spans.last().text
    }
}

/// A line that is one plain message.
pub open spec fn message_line(text: Seq<char>) -> Seq<SpanView> {
    seq![SpanView { role: Role::Plain, text: text }]
}

/// The line that shows an entry: key, `": "`, value, and for an entry with a
/// note `"  # "` and the note.
pub open spec fn entry_spans(e: EntryView) -> Seq<SpanView> {
    let head = seq![
        SpanView { role: Role::Key, text: e.key },
        SpanView { role: Role::Plain, text: ": "@ },
        SpanView { role: Role::Value, text: e.value },
    ];
    if e.note.len() == 0 {
        head
    } else {
        head + seq![
            SpanView { role: Role::Plain, text: "  # "@ },
            SpanView { role: Role::Note, text: e.note },
        ]
    }
}

/// The lines that confirm a change to the store.
pub open spec fn confirmation(statement: StatementView) -> Seq<Seq<SpanView>> {
    match statement {
        StatementView::CreateTable => seq![],
        StatementView::Insert { .. } => seq![message_line("Saved."@)],
        StatementView::UpdateValue { .. } => seq![message_line("Updating existing entry..."@)],
        StatementView::UpdateNote { .. } => seq![message_line("Updating note..."@)],
        StatementView::Delete { key } => seq![message_line("Dropping key "@ + key)],
    }
}

/// The lines that tell of an error. A missing key is named by `delete`,
/// mentioned by `note`, and passed over in silence by the commands that only
/// read.
pub open spec fn complaint(command: CommandView, error: ErrorKind) -> Seq<Seq<SpanView>> {
    match error {
        ErrorKind::NotFound => match command {
            CommandView::Delete { key } => seq![message_line("Key "@ + key + " not found."@)],
            CommandView::Note { .. } => seq![message_line(error_message(error))],
            _ => seq![],
        },
        _ => seq![message_line(error_message(error))],
    }
}

/// The lines that `command` shows when it ends with `outcome`. Help and
/// version texts are not among them.
pub open spec fn report_of(command: CommandView, outcome: Result<ReplyView, ErrorKind>) -> Seq<
    Seq<SpanView>,
> {
    match outcome {
        Ok(ReplyView::Help) => seq![],
        Ok(ReplyView::Version) => seq![],
        Ok(ReplyView::Action(_)) => seq![],
        Ok(ReplyView::Listing(rows)) => rows.map_values(|e: EntryView| entry_spans(e)),
        Ok(ReplyView::Found(entry)) => seq![entry_spans(entry)],
        Ok(ReplyView::Written(statement)) => confirmation(statement),
        Err(error) => complaint(command, error),
    }
}

/// The text of an entry's line is `key: value`, and `key: value  # note` for
/// an entry with a note.
pub proof fn lemma_entry_spans_text(e: EntryView)
    ensures
        plain_text(entry_spans(e)) == entry_line(e),
{
    reveal_with_fuel(plain_text, 6);
    let spans = entry_spans(e);
    if e.note.len() == 0 {
        assert(spans.drop_last().drop_last().drop_last() =~= Seq::<SpanView>::empty());
        assert(plain_text(spans) =~= entry_line(e));
    } else {
        assert(spans.drop_last().drop_last().drop_last().drop_last().drop_last() =~= Seq::<
            SpanView,
        >::empty());
        assert(plain_text(spans) =~= entry_line(e));
    }
}

/// A span with the given role and text.
fn span(role: Role, text: &str) -> (span: Span)
    ensures
        span@ == (SpanView { role: role, text: text@ }),
{
    Span { role, text: text.to_owned() }
}

/// A line that is one plain message.
fn message(text: String) -> (line: Line)
    ensures
        line@ == message_line(text@),
{
    let mut spans: Vec<Span> = Vec::new();
    spans.push(Span { role: Role::Plain, text });
    let line = Line { spans };
    assert(line@ =~= message_line(text@));
    line
}

impl Line {
    /// The line that shows `entry`.
    pub fn of_entry(entry: &Entry) -> (line: Line)
        ensures
            line@ == entry_spans(entry@),
    {
        let mut spans: Vec<Span> = Vec::new();
        spans.push(span(Role::Key, entry.key.as_str()));
        spans.push(span(Role::Plain, ": "));
        spans.push(span(Role::Value, entry.value.as_str()));
        if entry.has_note() {
            spans.push(span(Role::Plain, "  # "));
            spans.push(span(Role::Note, entry.note.as_str()));
        }
        let line = Line { spans };
        assert(line@ =~= entry_spans(entry@));
        line
    }

    /// The text of the line, without regard to roles.
    pub fn text(&self) -> (text: String)
        ensures
            text@ == plain_text(self@),
    {
        let n = self.spans.len();
        let mut text = String::new();
        let mut i: usize = 0;
        while i < n
            invariant
                n == self.spans.len(),
                i <= n,
                text@ == plain_text(self@.take(i as int)),
            decreases n - i,
        {
            proof {
                let after = self@.take(i + 1);
                assert(after.drop_last() =~= self@.take(i as int));
                assert(after.last() == self.spans[i as int]@);
            }
            text.append(self.spans[i].text.as_str());
            i += 1;
        }
        assert(self@.take(n as int) =~= self@);
        text
    }
}

/// The lines that show the entries, one line each, in order.
fn listing(entries: &Vec<Entry>) -> (lines: Vec<Line>)
    ensures
        lines.deep_view() == entries.deep_view().map_values(|e: EntryView| entry_spans(e)),
{
    let n = entries.len();
    let mut lines: Vec<Line> = Vec::new();
    let mut i: usize = 0;
    while i < n
        invariant
            n == entries.len(),
            i <= n,
            lines.len() == i,
            forall|j: int| 0 <= j < i ==> (#[trigger] lines[j])@ == entry_spans(entries[j]@),
        decreases n - i,
    {
        lines.push(Line::of_entry(&entries[i]));
        i += 1;
    }
    assert(lines.deep_view() =~= entries.deep_view().map_values(|e: EntryView| entry_spans(e)));
    lines
}

/// One line.
fn single(line: Line) -> (lines: Vec<Line>)
    ensures
        lines.deep_view() == seq![line@],
{
    let mut lines: Vec<Line> = Vec::new();
    lines.push(line);
    assert(lines.deep_view() =~= seq![line@]);
    lines
}

/// No line.
fn silence() -> (lines: Vec<Line>)
    ensures
        lines.deep_view() == Seq::<Seq<SpanView>>::empty(),
{
    let lines: Vec<Line> = Vec::new();
    assert(lines.deep_view() =~= Seq::<Seq<SpanView>>::empty());
    lines
}

/// The lines that `command` shows to the user when it ends with `outcome`:
/// the entries of a listing, the entry that was asked for, the confirmation
/// of a change, or the message of an error. Help and version texts are not
/// among them.
pub fn report(command: &Command, outcome: &Result<Reply, ErrorKind>) -> (lines: Vec<Line>)
    ensures
        lines.deep_view() == report_of(command@, outcome_view(*outcome)),
{
    match outcome {
        Ok(Reply::Help) => silence(),
        Ok(Reply::Version) => silence(),
        Ok(Reply::Action(_)) => silence(),
        Ok(Reply::Listing(entries)) => listing(entries),
        Ok(Reply::Found(entry)) => single(Line::of_entry(entry)),
        Ok(Reply::Written(statement)) => match statement {
            Statement::CreateTable => silence(),
            Statement::Insert { .. } => single(message("Saved.".to_owned())),
            Statement::UpdateValue { .. } => single(
                message("Updating existing entry...".to_owned()),
            ),
            Statement::UpdateNote { .. } => single(message("Updating note...".to_owned())),
            Statement::Delete { key } => single(
                message("Dropping key ".to_owned().concat(key.as_str())),
            ),
        },
        Err(error) => match error {
            ErrorKind::NotFound => match command {
                Command::Delete { key } => {
                    let mut text = "Key ".to_owned();
                    text.append(key.as_str());
                    text.append(" not found.");
                    single(message(text))
                },
                Command::Note { .. } => single(message(error.message().to_owned())),
                _ => silence(),
            },
            _ => single(message(error.message().to_owned())),
        },
    }
}

} // verus!
