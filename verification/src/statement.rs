//! The statements that read and change the backing table.
//!
//! Every statement is a fixed text with `?` placeholders and a list of values to
//! bind to them, in order. No stored or user-supplied text is ever spliced into
//! the statement itself.

use vstd::prelude::*;

verus! {

/// A change to the backing table.
#[derive(Debug, PartialEq, Eq)]
pub enum Statement {
    /// Create the table unless it exists.
    CreateTable,
    /// Append one row.
    Insert { key: String, value: String, note: String },
    /// Give every row with `key` the value `value`.
    UpdateValue { key: String, value: String },
    /// Give every row with `key` the note `note`.
    UpdateNote { key: String, note: String },
    /// Remove every row with `key`.
    Delete { key: String },
}

/// A [`Statement`] as plain text.
pub enum StatementView {
    CreateTable,
    Insert { key: Seq<char>, value: Seq<char>, note: Seq<char> },
    UpdateValue { key: Seq<char>, value: Seq<char> },
    UpdateNote { key: Seq<char>, note: Seq<char> },
    Delete { key: Seq<char> },
}

impl View for Statement {
    type V = StatementView;

    open spec fn view(&self) -> StatementView {
        match self {
            Statement::CreateTable => StatementView::CreateTable,
            Statement::Insert { key, value, note } => StatementView::Insert {
                key: key@,
                value: value@,
                note: note@,
            },
            Statement::UpdateValue { key, value } => StatementView::UpdateValue {
                key: key@,
                value: value@,
            },
            Statement::UpdateNote { key, note } => StatementView::UpdateNote {
                key: key@,
                note: note@,
            },
            Statement::Delete { key } => StatementView::Delete { key: key@ },
        }
    }
}

/// The text of a statement. It depends on the kind of statement alone.
pub open spec fn statement_sql(s: StatementView) -> Seq<char> {
    match s {
        StatementView::CreateTable => {
            "CREATE TABLE IF NOT EXISTS astore (key TEXT, value TEXT, note TEXT)"@
        },
        StatementView::Insert { .. } => "INSERT INTO astore (key, value, note) VALUES (?, ?, ?)"@,
        StatementView::UpdateValue { .. } => "UPDATE astore SET value = ? WHERE key = ?"@,
        StatementView::UpdateNote { .. } => "UPDATE astore SET note = ? WHERE key = ?"@,
        StatementView::Delete { .. } => "DELETE FROM astore WHERE key = ?"@,
    }
}

/// The values bound to the placeholders of a statement, first placeholder first.
pub open spec fn statement_parameters(s: StatementView) -> Seq<Seq<char>> {
    match s {
        StatementView::CreateTable => seq![],
        StatementView::Insert { key, value, note } => seq![key, value, note],
        StatementView::UpdateValue { key, value } => seq![value, key],
        StatementView::UpdateNote { key, note } => seq![note, key],
        StatementView::Delete { key } => seq![key],
    }
}

impl Statement {
    /// The statement text, with one `?` for each parameter.
    pub fn sql(&self) -> (text: &'static str)
        ensures
            text@ == statement_sql(self@),
    {
        match self {
            Statement::CreateTable => {
                "CREATE TABLE IF NOT EXISTS astore (key TEXT, value TEXT, note TEXT)"
            },
            Statement::Insert { .. } => "INSERT INTO astore (key, value, note) VALUES (?, ?, ?)",
            Statement::UpdateValue { .. } => "UPDATE astore SET value = ? WHERE key = ?",
            Statement::UpdateNote { .. } => "UPDATE astore SET note = ? WHERE key = ?",
            Statement::Delete { .. } => "DELETE FROM astore WHERE key = ?",
        }
    }

    /// The values to bind, in the order of the placeholders.
    pub fn parameters(&self) -> (values: Vec<String>)
        ensures
            values.deep_view() == statement_parameters(self@),
    {
        let mut values: Vec<String> = Vec::new();
        match self {
            Statement::CreateTable => {},
            Statement::Insert { key, value, note } => {
                values.push(key.clone());
                values.push(value.clone());
                values.push(note.clone());
            },
            Statement::UpdateValue { key, value } => {
                values.push(value.clone());
                values.push(key.clone());
            },
            Statement::UpdateNote { key, note } => {
                values.push(note.clone());
                values.push(key.clone());
            },
            Statement::Delete { key } => {
                values.push(key.clone());
            },
        }
        assert(values.deep_view() =~= statement_parameters(self@));
        values
    }
}

/// A read of the backing table. Rows come back in the table's scan order.
#[derive(Debug, PartialEq, Eq)]
pub enum Query {
    /// Every row.
    All,
    /// The rows with `key`.
    ByKey { key: String },
}

/// A [`Query`] as plain text.
pub enum QueryView {
    All,
    ByKey { key: Seq<char> },
}

impl View for Query {
    type V = QueryView;

    open spec fn view(&self) -> QueryView {
        match self {
            Query::All => QueryView::All,
            Query::ByKey { key } => QueryView::ByKey { key: key@ },
        }
    }
}

/// The text of a query. It depends on the kind of query alone.
pub open spec fn query_sql(q: QueryView) -> Seq<char> {
    match q {
        QueryView::All => "SELECT key, value, note FROM astore"@,
        QueryView::ByKey { .. } => "SELECT key, value, note FROM astore WHERE key = ?"@,
    }
}

/// The values bound to the placeholders of a query.
pub open spec fn query_parameters(q: QueryView) -> Seq<Seq<char>> {
    match q {
        QueryView::All => seq![],
        QueryView::ByKey { key } => seq![key],
    }
}

impl Query {
    /// The query text, with one `?` for each parameter.
    pub fn sql(&self) -> (text: &'static str)
        ensures
            text@ == query_sql(self@),
    {
        match self {
            Query::All => "SELECT key, value, note FROM astore",
            Query::ByKey { .. } => "SELECT key, value, note FROM astore WHERE key = ?",
        }
    }

    /// The values to bind, in the order of the placeholders.
    pub fn parameters(&self) -> (values: Vec<String>)
        ensures
            values.deep_view() == query_parameters(self@),
    {
        let mut values: Vec<String> = Vec::new();
        match self {
            Query::All => {},
            Query::ByKey { key } => {
                values.push(key.clone());
            },
        }
        assert(values.deep_view() =~= query_parameters(self@));
        values
    }
}

} // verus!
