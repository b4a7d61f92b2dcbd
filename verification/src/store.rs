//! The entry store: the table of entries and the operations on it.

use vstd::prelude::*;
use crate::entry::{Entry, EntryView};
use crate::error::ErrorKind;
use crate::statement::{Statement, StatementView};
use crate::table::{
    effect, first_match, found_after, has_key, lemma_filter_step, lemma_first_match_at,
    lemma_first_match_has_key, lemma_found_after, set_statement, with_note, with_value,
    without_key,
};

verus! {

/// Position of the first row with `key`.
fn find(rows: &Vec<Entry>, key: &str) -> (position: Option<usize>)
    ensures
        match position {
            Some(i) => {
                &&& i < rows.len()
                &&& rows[i as int].key@ == key@
                &&& forall|j: int| 0 <= j < i ==> (#[trigger] rows[j]).key@ != key@
            },
            None => forall|j: int| 0 <= j < rows.len() ==> (#[trigger] rows[j]).key@ != key@,
        },
        position is Some <==> has_key(rows.deep_view(), key@),
{
    let n = rows.len();
    let mut i: usize = 0;
    while i < n
        invariant
            n == rows.len(),
            i <= n,
            forall|j: int| 0 <= j < i ==> (#[trigger] rows[j]).key@ != key@,
        decreases n - i,
    {
        if *rows[i].key == *key {
            assert(rows.deep_view()[i as int].key == key@);
            return Some(i);
        }
        i += 1;
    }
    let ghost views = rows.deep_view();
    assert forall|j: int| 0 <= j < views.len() implies (#[trigger] views[j]).key != key@ by {
        assert(rows[j].key@ != key@);
    }
    None
}

/// A copy of the first row with `key`.
fn first_with_key(rows: &Vec<Entry>, key: &str) -> (entry: Option<Entry>)
    ensures
        entry.deep_view() == first_match(rows.deep_view(), key@),
{
    match find(rows, key) {
        Some(i) => {
            proof {
                assert forall|j: int| 0 <= j < i implies (#[trigger] rows.deep_view()[j]).key
                    != key@ by {
                    assert(rows[j].key@ != key@);
                }
                lemma_first_match_at(rows.deep_view(), key@, i as int);
            }
            Some(rows[i].clone())
        },
        None => {
            proof {
                lemma_first_match_has_key(rows.deep_view(), key@);
            }
            None
        },
    }
}

/// A copy of all rows.
fn copy_rows(rows: &Vec<Entry>) -> (copy: Vec<Entry>)
    ensures
        copy.deep_view() == rows.deep_view(),
{
    let n = rows.len();
    let mut copy: Vec<Entry> = Vec::new();
    let mut i: usize = 0;
    while i < n
        invariant
            n == rows.len(),
            i <= n,
            copy.len() == i,
            forall|j: int| 0 <= j < i ==> (#[trigger] copy[j])@ == rows[j]@,
        decreases n - i,
    {
        copy.push(rows[i].clone());
        i += 1;
    }
    assert(copy.deep_view() =~= rows.deep_view());
    copy
}

/// Gives every row with `key` the value `value`.
fn replace_values(rows: &mut Vec<Entry>, key: &str, value: &str)
    ensures
        final(rows).deep_view() == with_value(old(rows).deep_view(), key@, value@),
{
    let n = rows.len();
    let mut i: usize = 0;
    while i < n
        invariant
            n == rows.len(),
            n == old(rows).len(),
            i <= n,
            forall|j: int|
                0 <= j < i ==> (#[trigger] rows[j])@ == with_value(
                    old(rows).deep_view(),
                    key@,
                    value@,
                )[j],
            forall|j: int| i <= j < n ==> rows[j] == old(rows)[j],
        decreases n - i,
    {
        if *rows[i].key == *key {
            rows[i].value = value.to_owned();
        }
        i += 1;
    }
    assert(rows.deep_view() =~= with_value(old(rows).deep_view(), key@, value@));
}

/// Gives every row with `key` the note `note`.
fn replace_notes(rows: &mut Vec<Entry>, key: &str, note: &str)
    ensures
        final(rows).deep_view() == with_note(old(rows).deep_view(), key@, note@),
{
    let n = rows.len();
    let mut i: usize = 0;
    while i < n
        invariant
            n == rows.len(),
            n == old(rows).len(),
            i <= n,
            forall|j: int|
                0 <= j < i ==> (#[trigger] rows[j])@ == with_note(
                    old(rows).deep_view(),
                    key@,
                    note@,
                )[j],
            forall|j: int| i <= j < n ==> rows[j] == old(rows)[j],
        decreases n - i,
    {
        if *rows[i].key == *key {
            rows[i].note = note.to_owned();
        }
        i += 1;
    }
    assert(rows.deep_view() =~= with_note(old(rows).deep_view(), key@, note@));
}

/// The rows that do not have `key`, in order.
fn rows_without(rows: &Vec<Entry>, key: &str) -> (kept: Vec<Entry>)
    ensures
        kept.deep_view() == without_key(rows.deep_view(), key@),
{
    let ghost keep = |e: EntryView| e.key != key@;
    let n = rows.len();
    let mut kept: Vec<Entry> = Vec::new();
    let mut i: usize = 0;
    proof {
        reveal(Seq::filter);
        assert(rows.deep_view().take(0).filter(keep) =~= kept.deep_view());
    }
    while i < n
        invariant
            n == rows.len(),
            i <= n,
            keep == |e: EntryView| e.key != key@,
            kept.deep_view() == rows.deep_view().take(i as int).filter(keep),
        decreases n - i,
    {
        proof {
            lemma_filter_step(rows.deep_view(), keep, i as int);
        }
        if !(*rows[i].key == *key) {
            kept.push(rows[i].clone());
            assert(kept.deep_view() =~= rows.deep_view().take(i as int).filter(keep).push(
                rows.deep_view()[i as int],
            ));
        }
        i += 1;
    }
    assert(rows.deep_view().take(n as int) =~= rows.deep_view());
    kept
}

/// The table of entries, in scan order.
///
/// The store holds the rows in memory. Each operation that changes them hands
/// back the [`Statement`] that makes the same change to the backing table.
///
/// Keys are not forced to be unique: a table that was written by other means
/// may hold a key several times. A read takes the first row with the key, a
/// write reaches every row with it. The store itself never adds a second row
/// for a key that it holds.
///
/// Before the first `initialize` or `set` the backing table does not exist
/// yet; such a store has no rows.
pub struct EntryStore {
    rows: Option<Vec<Entry>>,
}

impl View for EntryStore {
    type V = Seq<EntryView>;

    closed spec fn view(&self) -> Seq<EntryView> {
        match self.rows {
            Some(rows) => rows.deep_view(),
            None => Seq::empty(),
        }
    }
}

impl EntryStore {
    /// Whether the backing table exists.
    pub closed spec fn is_initialized(&self) -> bool {
        self.rows is Some
    }

    /// A store without a backing table has no rows.
    pub proof fn lemma_no_table_no_rows(&self)
        ensures
            !self.is_initialized() ==> self@ == Seq::<EntryView>::empty(),
    {
    }

    /// A store whose backing table does not exist yet.
    pub fn new() -> (store: EntryStore)
        ensures
            !store.is_initialized(),
            store@ == Seq::<EntryView>::empty(),
    {
        EntryStore { rows: None }
    }

    /// The store of an existing table with the given rows.
    pub fn from_rows(rows: Vec<Entry>) -> (store: EntryStore)
        ensures
            store.is_initialized(),
            store@ == rows.deep_view(),
    {
        EntryStore { rows: Some(rows) }
    }

    /// Whether the backing table exists.
    pub fn initialized(&self) -> (ready: bool)
        ensures
            ready == self.is_initialized(),
    {
        self.rows.is_some()
    }

    /// Makes sure that the backing table exists. The rows stay as they are, so
    /// a second call changes nothing.
    pub fn initialize(&mut self) -> (statement: Statement)
        ensures
            statement@ == StatementView::CreateTable,
            final(self).is_initialized(),
            final(self)@ == old(self)@,
            old(self).is_initialized() ==> *final(self) == *old(self),
    {
        if self.rows.is_none() {
            self.rows = Some(Vec::new());
            assert(self@ =~= old(self)@);
        }
        Statement::CreateTable
    }

    /// Whether at least one entry has `key`.
    pub fn contains_key(&self, key: &str) -> (found: bool)
        ensures
            found == has_key(self@, key@),
    {
        match &self.rows {
            Some(rows) => find(rows, key).is_some(),
            None => false,
        }
    }

    /// The entry with `key`: the first one in scan order if several rows have
    /// the key, `None` if none has.
    pub fn get(&self, key: &str) -> (entry: Option<Entry>)
        ensures
            entry.deep_view() == first_match(self@, key@),
            entry is Some <==> has_key(self@, key@),
            entry matches Some(e) ==> e.key@ == key@,
    {
        proof {
            lemma_first_match_has_key(self@, key@);
        }
        match &self.rows {
            Some(rows) => first_with_key(rows, key),
            None => None,
        }
    }

    /// All entries, in scan order.
    pub fn list(&self) -> (entries: Vec<Entry>)
        ensures
            entries.deep_view() == self@,
    {
        match &self.rows {
            Some(rows) => copy_rows(rows),
            None => {
                let entries: Vec<Entry> = Vec::new();
                assert(entries.deep_view() =~= self@);
                entries
            },
        }
    }

    /// Runs a statement on the rows. `CreateTable` and `Insert` bring the table
    /// into being where it did not exist.
    pub fn apply(&mut self, statement: &Statement)
        ensures
            final(self)@ == effect(old(self)@, statement@),
            final(self).is_initialized() == (old(self).is_initialized()
                || statement@ is CreateTable || statement@ is Insert),
            forall|sought: Seq<char>| #[trigger]
                first_match(final(self)@, sought) == found_after(old(self)@, statement@, sought),
            forall|sought: Seq<char>| #[trigger]
                has_key(final(self)@, sought) == found_after(
                    old(self)@,
                    statement@,
                    sought,
                ) is Some,
    {
        proof {
            assert forall|sought: Seq<char>|
                first_match(effect(self@, statement@), sought) == found_after(
                    self@,
                    statement@,
                    sought,
                ) && has_key(effect(self@, statement@), sought) == found_after(
                    self@,
                    statement@,
                    sought,
                ) is Some by {
                lemma_found_after(self@, statement@, sought);
            }
        }
        match statement {
            Statement::CreateTable => {
                self.initialize();
            },
            Statement::Insert { key, value, note } => {
                self.initialize();
                match &mut self.rows {
                    Some(rows) => {
                        let entry = Entry {
                            key: key.clone(),
                            value: value.clone(),
                            note: note.clone(),
                        };
                        rows.push(entry);
                        assert(rows.deep_view() =~= old(self)@.push(entry@));
                    },
                    None => {},
                }
            },
            Statement::UpdateValue { key, value } => {
                match &mut self.rows {
                    Some(rows) => {
                        replace_values(rows, key.as_str(), value.as_str());
                    },
                    None => {
                        assert(self@ =~= with_value(old(self)@, key@, value@));
                    },
                }
            },
            Statement::UpdateNote { key, note } => {
                match &mut self.rows {
                    Some(rows) => {
                        replace_notes(rows, key.as_str(), note.as_str());
                    },
                    None => {
                        assert(self@ =~= with_note(old(self)@, key@, note@));
                    },
                }
            },
            Statement::Delete { key } => {
                match &self.rows {
                    Some(rows) => {
                        let kept = rows_without(rows, key.as_str());
                        self.rows = Some(kept);
                    },
                    None => {
                        reveal(Seq::filter);
                        assert(self@ =~= without_key(old(self)@, key@));
                    },
                }
            },
        }
    }

    /// Stores `value` under `key`. Where entries with the key exist, their
    /// value is replaced and their note kept; otherwise a new entry without a
    /// note is added at the end, and the table created if it did not exist.
    /// The statement handed back tells the two apart: `UpdateValue` or
    /// `Insert`.
    pub fn set(&mut self, key: &str, value: &str) -> (statement: Statement)
        ensures
            statement@ == set_statement(old(self)@, key@, value@),
            final(self)@ == effect(old(self)@, statement@),
            final(self).is_initialized(),
            forall|sought: Seq<char>| #[trigger]
                first_match(final(self)@, sought) == found_after(old(self)@, statement@, sought),
            forall|sought: Seq<char>| #[trigger]
                has_key(final(self)@, sought) == found_after(
                    old(self)@,
                    statement@,
                    sought,
                ) is Some,
    {
        let statement = if self.contains_key(key) {
            Statement::UpdateValue { key: key.to_owned(), value: value.to_owned() }
        } else {
            Statement::Insert { key: key.to_owned(), value: value.to_owned(), note: String::new() }
        };
        self.apply(&statement);
        statement
    }

    /// Replaces the note of the entries with `key`. Without such an entry
    /// nothing is written and `NotFound` comes back.
    pub fn set_note(&mut self, key: &str, note: &str) -> (outcome: Result<Statement, ErrorKind>)
        ensures
            match outcome {
                Ok(statement) => {
                    &&& has_key(old(self)@, key@)
                    &&& statement@ == (StatementView::UpdateNote { key: key@, note: note@ })
                    &&& final(self)@ == with_note(old(self)@, key@, note@)
                },
                Err(error) => {
                    &&& !has_key(old(self)@, key@)
                    &&& error == ErrorKind::NotFound
                    &&& *final(self) == *old(self)
                },
            },
            final(self).is_initialized() == old(self).is_initialized(),
            forall|sought: Seq<char>| #[trigger]
                first_match(final(self)@, sought) == found_after(
                    old(self)@,
                    StatementView::UpdateNote { key: key@, note: note@ },
                    sought,
                ),
            forall|sought: Seq<char>| #[trigger]
                has_key(final(self)@, sought) == has_key(old(self)@, sought),
    {
        proof {
            assert forall|sought: Seq<char>| #[trigger]
                has_key(self@, sought) == first_match(self@, sought) is Some by {
                lemma_first_match_has_key(self@, sought);
            }
        }
        if self.contains_key(key) {
            let statement = Statement::UpdateNote { key: key.to_owned(), note: note.to_owned() };
            self.apply(&statement);
            Ok(statement)
        } else {
            Err(ErrorKind::NotFound)
        }
    }

    /// Removes the entries with `key`. Without such an entry nothing is
    /// written and `NotFound` comes back.
    pub fn delete(&mut self, key: &str) -> (outcome: Result<Statement, ErrorKind>)
        ensures
            match outcome {
                Ok(statement) => {
                    &&& has_key(old(self)@, key@)
                    &&& statement@ == (StatementView::Delete { key: key@ })
                    &&& final(self)@ == without_key(old(self)@, key@)
                },
                Err(error) => {
                    &&& !has_key(old(self)@, key@)
                    &&& error == ErrorKind::NotFound
                    &&& *final(self) == *old(self)
                },
            },
            final(self).is_initialized() == old(self).is_initialized(),
            forall|sought: Seq<char>| #[trigger]
                first_match(final(self)@, sought) == if sought == key@ {
                    None
                } else {
                    first_match(old(self)@, sought)
                },
            forall|sought: Seq<char>| #[trigger]
                has_key(final(self)@, sought) == (sought != key@ && has_key(old(self)@, sought)),
    {
        proof {
            assert forall|sought: Seq<char>| #[trigger]
                has_key(self@, sought) == first_match(self@, sought) is Some by {
                lemma_first_match_has_key(self@, sought);
            }
        }
        if self.contains_key(key) {
            let statement = Statement::Delete { key: key.to_owned() };
            self.apply(&statement);
            Ok(statement)
        } else {
            Err(ErrorKind::NotFound)
        }
    }
}

} // verus!
