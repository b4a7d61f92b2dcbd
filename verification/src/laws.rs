//! What holds of the store whatever it contains.

use vstd::prelude::*;
use crate::command::{query_of, CommandView};
use crate::dispatch::{outcome_of, rows_after, ReplyView};
use crate::entry::EntryView;
use crate::error::ErrorKind;
use crate::report::{report_of, SpanView};
use crate::statement::{QueryView, StatementView};
use crate::table::{
    distinct_keys, effect, first_match, has_key, lemma_filter_keeps_keys_distinct,
    lemma_first_match_has_key, lemma_first_match_matching, lemma_first_match_push,
    lemma_first_match_with_note, lemma_first_match_with_value, lemma_first_match_without_key,
    lemma_has_key_matching, lemma_has_key_of_matching, lemma_matching_with_value, matching,
    selected, set_statement, with_note, without_key, written_key,
};

verus! {

/// The table after `set` has stored `value` under `key`.
pub open spec fn after_set(rows: Seq<EntryView>, key: Seq<char>, value: Seq<char>) -> Seq<
    EntryView,
> {
    effect(rows, set_statement(rows, key, value))
}

/// A table without rows has no key: nothing is found in it.
pub proof fn lemma_empty_table_has_no_key(key: Seq<char>)
    ensures
        !has_key(Seq::<EntryView>::empty(), key),
        first_match(Seq::<EntryView>::empty(), key) is None,
{
}

/// A key that no row has stays absent until a row with it is inserted: no
/// other statement, on this key or another, brings it into the table. So a
/// key that was never set is not found.
pub proof fn lemma_absent_until_inserted(
    rows: Seq<EntryView>,
    key: Seq<char>,
    statement: StatementView,
)
    requires
        !has_key(rows, key),
        statement matches StatementView::Insert { key: inserted, .. } ==> inserted != key,
    ensures
        !has_key(effect(rows, statement), key),
        first_match(effect(rows, statement), key) is None,
{
    let after = effect(rows, statement);
    assert forall|i: int| 0 <= i < after.len() implies (#[trigger] after[i]).key != key by {
        match statement {
            StatementView::CreateTable => {},
            StatementView::Insert { .. } => {
                if i < rows.len() {
                    assert(after[i] == rows[i]);
                }
            },
            StatementView::UpdateValue { .. } => {
                assert(after[i].key == rows[i].key);
            },
            StatementView::UpdateNote { .. } => {
                assert(after[i].key == rows[i].key);
            },
            StatementView::Delete { key: removed } => {
                let keep = |e: EntryView| e.key != removed;
                assert(after.contains(after[i]));
                rows.lemma_filter_contains_rev(keep, after[i]);
                let j = choose|j: int| 0 <= j < rows.len() && rows[j] == after[i];
                assert(rows[j].key != key);
            },
        }
    }
    lemma_first_match_has_key(after, key);
}

/// A statement leaves alone what is stored under the keys that it does not
/// write: the same entry is found there before and after.
pub proof fn lemma_other_keys_untouched(
    rows: Seq<EntryView>,
    statement: StatementView,
    key: Seq<char>,
)
    requires
        written_key(statement) != Some(key),
    ensures
        first_match(effect(rows, statement), key) == first_match(rows, key),
        has_key(effect(rows, statement), key) == has_key(rows, key),
{
    match statement {
        StatementView::CreateTable => {},
        StatementView::Insert { key: written, value, note } => {
            lemma_first_match_push(
                rows,
                EntryView { key: written, value: value, note: note },
                key,
            );
        },
        StatementView::UpdateValue { key: written, value } => {
            lemma_first_match_with_value(rows, written, value, key);
        },
        StatementView::UpdateNote { key: written, note } => {
            lemma_first_match_with_note(rows, written, note, key);
        },
        StatementView::Delete { key: written } => {
            lemma_first_match_without_key(rows, written, key);
        },
    }
    lemma_first_match_has_key(rows, key);
    lemma_first_match_has_key(effect(rows, statement), key);
}

/// After a note has been set, what is found under the key is the entry that
/// was found before, with the new note.
pub proof fn lemma_note_then_get(rows: Seq<EntryView>, key: Seq<char>, note: Seq<char>)
    ensures
        first_match(with_note(rows, key, note), key) == match first_match(rows, key) {
            Some(e) => Some(EntryView { key: e.key, value: e.value, note: note }),
            None => None,
        },
{
    lemma_first_match_with_note(rows, key, note, key);
}

/// After `set` the key is present, and what is found under it has the value
/// that was set: the entry that was found before with its value replaced, or
/// a new entry without a note.
pub proof fn lemma_set_then_get(rows: Seq<EntryView>, key: Seq<char>, value: Seq<char>)
    ensures
        has_key(after_set(rows, key, value), key),
        first_match(after_set(rows, key, value), key) == Some(
            match first_match(rows, key) {
                Some(e) => EntryView { key: key, value: value, note: e.note },
                None => EntryView { key: key, value: value, note: Seq::empty() },
            },
        ),
{
    lemma_first_match_has_key(rows, key);
    lemma_first_match_has_key(after_set(rows, key, value), key);
    if has_key(rows, key) {
        lemma_first_match_with_value(rows, key, value, key);
    } else {
        lemma_first_match_push(
            rows,
            EntryView { key: key, value: value, note: Seq::empty() },
            key,
        );
    }
}

/// A second `set` of a key overwrites the first: the table is what the second
/// alone would have made of it.
pub proof fn lemma_set_overwrites(
    rows: Seq<EntryView>,
    key: Seq<char>,
    first: Seq<char>,
    second: Seq<char>,
)
    ensures
        after_set(after_set(rows, key, first), key, second) == after_set(rows, key, second),
{
    let once = after_set(rows, key, first);
    if has_key(rows, key) {
        let i = choose|i: int| 0 <= i < rows.len() && (#[trigger] rows[i]).key == key;
        assert(once[i].key == key);
        assert(after_set(once, key, second) =~= after_set(rows, key, second));
    } else {
        assert(once[rows.len() as int].key == key);
        assert forall|i: int| 0 <= i < rows.len() implies (#[trigger] once[i]).key != key by {
            assert(once[i] == rows[i]);
        }
        assert(after_set(once, key, second) =~= after_set(rows, key, second));
    }
}

/// `set` leaves the number of rows with the key as it was, or makes it one
/// where it was zero.
pub proof fn lemma_set_count(rows: Seq<EntryView>, key: Seq<char>, value: Seq<char>)
    ensures
        matching(after_set(rows, key, value), key).len() == if has_key(rows, key) {
            matching(rows, key).len()
        } else {
            1
        },
{
    lemma_has_key_matching(rows, key);
    if has_key(rows, key) {
        lemma_matching_with_value(rows, key, value);
    } else {
        reveal(Seq::filter);
        let added = EntryView { key: key, value: value, note: Seq::empty() };
        assert(rows.push(added).drop_last() =~= rows);
    }
}

/// Two `set`s of one key, in a table that held the key at most once, leave
/// exactly one row with the key, and it has the second value.
pub proof fn lemma_set_twice_leaves_one_entry(
    rows: Seq<EntryView>,
    key: Seq<char>,
    first: Seq<char>,
    second: Seq<char>,
)
    requires
        matching(rows, key).len() <= 1,
    ensures
        matching(after_set(after_set(rows, key, first), key, second), key).len() == 1,
        matching(after_set(after_set(rows, key, first), key, second), key)[0].key == key,
        matching(after_set(after_set(rows, key, first), key, second), key)[0].value == second,
        first_match(after_set(after_set(rows, key, first), key, second), key) == Some(
            matching(after_set(after_set(rows, key, first), key, second), key)[0],
        ),
{
    let once = after_set(rows, key, first);
    let twice = after_set(once, key, second);
    lemma_has_key_matching(rows, key);
    lemma_set_count(rows, key, first);
    lemma_set_then_get(rows, key, first);
    lemma_set_count(once, key, second);
    lemma_set_then_get(once, key, second);
    lemma_first_match_matching(twice, key);
    let found = matching(twice, key);
    assert(found.first() == found[0]);
    assert(found.drop_first().len() == 0);
}

/// After `delete` the key is gone, whatever was stored under it and however
/// often.
pub proof fn lemma_delete_removes_key(rows: Seq<EntryView>, key: Seq<char>)
    ensures
        !has_key(without_key(rows, key), key),
        first_match(without_key(rows, key), key) is None,
{
    let keep = |e: EntryView| e.key != key;
    let after = without_key(rows, key);
    assert forall|i: int| 0 <= i < after.len() implies (#[trigger] after[i]).key != key by {
        rows.lemma_filter_pred(keep, i);
    }
    lemma_first_match_has_key(after, key);
}

/// `set`, then `delete`, then `get` of one key finds nothing: the delete
/// succeeds, and the key is absent after it.
pub proof fn lemma_set_delete_get(
    rows: Seq<EntryView>,
    key: Seq<char>,
    value: Seq<char>,
    editor: Option<Seq<char>>,
)
    ensures
        outcome_of(after_set(rows, key, value), CommandView::Delete { key: key }, editor) == Ok::<
            ReplyView,
            ErrorKind,
        >(ReplyView::Written(StatementView::Delete { key: key })),
        outcome_of(
            without_key(after_set(rows, key, value), key),
            CommandView::Get { key: key },
            editor,
        ) == Err::<ReplyView, ErrorKind>(ErrorKind::NotFound),
{
    lemma_set_then_get(rows, key, value);
    lemma_delete_removes_key(after_set(rows, key, value), key);
}

/// A note for a key that no row has is refused as not found, and the table
/// stays as it was.
pub proof fn lemma_note_on_missing_key(
    rows: Seq<EntryView>,
    key: Seq<char>,
    note: Seq<char>,
    editor: Option<Seq<char>>,
)
    requires
        !has_key(rows, key),
    ensures
        outcome_of(rows, CommandView::Note { key: key, note: note }, editor) == Err::<
            ReplyView,
            ErrorKind,
        >(ErrorKind::NotFound),
        rows_after(rows, outcome_of(rows, CommandView::Note { key: key, note: note }, editor))
            == rows,
{
}

/// Listing a table without rows succeeds and shows no line.
pub proof fn lemma_empty_listing_is_silent(editor: Option<Seq<char>>)
    ensures
        outcome_of(Seq::<EntryView>::empty(), CommandView::List, editor) == Ok::<
            ReplyView,
            ErrorKind,
        >(ReplyView::Listing(Seq::<EntryView>::empty())),
        report_of(
            CommandView::List,
            outcome_of(Seq::<EntryView>::empty(), CommandView::List, editor),
        ) == Seq::<Seq<SpanView>>::empty(),
{
    let lines = report_of(
        CommandView::List,
        outcome_of(Seq::<EntryView>::empty(), CommandView::List, editor),
    );
    assert(lines =~= Seq::<Seq<SpanView>>::empty());
}

/// A listing shows one line for each row.
pub proof fn lemma_listing_has_a_line_per_row(rows: Seq<EntryView>, editor: Option<Seq<char>>)
    ensures
        report_of(CommandView::List, outcome_of(rows, CommandView::List, editor)).len()
            == rows.len(),
{
}

/// A command needs no more of the table than its query yields: on those rows
/// alone its outcome is the same as on the whole table.
pub proof fn lemma_outcome_needs_only_queried_rows(
    rows: Seq<EntryView>,
    command: CommandView,
    editor: Option<Seq<char>>,
    query: QueryView,
)
    requires
        query_of(command) == Some(query),
    ensures
        outcome_of(selected(rows, query), command, editor) == outcome_of(rows, command, editor),
{
    match query {
        QueryView::All => {},
        QueryView::ByKey { key } => {
            lemma_first_match_matching(rows, key);
            lemma_has_key_of_matching(rows, key);
        },
    }
}

/// Rows with distinct keys keep distinct keys under every statement that the
/// store hands out: an insertion is made only of a key that no row has.
pub proof fn lemma_keys_stay_distinct(rows: Seq<EntryView>, statement: StatementView)
    requires
        distinct_keys(rows),
        statement matches StatementView::Insert { key, .. } ==> !has_key(rows, key),
    ensures
        distinct_keys(effect(rows, statement)),
{
    let after = effect(rows, statement);
    match statement {
        StatementView::CreateTable => {},
        StatementView::Insert { key, .. } => {
            assert forall|i: int, j: int| 0 <= i < j < after.len() implies (#[trigger] after[i]).key
                != (#[trigger] after[j]).key by {
                assert(after[i] == rows[i]);
                if j < rows.len() {
                    assert(after[j] == rows[j]);
                }
            }
        },
        StatementView::UpdateValue { .. } => {
            assert forall|i: int, j: int| 0 <= i < j < after.len() implies (#[trigger] after[i]).key
                != (#[trigger] after[j]).key by {
                assert(after[i].key == rows[i].key && after[j].key == rows[j].key);
            }
        },
        StatementView::UpdateNote { .. } => {
            assert forall|i: int, j: int| 0 <= i < j < after.len() implies (#[trigger] after[i]).key
                != (#[trigger] after[j]).key by {
                assert(after[i].key == rows[i].key && after[j].key == rows[j].key);
            }
        },
        StatementView::Delete { key } => {
            lemma_filter_keeps_keys_distinct(rows, |e: EntryView| e.key != key);
        },
    }
}

/// `set` keeps the keys of a table distinct.
pub proof fn lemma_set_keeps_keys_distinct(rows: Seq<EntryView>, key: Seq<char>, value: Seq<char>)
    requires
        distinct_keys(rows),
    ensures
        distinct_keys(after_set(rows, key, value)),
{
    lemma_keys_stay_distinct(rows, set_statement(rows, key, value));
}

/// The table after the commands of `history` have run in order, the first of
/// them on a table without rows.
pub open spec fn table_after(history: Seq<CommandView>, editor: Option<Seq<char>>) -> Seq<
    EntryView,
>
    decreases history.len(),
{
    if history.len() == 0 {
        Seq::empty()
    } else {
        let before = table_after(history.drop_last(), editor);
        rows_after(before, outcome_of(before, history.last(), editor))
    }
}

/// A command changes the table by a statement that the store hands out, or
/// not at all: it inserts only a key that no row has, and it writes no key
/// but its own.
pub proof fn lemma_command_writes_its_own_key(
    rows: Seq<EntryView>,
    command: CommandView,
    editor: Option<Seq<char>>,
)
    ensures
        match outcome_of(rows, command, editor) {
            Ok(ReplyView::Written(statement)) => {
                &&& rows_after(rows, outcome_of(rows, command, editor)) == effect(rows, statement)
                &&& query_of(command) == Some(QueryView::ByKey { key: written_key(statement)->0 })
                &&& written_key(statement) is Some
                &&& statement matches StatementView::Insert { key, .. } ==> !has_key(rows, key)
                    && command is Save
            },
            _ => rows_after(rows, outcome_of(rows, command, editor)) == rows,
        },
{
}

/// A key that was never set is not found: after any commands, none of which
/// sets `key`, on a table that began without rows, no row has `key`, and a
/// `get` of it reports that it is not found.
pub proof fn lemma_never_set_key_is_absent(
    history: Seq<CommandView>,
    editor: Option<Seq<char>>,
    key: Seq<char>,
)
    requires
        forall|i: int|
            0 <= i < history.len() ==> !(#[trigger] history[i] matches CommandView::Save {
                key: set,
                ..
            } && set == key),
    ensures
        !has_key(table_after(history, editor), key),
        first_match(table_after(history, editor), key) is None,
        outcome_of(table_after(history, editor), CommandView::Get { key: key }, editor) == Err::<
            ReplyView,
            ErrorKind,
        >(ErrorKind::NotFound),
    decreases history.len(),
{
    if history.len() == 0 {
    } else {
        let earlier = history.drop_last();
        assert forall|i: int| 0 <= i < earlier.len() implies !(#[trigger] earlier[i] matches
            CommandView::Save { key: set, .. } && set == key) by {
            assert(earlier[i] == history[i]);
        }
        lemma_never_set_key_is_absent(earlier, editor, key);
        let before = table_after(earlier, editor);
        let last = history[history.len() - 1];
        lemma_command_writes_its_own_key(before, last, editor);
        match outcome_of(before, last, editor) {
            Ok(ReplyView::Written(statement)) => {
                lemma_absent_until_inserted(before, key, statement);
            },
            _ => {},
        }
    }
    lemma_first_match_has_key(table_after(history, editor), key);
}

/// A table that is written by commands alone never holds a key twice: after
/// any commands on a table that began without rows, all keys are distinct.
pub proof fn lemma_commands_keep_keys_distinct(
    history: Seq<CommandView>,
    editor: Option<Seq<char>>,
)
    ensures
        distinct_keys(table_after(history, editor)),
    decreases history.len(),
{
    if history.len() > 0 {
        let earlier = history.drop_last();
        lemma_commands_keep_keys_distinct(earlier, editor);
        let before = table_after(earlier, editor);
        lemma_command_writes_its_own_key(before, history.last(), editor);
        match outcome_of(before, history.last(), editor) {
            Ok(ReplyView::Written(statement)) => {
                lemma_keys_stay_distinct(before, statement);
            },
            _ => {},
        }
    }
}

} // verus!
