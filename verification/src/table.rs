//! The table of entries as a sequence of rows, and what each operation means
//! on it.
//!
//! Rows stand in the order in which the backing table yields them. Nothing
//! forces keys to be unique: a read takes the first row with the key, a write
//! reaches every row with it.

use vstd::prelude::*;
use crate::entry::EntryView;
use crate::statement::{QueryView, StatementView};

verus! {

/// Whether some row has `key`.
pub open spec fn has_key(rows: Seq<EntryView>, key: Seq<char>) -> bool {
    exists|i: int| 0 <= i < rows.len() && (#[trigger] rows[i]).key == key
}

/// The first row with `key`, if there is one.
pub open spec fn first_match(rows: Seq<EntryView>, key: Seq<char>) -> Option<EntryView>
    decreases rows.len(),
{
    if rows.len() == 0 {
        None
    } else if rows.first().key == key {
        Some(rows.first())
    } else {
        first_match(rows.drop_first(), key)
    }
}

/// The rows with `key`, in order.
pub open spec fn matching(rows: Seq<EntryView>, key: Seq<char>) -> Seq<EntryView> {
    rows.filter(|e: EntryView| e.key == key)
}

/// `rows` with the value of every row with `key` replaced by `value`.
pub open spec fn with_value(rows: Seq<EntryView>, key: Seq<char>, value: Seq<char>) -> Seq<
    EntryView,
> {
    rows.map_values(
        |e: EntryView|
            if e.key == key {
                EntryView { key: e.key, value: value, note: e.note }
            } else {
                e
            },
    )
}

/// `rows` with the note of every row with `key` replaced by `note`.
pub open spec fn with_note(rows: Seq<EntryView>, key: Seq<char>, note: Seq<char>) -> Seq<
    EntryView,
> {
    rows.map_values(
        |e: EntryView|
            if e.key == key {
                EntryView { key: e.key, value: e.value, note: note }
            } else {
                e
            },
    )
}

/// `rows` without the rows with `key`.
pub open spec fn without_key(rows: Seq<EntryView>, key: Seq<char>) -> Seq<EntryView> {
    rows.filter(|e: EntryView| e.key != key)
}

/// The table after a statement has run on it.
pub open spec fn effect(rows: Seq<EntryView>, statement: StatementView) -> Seq<EntryView> {
    match statement {
        StatementView::CreateTable => rows,
        StatementView::Insert { key, value, note } => rows.push(
            EntryView { key: key, value: value, note: note },
        ),
        StatementView::UpdateValue { key, value } => with_value(rows, key, value),
        StatementView::UpdateNote { key, note } => with_note(rows, key, note),
        StatementView::Delete { key } => without_key(rows, key),
    }
}

/// The statement by which `set` stores `value` under `key`: an update of the
/// rows that have the key, or else the insertion of a new row without a note.
pub open spec fn set_statement(
    rows: Seq<EntryView>,
    key: Seq<char>,
    value: Seq<char>,
) -> StatementView {
    if has_key(rows, key) {
        StatementView::UpdateValue { key: key, value: value }
    } else {
        StatementView::Insert { key: key, value: value, note: Seq::empty() }
    }
}

/// The key whose rows a statement writes, if it writes any.
pub open spec fn written_key(statement: StatementView) -> Option<Seq<char>> {
    match statement {
        StatementView::CreateTable => None,
        StatementView::Insert { key, .. } => Some(key),
        StatementView::UpdateValue { key, .. } => Some(key),
        StatementView::UpdateNote { key, .. } => Some(key),
        StatementView::Delete { key } => Some(key),
    }
}

/// The rows that a query yields.
pub open spec fn selected(rows: Seq<EntryView>, query: QueryView) -> Seq<EntryView> {
    match query {
        QueryView::All => rows,
        QueryView::ByKey { key } => matching(rows, key),
    }
}

/// Whether no two rows share a key.
pub open spec fn distinct_keys(rows: Seq<EntryView>) -> bool {
    forall|i: int, j: int|
        0 <= i < j < rows.len() ==> (#[trigger] rows[i]).key != (#[trigger] rows[j]).key
}

/// A row with `key` that no earlier row with `key` precedes is the first match.
pub proof fn lemma_first_match_at(rows: Seq<EntryView>, key: Seq<char>, i: int)
    requires
        0 <= i < rows.len(),
        rows[i].key == key,
        forall|j: int| 0 <= j < i ==> (#[trigger] rows[j]).key != key,
    ensures
        first_match(rows, key) == Some(rows[i]),
    decreases rows.len(),
{
    if i > 0 {
        assert(rows[0].key != key);
        let rest = rows.drop_first();
        assert forall|j: int| 0 <= j < i - 1 implies (#[trigger] rest[j]).key != key by {
            assert(rest[j] == rows[j + 1]);
        }
        lemma_first_match_at(rest, key, i - 1);
    }
}

/// There is a first match exactly when some row has the key, and it has the key.
pub proof fn lemma_first_match_has_key(rows: Seq<EntryView>, key: Seq<char>)
    ensures
        first_match(rows, key) is Some <==> has_key(rows, key),
        first_match(rows, key) matches Some(e) ==> e.key == key && rows.contains(e),
    decreases rows.len(),
{
    if rows.len() == 0 {
    } else if rows.first().key == key {
        assert(rows[0].key == key);
        assert(rows.contains(rows[0]));
    } else {
        let rest = rows.drop_first();
        lemma_first_match_has_key(rest, key);
        if has_key(rest, key) {
            let i = choose|i: int| 0 <= i < rest.len() && (#[trigger] rest[i]).key == key;
            assert(rows[i + 1] == rest[i]);
        }
        if has_key(rows, key) {
            let i = choose|i: int| 0 <= i < rows.len() && (#[trigger] rows[i]).key == key;
            assert(rest[i - 1] == rows[i]);
        }
        if let Some(e) = first_match(rest, key) {
            let i = choose|i: int| 0 <= i < rest.len() && rest[i] == e;
            assert(rows[i + 1] == e);
        }
    }
}

/// Filtering one row more either appends that row or changes nothing.
pub proof fn lemma_filter_step<A>(s: Seq<A>, keep: spec_fn(A) -> bool, i: int)
    requires
        0 <= i < s.len(),
    ensures
        s.take(i + 1).filter(keep) == if keep(s[i]) {
            s.take(i).filter(keep).push(s[i])
        } else {
            s.take(i).filter(keep)
        },
{
    reveal(Seq::filter);
    assert(s.take(i + 1).drop_last() =~= s.take(i));
}

/// Some row has `key` exactly when the rows with `key` are not empty.
pub proof fn lemma_has_key_matching(rows: Seq<EntryView>, key: Seq<char>)
    ensures
        has_key(rows, key) <==> matching(rows, key).len() > 0,
{
    let same = |e: EntryView| e.key == key;
    let found = rows.filter(same);
    if has_key(rows, key) {
        let i = choose|i: int| 0 <= i < rows.len() && (#[trigger] rows[i]).key == key;
        rows.lemma_filter_contains(same, i);
        assert(found.contains(rows[i]));
    }
    if found.len() > 0 {
        rows.lemma_filter_pred(same, 0);
        assert(found.contains(found[0]));
        rows.lemma_filter_contains_rev(same, found[0]);
        let i = choose|i: int| 0 <= i < rows.len() && rows[i] == found[0];
        assert(rows[i].key == key);
    }
}

/// The first row with `key` is the first of the rows with `key`.
pub proof fn lemma_first_match_matching(rows: Seq<EntryView>, key: Seq<char>)
    ensures
        first_match(matching(rows, key), key) == first_match(rows, key),
    decreases rows.len(),
{
    let same = |e: EntryView| e.key == key;
    if rows.len() == 0 {
        rows.lemma_filter_len(same);
    } else {
        let rest = rows.drop_first();
        assert(rows =~= seq![rows.first()] + rest);
        rest.lemma_filter_prepend(rows.first(), same);
        lemma_first_match_matching(rest, key);
        if rows.first().key == key {
            assert(matching(rows, key) =~= seq![rows.first()] + matching(rest, key));
            assert(matching(rows, key).first() == rows.first());
        } else {
            assert(matching(rows, key) =~= matching(rest, key));
        }
    }
}

/// A query for the rows with `key` yields a row with `key` exactly when the
/// table has one.
pub proof fn lemma_has_key_of_matching(rows: Seq<EntryView>, key: Seq<char>)
    ensures
        has_key(matching(rows, key), key) <==> has_key(rows, key),
{
    lemma_first_match_matching(rows, key);
    lemma_first_match_has_key(rows, key);
    lemma_first_match_has_key(matching(rows, key), key);
}

/// Replacing values reaches exactly the rows with `key`, and leaves their
/// number as it was.
pub proof fn lemma_matching_with_value(rows: Seq<EntryView>, key: Seq<char>, value: Seq<char>)
    ensures
        matching(with_value(rows, key, value), key) == with_value(
            matching(rows, key),
            key,
            value,
        ),
    decreases rows.len(),
{
    reveal(Seq::filter);
    let changed = with_value(rows, key, value);
    if rows.len() == 0 {
        assert(matching(changed, key) =~= with_value(matching(rows, key), key, value));
    } else {
        let front = rows.drop_last();
        lemma_matching_with_value(front, key, value);
        assert(changed.drop_last() =~= with_value(front, key, value));
        assert(changed.last().key == rows.last().key);
        assert(matching(changed, key) =~= with_value(matching(rows, key), key, value));
    }
}

/// The rows that a filter keeps of rows with distinct keys have distinct keys.
pub proof fn lemma_filter_keeps_keys_distinct(
    rows: Seq<EntryView>,
    keep: spec_fn(EntryView) -> bool,
)
    requires
        distinct_keys(rows),
    ensures
        distinct_keys(rows.filter(keep)),
    decreases rows.len(),
{
    reveal(Seq::filter);
    if rows.len() > 0 {
        let front = rows.drop_last();
        assert forall|i: int, j: int| 0 <= i < j < front.len() implies (#[trigger] front[i]).key
            != (#[trigger] front[j]).key by {
            assert(front[i] == rows[i] && front[j] == rows[j]);
        }
        lemma_filter_keeps_keys_distinct(front, keep);
        let kept = front.filter(keep);
        if keep(rows.last()) {
            let out = kept.push(rows.last());
            assert forall|i: int, j: int| 0 <= i < j < out.len() implies (#[trigger] out[i]).key
                != (#[trigger] out[j]).key by {
                if j < kept.len() {
                    assert(out[i] == kept[i] && out[j] == kept[j]);
                } else {
                    assert(kept.contains(kept[i]));
                    front.lemma_filter_contains_rev(keep, kept[i]);
                    let k = choose|k: int| 0 <= k < front.len() && front[k] == kept[i];
                    assert(rows[k] == kept[i]);
                    assert(rows[k].key != rows[rows.len() - 1].key);
                }
            }
        }
    }
}

/// Among rows with distinct keys at most one has a given key.
pub proof fn lemma_distinct_keys_match_once(rows: Seq<EntryView>, key: Seq<char>)
    requires
        distinct_keys(rows),
    ensures
        matching(rows, key).len() <= 1,
    decreases rows.len(),
{
    reveal(Seq::filter);
    if rows.len() > 0 {
        let front = rows.drop_last();
        assert forall|i: int, j: int| 0 <= i < j < front.len() implies (#[trigger] front[i]).key
            != (#[trigger] front[j]).key by {
            assert(front[i] == rows[i] && front[j] == rows[j]);
        }
        lemma_distinct_keys_match_once(front, key);
        if rows.last().key == key {
            lemma_has_key_matching(front, key);
            if has_key(front, key) {
                let i = choose|i: int| 0 <= i < front.len() && (#[trigger] front[i]).key == key;
                assert(rows[i] == front[i]);
                assert(rows[i].key != rows[rows.len() - 1].key);
            }
        }
    }
}

/// What is found under a key after values have been replaced: under the key
/// of the replacement the same entry with the new value, under any other key
/// what was found before.
pub proof fn lemma_first_match_with_value(
    rows: Seq<EntryView>,
    key: Seq<char>,
    value: Seq<char>,
    sought: Seq<char>,
)
    ensures
        first_match(with_value(rows, key, value), sought) == match first_match(rows, sought) {
            Some(e) => Some(
                if sought == key {
                    EntryView { key: e.key, value: value, note: e.note }
                } else {
                    e
                },
            ),
            None => None,
        },
    decreases rows.len(),
{
    if rows.len() > 0 {
        let changed = with_value(rows, key, value);
        assert(changed.drop_first() =~= with_value(rows.drop_first(), key, value));
        assert(changed.first().key == rows.first().key);
        lemma_first_match_with_value(rows.drop_first(), key, value, sought);
    }
}

/// What is found under a key after notes have been replaced: under the key of
/// the replacement the same entry with the new note, under any other key what
/// was found before.
pub proof fn lemma_first_match_with_note(
    rows: Seq<EntryView>,
    key: Seq<char>,
    note: Seq<char>,
    sought: Seq<char>,
)
    ensures
        first_match(with_note(rows, key, note), sought) == match first_match(rows, sought) {
            Some(e) => Some(
                if sought == key {
                    EntryView { key: e.key, value: e.value, note: note }
                } else {
                    e
                },
            ),
            None => None,
        },
    decreases rows.len(),
{
    if rows.len() > 0 {
        let changed = with_note(rows, key, note);
        assert(changed.drop_first() =~= with_note(rows.drop_first(), key, note));
        assert(changed.first().key == rows.first().key);
        lemma_first_match_with_note(rows.drop_first(), key, note, sought);
    }
}

/// What is found under a key after the rows of another key have been removed
/// is what was found before.
pub proof fn lemma_first_match_without_key(rows: Seq<EntryView>, key: Seq<char>, sought: Seq<char>)
    requires
        sought != key,
    ensures
        first_match(without_key(rows, key), sought) == first_match(rows, sought),
    decreases rows.len(),
{
    let keep = |e: EntryView| e.key != key;
    if rows.len() == 0 {
        rows.lemma_filter_len(keep);
    } else {
        let rest = rows.drop_first();
        assert(rows =~= seq![rows.first()] + rest);
        rest.lemma_filter_prepend(rows.first(), keep);
        lemma_first_match_without_key(rest, key, sought);
        if rows.first().key != key {
            let kept = seq![rows.first()] + without_key(rest, key);
            assert(without_key(rows, key) =~= kept);
            assert(kept.drop_first() =~= without_key(rest, key));
        } else {
            assert(without_key(rows, key) =~= without_key(rest, key));
        }
    }
}

/// What is found under a key after a row has been appended: what was found
/// before, or else the new row if it has the key.
pub proof fn lemma_first_match_push(rows: Seq<EntryView>, added: EntryView, sought: Seq<char>)
    ensures
        first_match(rows.push(added), sought) == match first_match(rows, sought) {
            Some(e) => Some(e),
            None => if added.key == sought {
                Some(added)
            } else {
                None
            },
        },
    decreases rows.len(),
{
    let longer = rows.push(added);
    if rows.len() == 0 {
        assert(longer.drop_first() =~= Seq::<EntryView>::empty());
    } else {
        assert(longer.drop_first() =~= rows.drop_first().push(added));
        lemma_first_match_push(rows.drop_first(), added, sought);
    }
}

/// What is found under `sought` after a statement has run: the first row
/// with that key, as the statement leaves it.
pub open spec fn found_after(
    rows: Seq<EntryView>,
    statement: StatementView,
    sought: Seq<char>,
) -> Option<EntryView> {
    match statement {
        StatementView::CreateTable => first_match(rows, sought),
        StatementView::Insert { key, value, note } => match first_match(rows, sought) {
            Some(e) => Some(e),
            None => if key == sought {
                Some(EntryView { key: key, value: value, note: note })
            } else {
                None
            },
        },
        StatementView::UpdateValue { key, value } => match first_match(rows, sought) {
            Some(e) => Some(
                if sought == key {
                    EntryView { key: e.key, value: value, note: e.note }
                } else {
                    e
                },
            ),
            None => None,
        },
        StatementView::UpdateNote { key, note } => match first_match(rows, sought) {
            Some(e) => Some(
                if sought == key {
                    EntryView { key: e.key, value: e.value, note: note }
                } else {
                    e
                },
            ),
            None => None,
        },
        StatementView::Delete { key } => if sought == key {
            None
        } else {
            first_match(rows, sought)
        },
    }
}

/// After a statement, every key holds what [`found_after`] says: the key that
/// the statement writes holds the new value or note, or nothing after a
/// removal, and every other key holds what it held before.
pub proof fn lemma_found_after(rows: Seq<EntryView>, statement: StatementView, sought: Seq<char>)
    ensures
        first_match(effect(rows, statement), sought) == found_after(rows, statement, sought),
        has_key(effect(rows, statement), sought) == found_after(rows, statement, sought) is Some,
{
    match statement {
        StatementView::CreateTable => {},
        StatementView::Insert { key, value, note } => {
            lemma_first_match_push(rows, EntryView { key: key, value: value, note: note }, sought);
        },
        StatementView::UpdateValue { key, value } => {
            lemma_first_match_with_value(rows, key, value, sought);
        },
        StatementView::UpdateNote { key, note } => {
            lemma_first_match_with_note(rows, key, note, sought);
        },
        StatementView::Delete { key } => {
            if sought == key {
                let after = without_key(rows, key);
                assert forall|i: int| 0 <= i < after.len() implies (#[trigger] after[i]).key
                    != key by {
                    rows.lemma_filter_pred(|e: EntryView| e.key != key, i);
                }
                lemma_first_match_has_key(after, key);
            } else {
                lemma_first_match_without_key(rows, key, sought);
            }
        },
    }
    lemma_first_match_has_key(effect(rows, statement), sought);
}

} // verus!
