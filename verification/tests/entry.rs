use actstore::entry::Entry;

#[test]
fn new_entry_has_no_note() {
    let entry = Entry::new("foo", "hello");
    assert_eq!(entry.key, "foo");
    assert_eq!(entry.value, "hello");
    assert_eq!(entry.note, "");
    assert!(!entry.has_note());
}

#[test]
fn entry_with_note_has_note() {
    let entry = Entry::with_note("foo", "hello", "a test");
    assert_eq!(entry.note, "a test");
    assert!(entry.has_note());
}

#[test]
fn entry_with_empty_note_has_no_note() {
    assert!(!Entry::with_note("foo", "hello", "").has_note());
    assert_eq!(Entry::with_note("foo", "hello", ""), Entry::new("foo", "hello"));
}

#[test]
fn line_without_note() {
    assert_eq!(Entry::new("foo", "hello").line(), "foo: hello");
}

#[test]
fn line_with_note() {
    assert_eq!(Entry::with_note("foo", "hello", "a test").line(), "foo: hello  # a test");
}

#[test]
fn line_of_empty_fields() {
    assert_eq!(Entry::new("", "").line(), ": ");
}

#[test]
fn clone_is_equal() {
    let entry = Entry::with_note("k", "v", "n");
    assert_eq!(entry.clone(), entry);
}
