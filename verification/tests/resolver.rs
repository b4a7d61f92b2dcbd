use actstore::error::ErrorKind;
use actstore::resolver::{resolve_edit, resolve_open, resolve_run, ActionKind, SideEffectRequest};
use actstore::store::EntryStore;

fn store_with(key: &str, value: &str) -> EntryStore {
    let mut store = EntryStore::new();
    store.set(key, value);
    store
}

#[test]
fn run_takes_the_value_as_the_command() {
    let store = store_with("greet", "echo hi");
    assert_eq!(
        resolve_run(&store, "greet"),
        Ok(SideEffectRequest { kind: ActionKind::Run, command: "echo hi".to_string() })
    );
}

#[test]
fn run_does_not_touch_the_value() {
    let store = store_with("k", "  ls -l | grep 'a b'  ");
    assert_eq!(resolve_run(&store, "k").unwrap().command, "  ls -l | grep 'a b'  ");
}

#[test]
fn open_hands_the_value_to_the_opener() {
    let store = store_with("site", "https://example.org/a b");
    assert_eq!(
        resolve_open(&store, "site"),
        Ok(SideEffectRequest {
            kind: ActionKind::Open,
            command: "xdg-open https://example.org/a b".to_string(),
        })
    );
}

#[test]
fn edit_puts_the_editor_before_the_value() {
    let store = store_with("notes", "/tmp/notes.txt");
    assert_eq!(
        resolve_edit(&store, "notes", Some("vim")),
        Ok(SideEffectRequest { kind: ActionKind::Edit, command: "vim /tmp/notes.txt".to_string() })
    );
}

#[test]
fn edit_without_editor_is_a_config_error() {
    let store = store_with("notes", "/tmp/notes.txt");
    assert_eq!(resolve_edit(&store, "notes", None), Err(ErrorKind::Config));
}

#[test]
fn missing_key_is_not_found() {
    let store = store_with("k", "v");
    assert_eq!(resolve_open(&store, "missing"), Err(ErrorKind::NotFound));
    assert_eq!(resolve_run(&store, "missing"), Err(ErrorKind::NotFound));
    assert_eq!(resolve_edit(&store, "missing", Some("vim")), Err(ErrorKind::NotFound));
}

#[test]
fn missing_key_comes_before_missing_editor() {
    let store = store_with("k", "v");
    assert_eq!(resolve_edit(&store, "missing", None), Err(ErrorKind::NotFound));
    assert_eq!(resolve_edit(&EntryStore::new(), "k", None), Err(ErrorKind::NotFound));
}

#[test]
fn resolving_leaves_the_store_alone() {
    let store = store_with("k", "echo hi");
    let before = store.list();
    let _ = resolve_open(&store, "k");
    let _ = resolve_run(&store, "k");
    let _ = resolve_edit(&store, "k", Some("ed"));
    let _ = resolve_edit(&store, "k", None);
    assert_eq!(store.list(), before);
}

#[test]
fn resolving_an_empty_value() {
    let store = store_with("k", "");
    assert_eq!(resolve_run(&store, "k").unwrap().command, "");
    assert_eq!(resolve_open(&store, "k").unwrap().command, "xdg-open ");
    assert_eq!(resolve_edit(&store, "k", Some("nano")).unwrap().command, "nano ");
}
