use actstore::command::{parse_command, Command};
use actstore::dispatch::{dispatch, execute, Reply};
use actstore::entry::Entry;
use actstore::error::ErrorKind;
use actstore::report::{report, Line, Role, Span};
use actstore::resolver::{ActionKind, SideEffectRequest};
use actstore::statement::{Query, Statement};
use actstore::store::EntryStore;

fn line(list: &[&str]) -> Vec<String> {
    list.iter().map(|w| w.to_string()).collect()
}

fn shown(store: &mut EntryStore, list: &[&str], editor: Option<&str>) -> Vec<String> {
    let command = parse_command(&line(list)).unwrap();
    let outcome = execute(store, &command, editor);
    report(&command, &outcome).iter().map(|l| l.text()).collect()
}

fn plain(text: &str) -> Line {
    Line { spans: vec![Span { role: Role::Plain, text: text.to_string() }] }
}

#[test]
fn end_to_end() {
    let mut store = EntryStore::new();
    store.initialize();

    assert_eq!(shown(&mut store, &["set", "foo", "hello"], None), vec!["Saved."]);
    assert_eq!(store.list(), vec![Entry { key: "foo".into(), value: "hello".into(), note: "".into() }]);

    assert_eq!(shown(&mut store, &["get", "foo"], None), vec!["foo: hello"]);

    assert_eq!(shown(&mut store, &["note", "foo", "a", "test"], None), vec!["Updating note..."]);
    assert_eq!(store.get("foo").unwrap().note, "a test");

    assert_eq!(shown(&mut store, &["get", "foo"], None), vec!["foo: hello  # a test"]);

    assert_eq!(shown(&mut store, &["delete", "foo"], None), vec!["Dropping key foo"]);
    assert!(!store.contains_key("foo"));

    let outcome = dispatch(&mut store, &line(&["get", "foo"]), None);
    assert_eq!(outcome, Err(ErrorKind::NotFound));
    assert!(shown(&mut store, &["get", "foo"], None).is_empty());
}

#[test]
fn listing_an_empty_store_shows_nothing() {
    let mut store = EntryStore::new();
    let outcome = dispatch(&mut store, &line(&["ls"]), None);
    assert_eq!(outcome, Ok(Reply::Listing(vec![])));
    assert!(report(&Command::List, &outcome).is_empty());
    store.initialize();
    assert!(shown(&mut store, &["ls"], None).is_empty());
}

#[test]
fn listing_shows_a_line_per_entry_in_order() {
    let mut store = EntryStore::new();
    store.set("b", "2");
    store.set("a", "1");
    store.set_note("a", "first letter").unwrap();
    assert_eq!(shown(&mut store, &["ls"], None), vec!["b: 2", "a: 1  # first letter"]);
    assert_eq!(
        dispatch(&mut store, &line(&["ls"]), None),
        Ok(Reply::Listing(vec![Entry::new("b", "2"), Entry::with_note("a", "1", "first letter")]))
    );
}

#[test]
fn run_asks_the_executor_for_the_stored_command() {
    let mut store = EntryStore::new();
    store.set("greet", "echo hi");
    let before = store.list();
    assert_eq!(
        dispatch(&mut store, &line(&["run", "greet"]), None),
        Ok(Reply::Action(SideEffectRequest { kind: ActionKind::Run, command: "echo hi".to_string() }))
    );
    assert_eq!(store.list(), before);
    assert!(shown(&mut store, &["run", "greet"], None).is_empty());
}

#[test]
fn open_and_edit_ask_for_their_commands() {
    let mut store = EntryStore::new();
    store.set("site", "https://example.org");
    assert_eq!(
        dispatch(&mut store, &line(&["url", "site"]), None),
        Ok(Reply::Action(SideEffectRequest {
            kind: ActionKind::Open,
            command: "xdg-open https://example.org".to_string(),
        }))
    );
    assert_eq!(
        dispatch(&mut store, &line(&["edit", "site"]), Some("vi")),
        Ok(Reply::Action(SideEffectRequest {
            kind: ActionKind::Edit,
            command: "vi https://example.org".to_string(),
        }))
    );
}

#[test]
fn edit_without_editor_fails_for_that_verb_only() {
    let mut store = EntryStore::new();
    store.set("file", "/tmp/x");
    assert_eq!(dispatch(&mut store, &line(&["edit", "file"]), None), Err(ErrorKind::Config));
    assert_eq!(
        shown(&mut store, &["edit", "file"], None),
        vec!["Missing ACT_EDITOR environment variable."]
    );
    assert_eq!(dispatch(&mut store, &line(&["edit", "nofile"]), None), Err(ErrorKind::NotFound));
    assert_eq!(dispatch(&mut store, &line(&["get", "file"]), None), Ok(Reply::Found(Entry::new("file", "/tmp/x"))));
    assert!(dispatch(&mut store, &line(&["run", "file"]), None).is_ok());
}

#[test]
fn help_and_version_leave_the_store_alone() {
    let mut store = EntryStore::new();
    assert_eq!(dispatch(&mut store, &line(&[]), None), Ok(Reply::Help));
    assert_eq!(dispatch(&mut store, &line(&["h"]), None), Ok(Reply::Help));
    assert_eq!(dispatch(&mut store, &line(&["ver"]), None), Ok(Reply::Version));
    assert!(!store.initialized());
    assert!(report(&Command::Help, &Ok(Reply::Help)).is_empty());
    assert!(report(&Command::Version, &Ok(Reply::Version)).is_empty());
}

#[test]
fn invalid_command_leaves_the_store_alone() {
    let mut store = EntryStore::new();
    store.set("k", "v");
    assert_eq!(dispatch(&mut store, &line(&["destroy", "k"]), None), Err(ErrorKind::InvalidCommand));
    assert_eq!(dispatch(&mut store, &line(&["get"]), None), Err(ErrorKind::InvalidCommand));
    assert_eq!(store.list(), vec![Entry::new("k", "v")]);
}

#[test]
fn set_reports_created_and_updated() {
    let mut store = EntryStore::new();
    assert_eq!(
        dispatch(&mut store, &line(&["set", "k", "v"]), None),
        Ok(Reply::Written(Statement::Insert { key: "k".into(), value: "v".into(), note: "".into() }))
    );
    assert_eq!(
        dispatch(&mut store, &line(&["sv", "k", "w"]), None),
        Ok(Reply::Written(Statement::UpdateValue { key: "k".into(), value: "w".into() }))
    );
    assert_eq!(shown(&mut store, &["s", "k", "x"], None), vec!["Updating existing entry..."]);
    assert_eq!(shown(&mut store, &["save", "new", "x"], None), vec!["Saved."]);
}

#[test]
fn missing_key_messages() {
    let mut store = EntryStore::new();
    assert_eq!(shown(&mut store, &["delete", "my", "key"], None), vec!["Key my key not found."]);
    assert_eq!(shown(&mut store, &["note", "missing_key", "n"], None), vec!["Entry not found"]);
    assert!(shown(&mut store, &["get", "k"], None).is_empty());
    assert!(shown(&mut store, &["open", "k"], None).is_empty());
    assert!(shown(&mut store, &["run", "k"], None).is_empty());
    assert!(shown(&mut store, &["edit", "k"], Some("vi")).is_empty());
    assert!(store.list().is_empty());
}

#[test]
fn note_on_missing_key_is_not_found() {
    let mut store = EntryStore::new();
    store.set("k", "v");
    assert_eq!(
        dispatch(&mut store, &line(&["note", "missing_key", "n"]), None),
        Err(ErrorKind::NotFound)
    );
    assert_eq!(store.list(), vec![Entry::new("k", "v")]);
}

#[test]
fn entry_line_has_a_role_for_each_part() {
    assert_eq!(
        Line::of_entry(&Entry::new("k", "v")),
        Line {
            spans: vec![
                Span { role: Role::Key, text: "k".to_string() },
                Span { role: Role::Plain, text: ": ".to_string() },
                Span { role: Role::Value, text: "v".to_string() },
            ]
        }
    );
    assert_eq!(
        Line::of_entry(&Entry::with_note("k", "v", "n")),
        Line {
            spans: vec![
                Span { role: Role::Key, text: "k".to_string() },
                Span { role: Role::Plain, text: ": ".to_string() },
                Span { role: Role::Value, text: "v".to_string() },
                Span { role: Role::Plain, text: "  # ".to_string() },
                Span { role: Role::Note, text: "n".to_string() },
            ]
        }
    );
}

#[test]
fn line_text_is_the_entry_line() {
    for entry in [Entry::new("k", "v"), Entry::with_note("k", "v", "n"), Entry::new("", "")] {
        assert_eq!(Line::of_entry(&entry).text(), entry.line());
    }
    assert_eq!(Line { spans: vec![] }.text(), "");
}

#[test]
fn report_of_each_kind_of_write() {
    let command = Command::List;
    let written = |statement: Statement| report(&command, &Ok(Reply::Written(statement)));
    assert!(written(Statement::CreateTable).is_empty());
    assert_eq!(
        written(Statement::Insert { key: "k".into(), value: "v".into(), note: "".into() }),
        vec![plain("Saved.")]
    );
    assert_eq!(
        written(Statement::UpdateValue { key: "k".into(), value: "v".into() }),
        vec![plain("Updating existing entry...")]
    );
    assert_eq!(
        written(Statement::UpdateNote { key: "k".into(), note: "n".into() }),
        vec![plain("Updating note...")]
    );
    assert_eq!(written(Statement::Delete { key: "k".into() }), vec![plain("Dropping key k")]);
}

#[test]
fn report_of_errors() {
    let get = Command::Get { key: "k".into() };
    assert_eq!(report(&get, &Err(ErrorKind::InvalidCommand)), vec![plain("error: invalid command")]);
    assert_eq!(
        report(&get, &Err(ErrorKind::Config)),
        vec![plain("Missing ACT_EDITOR environment variable.")]
    );
    assert!(report(&get, &Err(ErrorKind::NotFound)).is_empty());
}

#[test]
fn outcome_on_queried_rows_is_the_outcome_on_the_table() {
    let rows = || {
        vec![
            Entry::new("a", "1"),
            Entry::with_note("b", "2", "two"),
            Entry::new("a", "3"),
            Entry::new("c", "echo hi"),
        ]
    };
    let lines: Vec<Vec<&str>> = vec![
        vec!["get", "a"],
        vec!["get", "zzz"],
        vec!["set", "a", "new"],
        vec!["set", "zzz", "new"],
        vec!["note", "b", "n"],
        vec!["note", "zzz", "n"],
        vec!["delete", "a"],
        vec!["delete", "zzz"],
        vec!["run", "c"],
        vec!["open", "b"],
        vec!["edit", "a"],
        vec!["ls"],
    ];
    for words in lines {
        let command = parse_command(&line(&words)).unwrap();
        let queried: Vec<Entry> = match command.query() {
            Some(Query::All) => rows(),
            Some(Query::ByKey { key }) => rows().into_iter().filter(|e| e.key == key).collect(),
            None => vec![],
        };
        let on_table = execute(&mut EntryStore::from_rows(rows()), &command, Some("vi"));
        let on_queried = execute(&mut EntryStore::from_rows(queried), &command, Some("vi"));
        assert_eq!(on_table, on_queried);
    }
}
