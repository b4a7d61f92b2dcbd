use actstore::command::parse_command;
use actstore::dispatch::{execute, Reply};
use actstore::entry::Entry;
use actstore::statement::{Query, Statement};
use actstore::store::EntryStore;

fn words(list: &[&str]) -> Vec<String> {
    list.iter().map(|w| w.to_string()).collect()
}

fn run_statement(connection: &sqlite::Connection, statement: &Statement) {
    let mut prepared = connection.prepare(statement.sql()).unwrap();
    for (index, value) in statement.parameters().iter().enumerate() {
        prepared.bind((index + 1, value.as_str())).unwrap();
    }
    while prepared.next().unwrap() == sqlite::State::Row {}
}

fn run_query(connection: &sqlite::Connection, query: &Query) -> Vec<Entry> {
    let mut prepared = connection.prepare(query.sql()).unwrap();
    for (index, value) in query.parameters().iter().enumerate() {
        prepared.bind((index + 1, value.as_str())).unwrap();
    }
    let mut rows = Vec::new();
    while prepared.next().unwrap() == sqlite::State::Row {
        rows.push(Entry {
            key: prepared.read::<String, _>(0).unwrap(),
            value: prepared.read::<String, _>(1).unwrap(),
            note: prepared.read::<String, _>(2).unwrap(),
        });
    }
    rows
}

#[test]
fn statements_do_to_the_table_what_they_do_to_the_store() {
    let connection = sqlite::open(":memory:").unwrap();
    let mut store = EntryStore::new();
    let statements = vec![
        Statement::CreateTable,
        Statement::Insert { key: "a".into(), value: "1".into(), note: "".into() },
        Statement::Insert { key: "b".into(), value: "2".into(), note: "two".into() },
        Statement::Insert { key: "a".into(), value: "3".into(), note: "".into() },
        Statement::CreateTable,
        Statement::UpdateValue { key: "a".into(), value: "it's \"quoted\"; --".into() },
        Statement::UpdateNote { key: "b".into(), note: "".into() },
        Statement::UpdateNote { key: "a".into(), note: "both rows".into() },
        Statement::UpdateValue { key: "absent".into(), value: "x".into() },
        Statement::Delete { key: "absent".into() },
        Statement::Delete { key: "a".into() },
        Statement::Insert { key: "c'); DROP TABLE astore; --".into(), value: "v".into(), note: "".into() },
        Statement::Delete { key: "b".into() },
    ];
    for statement in &statements {
        run_statement(&connection, statement);
        store.apply(statement);
        assert_eq!(run_query(&connection, &Query::All), store.list());
    }
    assert_eq!(store.list(), vec![Entry::new("c'); DROP TABLE astore; --", "v")]);
}

#[test]
fn keyed_query_yields_the_rows_with_the_key_in_order() {
    let connection = sqlite::open(":memory:").unwrap();
    run_statement(&connection, &Statement::CreateTable);
    for (key, value) in [("a", "1"), ("b", "2"), ("a", "3"), ("A", "4"), ("a ", "5")] {
        run_statement(
            &connection,
            &Statement::Insert { key: key.into(), value: value.into(), note: "".into() },
        );
    }
    assert_eq!(
        run_query(&connection, &Query::ByKey { key: "a".into() }),
        vec![Entry::new("a", "1"), Entry::new("a", "3")]
    );
    assert!(run_query(&connection, &Query::ByKey { key: "missing".into() }).is_empty());
    assert_eq!(run_query(&connection, &Query::All).len(), 5);
}

#[test]
fn commands_against_a_real_table() {
    let connection = sqlite::open(":memory:").unwrap();
    run_statement(&connection, &EntryStore::new().initialize());
    let lines: Vec<Vec<&str>> = vec![
        vec!["set", "foo", "hello"],
        vec!["note", "foo", "a", "test"],
        vec!["set", "bar", "echo", "hi"],
        vec!["set", "foo", "bye"],
        vec!["delete", "bar"],
        vec!["delete", "bar"],
        vec!["note", "bar", "gone"],
    ];
    for line in lines {
        let command = parse_command(&words(&line)).unwrap();
        let rows = run_query(&connection, &command.query().unwrap());
        let mut store = EntryStore::from_rows(rows);
        if let Ok(Reply::Written(statement)) = execute(&mut store, &command, None) {
            run_statement(&connection, &statement);
        }
    }
    assert_eq!(
        run_query(&connection, &Query::All),
        vec![Entry::with_note("foo", "bye", "a test")]
    );
}
