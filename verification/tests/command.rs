use actstore::command::{parse_command, parse_verb, Command, Verb};
use actstore::error::ErrorKind;
use actstore::statement::Query;

fn line(list: &[&str]) -> Vec<String> {
    list.iter().map(|w| w.to_string()).collect()
}

fn key(text: &str) -> String {
    text.to_string()
}

#[test]
fn verb_aliases() {
    let table: Vec<(Verb, Vec<&str>)> = vec![
        (Verb::Help, vec!["help", "h"]),
        (Verb::Version, vec!["version", "ver", "v"]),
        (Verb::List, vec!["ls"]),
        (Verb::Delete, vec!["delete", "del", "d", "unset", "rm", "remove", "rem"]),
        (Verb::Note, vec!["note"]),
        (Verb::Save, vec!["set", "save", "sv", "s"]),
        (Verb::Get, vec!["get", "show", "g"]),
        (Verb::Open, vec!["open", "url"]),
        (Verb::Run, vec!["run"]),
        (Verb::Edit, vec!["edit"]),
    ];
    for (verb, aliases) in table {
        for alias in aliases {
            assert_eq!(parse_verb(alias), Some(verb));
        }
    }
}

#[test]
fn words_that_are_no_verbs() {
    for word in ["", "list", "Help", "SET", "set ", " get", "gets", "e", "r", "o", "n", "l", "--help", "-h"] {
        assert_eq!(parse_verb(word), None);
    }
}

#[test]
fn no_words_ask_for_help() {
    assert_eq!(parse_command(&line(&[])), Ok(Command::Help));
}

#[test]
fn bare_verbs() {
    assert_eq!(parse_command(&line(&["help"])), Ok(Command::Help));
    assert_eq!(parse_command(&line(&["h"])), Ok(Command::Help));
    assert_eq!(parse_command(&line(&["version"])), Ok(Command::Version));
    assert_eq!(parse_command(&line(&["v"])), Ok(Command::Version));
    assert_eq!(parse_command(&line(&["ls"])), Ok(Command::List));
}

#[test]
fn verbs_that_need_a_key_are_invalid_alone() {
    for verb in ["delete", "note", "set", "get", "open", "run", "edit", "rm", "s", "g", "url"] {
        assert_eq!(parse_command(&line(&[verb])), Err(ErrorKind::InvalidCommand));
    }
}

#[test]
fn verbs_without_arguments_are_invalid_with_some() {
    for verb in ["help", "h", "version", "ver", "v", "ls"] {
        assert_eq!(parse_command(&line(&[verb, "x"])), Err(ErrorKind::InvalidCommand));
    }
}

#[test]
fn unknown_verb_is_invalid() {
    assert_eq!(parse_command(&line(&["frobnicate"])), Err(ErrorKind::InvalidCommand));
    assert_eq!(parse_command(&line(&["frobnicate", "a", "b"])), Err(ErrorKind::InvalidCommand));
    assert_eq!(parse_command(&line(&[""])), Err(ErrorKind::InvalidCommand));
}

#[test]
fn set_splits_key_from_value() {
    assert_eq!(
        parse_command(&line(&["set", "foo", "hello"])),
        Ok(Command::Save { key: key("foo"), value: key("hello") })
    );
    assert_eq!(
        parse_command(&line(&["save", "mykey", "some", "value", "here"])),
        Ok(Command::Save { key: key("mykey"), value: key("some value here") })
    );
    assert_eq!(
        parse_command(&line(&["s", "mykey some", "value"])),
        Ok(Command::Save { key: key("mykey"), value: key("some value") })
    );
}

#[test]
fn set_with_a_key_alone_has_an_empty_value() {
    assert_eq!(
        parse_command(&line(&["set", "onlykey"])),
        Ok(Command::Save { key: key("onlykey"), value: key("") })
    );
    assert_eq!(
        parse_command(&line(&["note", "onlykey"])),
        Ok(Command::Note { key: key("onlykey"), note: key("") })
    );
}

#[test]
fn note_splits_key_from_note() {
    assert_eq!(
        parse_command(&line(&["note", "foo", "a", "test"])),
        Ok(Command::Note { key: key("foo"), note: key("a test") })
    );
}

#[test]
fn value_keeps_inner_whitespace_but_not_leading() {
    assert_eq!(
        parse_command(&line(&["set", "k", "", " a  b "])),
        Ok(Command::Save { key: key("k"), value: key("a  b ") })
    );
}

#[test]
fn key_verbs_take_all_words_as_the_key() {
    assert_eq!(parse_command(&line(&["get", "foo"])), Ok(Command::Get { key: key("foo") }));
    assert_eq!(parse_command(&line(&["show", "a", "b"])), Ok(Command::Get { key: key("a b") }));
    assert_eq!(parse_command(&line(&["rm", "a", "b", "c"])), Ok(Command::Delete { key: key("a b c") }));
    assert_eq!(parse_command(&line(&["open", "site"])), Ok(Command::Open { key: key("site") }));
    assert_eq!(parse_command(&line(&["url", "site"])), Ok(Command::Open { key: key("site") }));
    assert_eq!(parse_command(&line(&["run", "job"])), Ok(Command::Run { key: key("job") }));
    assert_eq!(parse_command(&line(&["edit", "file"])), Ok(Command::Edit { key: key("file") }));
}

#[test]
fn every_delete_alias_deletes() {
    for verb in ["delete", "del", "d", "unset", "rm", "remove", "rem"] {
        assert_eq!(parse_command(&line(&[verb, "k"])), Ok(Command::Delete { key: key("k") }));
    }
}

#[test]
fn command_verbs() {
    assert_eq!(Command::Help.verb(), Verb::Help);
    assert_eq!(Command::Version.verb(), Verb::Version);
    assert_eq!(Command::List.verb(), Verb::List);
    assert_eq!(Command::Delete { key: key("k") }.verb(), Verb::Delete);
    assert_eq!(Command::Note { key: key("k"), note: key("n") }.verb(), Verb::Note);
    assert_eq!(Command::Save { key: key("k"), value: key("v") }.verb(), Verb::Save);
    assert_eq!(Command::Get { key: key("k") }.verb(), Verb::Get);
    assert_eq!(Command::Open { key: key("k") }.verb(), Verb::Open);
    assert_eq!(Command::Run { key: key("k") }.verb(), Verb::Run);
    assert_eq!(Command::Edit { key: key("k") }.verb(), Verb::Edit);
}

#[test]
fn command_queries() {
    assert_eq!(Command::Help.query(), None);
    assert_eq!(Command::Version.query(), None);
    assert_eq!(Command::List.query(), Some(Query::All));
    let by_key = Some(Query::ByKey { key: key("k") });
    assert_eq!(Command::Delete { key: key("k") }.query(), by_key);
    assert_eq!(Command::Note { key: key("k"), note: key("n") }.query(), by_key);
    assert_eq!(Command::Save { key: key("k"), value: key("v") }.query(), by_key);
    assert_eq!(Command::Get { key: key("k") }.query(), by_key);
    assert_eq!(Command::Open { key: key("k") }.query(), by_key);
    assert_eq!(Command::Run { key: key("k") }.query(), by_key);
    assert_eq!(Command::Edit { key: key("k") }.query(), by_key);
}
