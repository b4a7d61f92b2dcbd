use actstore::statement::{Query, Statement};

fn placeholders(sql: &str) -> usize {
    sql.chars().filter(|c| *c == '?').count()
}

fn all_statements() -> Vec<Statement> {
    vec![
        Statement::CreateTable,
        Statement::Insert { key: "k".to_string(), value: "v".to_string(), note: "n".to_string() },
        Statement::UpdateValue { key: "k".to_string(), value: "v".to_string() },
        Statement::UpdateNote { key: "k".to_string(), note: "n".to_string() },
        Statement::Delete { key: "k".to_string() },
    ]
}

#[test]
fn statement_texts() {
    let texts: Vec<&str> = all_statements().iter().map(|s| s.sql()).collect();
    assert_eq!(
        texts,
        vec![
            "CREATE TABLE IF NOT EXISTS astore (key TEXT, value TEXT, note TEXT)",
            "INSERT INTO astore (key, value, note) VALUES (?, ?, ?)",
            "UPDATE astore SET value = ? WHERE key = ?",
            "UPDATE astore SET note = ? WHERE key = ?",
            "DELETE FROM astore WHERE key = ?",
        ]
    );
}

#[test]
fn statement_parameters_in_placeholder_order() {
    let parameters: Vec<Vec<String>> = all_statements().iter().map(|s| s.parameters()).collect();
    assert_eq!(
        parameters,
        vec![
            vec![],
            vec!["k".to_string(), "v".to_string(), "n".to_string()],
            vec!["v".to_string(), "k".to_string()],
            vec!["n".to_string(), "k".to_string()],
            vec!["k".to_string()],
        ]
    );
}

#[test]
fn statement_has_one_placeholder_per_parameter() {
    for statement in all_statements() {
        assert_eq!(placeholders(statement.sql()), statement.parameters().len());
    }
}

#[test]
fn statement_text_does_not_depend_on_the_data() {
    let hostile = "x'; DROP TABLE astore; --".to_string();
    let plain = Statement::Insert { key: "a".to_string(), value: "b".to_string(), note: String::new() };
    let odd = Statement::Insert { key: hostile.clone(), value: hostile.clone(), note: hostile.clone() };
    assert_eq!(plain.sql(), odd.sql());
    assert_eq!(odd.parameters(), vec![hostile.clone(), hostile.clone(), hostile.clone()]);
    let removal = Statement::Delete { key: hostile.clone() };
    assert_eq!(removal.sql(), "DELETE FROM astore WHERE key = ?");
    assert_eq!(removal.parameters(), vec![hostile]);
}

#[test]
fn query_texts_and_parameters() {
    assert_eq!(Query::All.sql(), "SELECT key, value, note FROM astore");
    assert!(Query::All.parameters().is_empty());
    let by_key = Query::ByKey { key: "it's".to_string() };
    assert_eq!(by_key.sql(), "SELECT key, value, note FROM astore WHERE key = ?");
    assert_eq!(by_key.parameters(), vec!["it's".to_string()]);
    assert_eq!(placeholders(by_key.sql()), 1);
}
