use vocab_api::controllers::{CollectionsController, WordsController};
use vocab_api::error::ApiError;
use vocab_api::store::{first_row, updated_row};
use vocab_api::value::{bind_value, Param, Value};

fn text(s: &str) -> Value {
    Value::Text(s.to_string())
}

fn word_payload() -> Vec<(String, Value)> {
    vec![
        ("word".to_string(), text("hus")),
        ("translation".to_string(), text("house")),
        ("image".to_string(), text("")),
        ("audio".to_string(), text("")),
    ]
}

fn param_text(p: &Param) -> Option<String> {
    match p {
        Param::Text(s) => Some(s.clone()),
        _ => None,
    }
}

#[test]
fn word_insert_binds_each_field_in_order() {
    let c = WordsController::new();
    let st = c.table.insert(word_payload()).unwrap();
    assert_eq!(st.sql, "INSERT INTO words (word, translation, image, audio) VALUES (?, ?, ?, ?)");
    let texts: Vec<Option<String>> = st.params.iter().map(param_text).collect();
    assert_eq!(
        texts,
        vec![
            Some("hus".to_string()),
            Some("house".to_string()),
            Some("".to_string()),
            Some("".to_string())
        ]
    );
}

#[test]
fn word_update_binds_id_last() {
    let c = WordsController::new();
    let fields = vec![("translation".to_string(), text("home")), ("image".to_string(), Value::Null)];
    let st = c.table.update(9, fields).unwrap();
    assert_eq!(st.sql, "UPDATE words SET translation = ?, image = ? WHERE id = ?");
    assert_eq!(st.params.len(), 3);
    assert!(matches!(&st.params[0], Param::Text(s) if s == "home"));
    assert!(matches!(&st.params[1], Param::Json(Value::Null)));
    assert!(matches!(&st.params[2], Param::Id(9)));
}

#[test]
fn unknown_column_is_rejected() {
    let c = WordsController::new();
    let fields = vec![("word; DROP TABLE words".to_string(), text("x"))];
    assert_eq!(c.table.insert(fields).unwrap_err(), ApiError::Validation);
    let fields = vec![("id".to_string(), Value::Integer(3))];
    assert_eq!(c.table.update(1, fields).unwrap_err(), ApiError::Validation);
}

#[test]
fn empty_payload_is_rejected() {
    let c = WordsController::new();
    assert_eq!(c.table.insert(vec![]).unwrap_err(), ApiError::Validation);
    assert_eq!(c.table.update(1, vec![]).unwrap_err(), ApiError::Validation);
}

#[test]
fn select_and_delete_statements() {
    let c = WordsController::new();
    assert_eq!(c.table.select_all().sql, "SELECT * FROM words");
    let one = c.table.select_one(4);
    assert_eq!(one.sql, "SELECT * FROM words WHERE id = ?");
    assert!(matches!(one.params[0], Param::Id(4)));
    let del = c.table.delete(4);
    assert_eq!(del.sql, "DELETE FROM words WHERE id = ?");
    let cd = CollectionsController::new().table.delete(2);
    assert_eq!(cd.sql, "DELETE FROM collections WHERE id = ?");
}

#[test]
fn bind_rule_by_kind() {
    assert!(matches!(bind_value(text("a")), Param::Text(s) if s == "a"));
    assert!(matches!(bind_value(Value::Integer(5)), Param::Json(Value::Integer(5))));
    assert!(matches!(bind_value(Value::Bool(true)), Param::Json(Value::Bool(true))));
    assert!(matches!(bind_value(Value::Array(vec![])), Param::Json(Value::Array(_))));
}

#[test]
fn get_one_on_missing_id_is_not_found() {
    let rows: Vec<i64> = vec![];
    assert_eq!(first_row(rows), Err(ApiError::NotFound));
    assert_eq!(first_row(vec![7i64, 8]), Ok(7));
}

#[test]
fn update_of_missing_row_is_not_found() {
    assert_eq!(updated_row(5, 0), Err(ApiError::NotFound));
    assert_eq!(updated_row(5, 1), Ok(5));
}

#[test]
fn error_status_codes() {
    assert_eq!(ApiError::NotFound.status_code(), 404);
    assert_eq!(ApiError::Validation.status_code(), 400);
    assert_eq!(ApiError::Store.status_code(), 500);
    assert_eq!(ApiError::Upstream.status_code(), 502);
}

#[test]
fn random_word_statement_binds_collection() {
    let st = WordsController::new().get_random_word(3);
    assert!(st.sql.contains("ORDER BY RANDOM() LIMIT 1"));
    assert!(matches!(st.params[0], Param::Id(3)));
}
