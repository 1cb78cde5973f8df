use vocab_api::assemble::{collect_collections, JoinRow};
use vocab_api::assoc::{desired_word_ids, plan_create, plan_update, word_ref_id};
use vocab_api::controllers::{split_words, word_ids, CollectionsController};
use vocab_api::error::ApiError;
use vocab_api::model::Word;
use vocab_api::value::{Param, Value};

fn word(id: i64, w: &str) -> Word {
    Word {
        id,
        word: w.to_string(),
        translation: format!("{}-t", w),
        image: String::new(),
        audio: String::new(),
    }
}

fn row(id: i64, name: &str, w: Option<Word>) -> JoinRow {
    JoinRow { id, name: name.to_string(), description: format!("{} d", name), word: w }
}

fn apply(current: &[i64], inserts: &[i64], deletes: &[i64]) -> Vec<i64> {
    let mut s: Vec<i64> = current.iter().copied().filter(|x| !deletes.contains(x)).collect();
    s.extend_from_slice(inserts);
    s.sort();
    s
}

#[test]
fn assembler_groups_rows_by_collection() {
    let rows = vec![
        row(1, "a", Some(word(10, "A"))),
        row(1, "a", Some(word(11, "B"))),
        row(2, "b", Some(word(12, "C"))),
    ];
    let cs = collect_collections(rows);
    assert_eq!(cs.len(), 2);
    assert_eq!(cs[0].id, 1);
    assert_eq!(cs[0].name, "a");
    let first: Vec<&str> = cs[0].words.iter().map(|w| w.word.as_str()).collect();
    assert_eq!(first, vec!["A", "B"]);
    assert_eq!(cs[1].id, 2);
    let second: Vec<&str> = cs[1].words.iter().map(|w| w.word.as_str()).collect();
    assert_eq!(second, vec!["C"]);
}

#[test]
fn assembler_keeps_first_seen_order_and_skips_null_words() {
    let rows = vec![
        row(3, "c", None),
        row(1, "a", Some(word(10, "A"))),
        row(3, "c", Some(word(11, "B"))),
    ];
    let cs = collect_collections(rows);
    assert_eq!(cs.iter().map(|c| c.id).collect::<Vec<_>>(), vec![3, 1]);
    assert_eq!(cs[0].words.len(), 1);
    assert_eq!(cs[0].words[0].id, 11);
    assert!(collect_collections(vec![]).is_empty());
    let lone = collect_collections(vec![row(5, "e", None)]);
    assert_eq!(lone.len(), 1);
    assert!(lone[0].words.is_empty());
}

#[test]
fn duplicate_desired_ids_link_once() {
    let ids = desired_word_ids(&vec![Value::Integer(5), Value::Integer(5), Value::Integer(7)]).unwrap();
    assert_eq!(ids, vec![5, 7]);
    assert_eq!(plan_create(&vec![5, 5, 7]), vec![5, 7]);
    let plan = plan_update(&vec![], &vec![5, 5, 7]);
    assert_eq!(plan.inserts, vec![5, 7]);
    assert!(plan.deletes.is_empty());
}

#[test]
fn word_references_by_id_or_object() {
    assert_eq!(word_ref_id(&Value::Integer(4)), Some(4));
    let obj = Value::Object(vec![
        ("word".to_string(), Value::Text("hus".to_string())),
        ("id".to_string(), Value::Integer(9)),
    ]);
    assert_eq!(word_ref_id(&obj), Some(9));
    assert_eq!(word_ref_id(&Value::Text("9".to_string())), None);
    let bad = vec![Value::Integer(1), Value::Object(vec![])];
    assert_eq!(desired_word_ids(&bad), Err(ApiError::Validation));
}

#[test]
fn update_reaches_desired_set() {
    let current = vec![1, 2, 3];
    let desired = vec![3, 4, 2, 5];
    let plan = plan_update(&current, &desired);
    assert_eq!(plan.inserts, vec![4, 5]);
    assert_eq!(plan.deletes, vec![1]);
    assert_eq!(apply(&current, &plan.inserts, &plan.deletes), vec![2, 3, 4, 5]);
}

#[test]
fn same_update_twice_changes_nothing() {
    let current = vec![1, 2];
    let desired = vec![2, 6, 6];
    let first = plan_update(&current, &desired);
    let after = apply(&current, &first.inserts, &first.deletes);
    assert_eq!(after, vec![2, 6]);
    let second = plan_update(&after, &desired);
    assert!(second.inserts.is_empty());
    assert!(second.deletes.is_empty());
}

#[test]
fn missing_words_key_leaves_links_and_empty_list_clears_them() {
    let c = CollectionsController::new();
    let fields = vec![("name".to_string(), Value::Text("n".to_string()))];
    let up = c.update(1, fields).unwrap();
    assert!(up.words.is_none());
    assert_eq!(up.update.unwrap().sql, "UPDATE collections SET name = ? WHERE id = ?");

    let fields = vec![("words".to_string(), Value::Array(vec![]))];
    let up = c.update(1, fields).unwrap();
    assert!(up.update.is_none());
    let desired = up.words.unwrap();
    assert!(desired.is_empty());
    let plan = plan_update(&vec![4, 8], &desired);
    assert!(plan.inserts.is_empty());
    assert_eq!(plan.deletes, vec![4, 8]);
}

#[test]
fn collection_payload_is_validated() {
    let c = CollectionsController::new();
    assert_eq!(c.update(1, vec![]).unwrap_err(), ApiError::Validation);
    let bad_words = vec![
        ("name".to_string(), Value::Text("n".to_string())),
        ("words".to_string(), Value::Integer(3)),
    ];
    assert_eq!(c.create(bad_words).unwrap_err(), ApiError::Validation);
    let only_words = vec![("words".to_string(), Value::Array(vec![Value::Integer(1)]))];
    assert_eq!(c.create(only_words).unwrap_err(), ApiError::Validation);
}

#[test]
fn collection_create_splits_words_from_columns() {
    let c = CollectionsController::new();
    let fields = vec![
        ("name".to_string(), Value::Text("Food".to_string())),
        ("words".to_string(), Value::Array(vec![Value::Integer(2), Value::Integer(2)])),
        ("description".to_string(), Value::Text("things".to_string())),
    ];
    let cr = c.create(fields).unwrap();
    assert_eq!(cr.insert.sql, "INSERT INTO collections (name, description) VALUES (?, ?)");
    assert_eq!(cr.insert.params.len(), 2);
    assert_eq!(cr.words, vec![2]);
    let link = c.link(7, 2);
    assert_eq!(link.sql, "INSERT INTO collection_words (collection_id, word_id) VALUES (?, ?)");
    assert!(matches!(link.params[..], [Param::Id(7), Param::Id(2)]));
    let unlink = c.unlink(7, 2);
    assert_eq!(unlink.sql, "DELETE FROM collection_words WHERE collection_id = ? AND word_id = ?");
}

#[test]
fn split_words_and_word_ids() {
    let fields = vec![
        ("words".to_string(), Value::Array(vec![])),
        ("name".to_string(), Value::Null),
    ];
    let (cols, words) = split_words(fields);
    assert_eq!(cols.len(), 1);
    assert_eq!(cols[0].0, "name");
    assert!(matches!(words, Some(Value::Array(_))));
    let cs = collect_collections(vec![row(1, "a", Some(word(3, "x"))), row(1, "a", Some(word(4, "y")))]);
    assert_eq!(word_ids(&cs[0]), vec![3, 4]);
}
