use vstd::prelude::*;
use vstd::string::*;
use crate::assoc::{all_refs, dedup, desired_word_ids, ref_ids};
use crate::error::ApiError;
use crate::model::{Collection, Word};
use crate::store::{binds_of, insert_sql, keys_of, update_sql, views, Statement, Table};
use crate::value::{Param, Value};

verus! {

/// Collections with their words, one row per associated word.
pub const COLLECTIONS_JOIN_SQL: &'static str = "SELECT c.id, c.name, c.description, w.id as word_id, w.word, w.translation, w.image, w.audio FROM collections as c LEFT JOIN collection_words ON c.id = collection_words.collection_id LEFT JOIN words as w ON collection_words.word_id = w.id";

/// One collection with its words, one row per associated word.
pub const COLLECTION_JOIN_SQL: &'static str = "SELECT c.id, c.name, c.description, w.id as word_id, w.word, w.translation, w.image, w.audio FROM collections as c LEFT JOIN collection_words ON c.id = collection_words.collection_id LEFT JOIN words as w ON collection_words.word_id = w.id WHERE c.id = ?";

/// One word of a collection, picked at random by the store.
pub const RANDOM_WORD_SQL: &'static str = "SELECT w.id, w.word, w.translation, w.image, w.audio FROM collections as c JOIN collection_words ON c.id = collection_words.collection_id JOIN words as w ON collection_words.word_id = w.id WHERE c.id = ? ORDER BY RANDOM() LIMIT 1";

pub const LINK_SQL: &'static str = "INSERT INTO collection_words (collection_id, word_id) VALUES (?, ?)";

pub const UNLINK_SQL: &'static str = "DELETE FROM collection_words WHERE collection_id = ? AND word_id = ?";

/// The payload entries that are columns: all but those keyed `words`.
pub open spec fn column_fields(fs: Seq<(String, Value)>) -> Seq<(String, Value)>
    decreases fs.len(),
{
    if fs.len() == 0 {
        Seq::empty()
    } else if fs.last().0@ == "words"@ {
        column_fields(fs.drop_last())
    } else {
        column_fields(fs.drop_last()).push(fs.last())
    }
}

pub const UNLINK_ALL_SQL: &'static str = "DELETE FROM collection_words WHERE collection_id = ?";

/// The value under the payload's `words` key, if the key is present.
pub open spec fn words_entry(fs: Seq<(String, Value)>) -> Option<Value>
    decreases fs.len(),
{
    if fs.len() == 0 {
        None
    } else if fs.last().0@ == "words"@ {
        Some(fs.last().1)
    } else {
        words_entry(fs.drop_last())
    }
}

/// The distinct word ids that a `words` value refers to, if it is a list
/// of word references.
pub open spec fn value_ids(v: Value) -> Option<Seq<i64>> {
    match v {
        Value::Array(ws) => if all_refs(ws@) {
            Some(dedup(ref_ids(ws@)))
        } else {
            None
        },
        _ => None,
    }
}

/// What a collection payload asks the store to do on creation.
#[derive(Debug)]
pub struct CollectionCreate {
    /// The INSERT of the collection's own columns.
    pub insert: Statement,
    /// The distinct words to link to the new collection.
    pub words: Vec<i64>,
}

/// What a collection payload asks the store to do on update.
#[derive(Debug)]
pub struct CollectionUpdate {
    /// The UPDATE of the collection's own columns, if the payload names any.
    pub update: Option<Statement>,
    /// The desired words, if the payload holds a `words` key; `None` leaves
    /// the associations as they are.
    pub words: Option<Vec<i64>>,
}

/// Splits a collection payload into its column entries and its `words` value.
pub fn split_words(fields: Vec<(String, Value)>) -> (r: (Vec<(String, Value)>, Option<Value>))
    ensures
        r.0@ == column_fields(fields@),
        r.1 == words_entry(fields@),
{
    let ghost all = fields@;
    let words_key = String::from_str("words");
    let mut fields = fields;
    let mut columns: Vec<(String, Value)> = Vec::new();
    let mut words: Option<Value> = None;
    let ghost mut n: int = 0;
    while fields.len() > 0
        invariant
            0 <= n <= all.len(),
            words_key@ == "words"@,
            fields@ == all.subrange(n, all.len() as int),
            columns@ == column_fields(all.take(n)),
            words == words_entry(all.take(n)),
        decreases fields.len(),
    {
        let entry = fields.remove(0);
        proof {
            assert(all.take(n + 1).drop_last() =~= all.take(n));
            assert(all.take(n + 1).last() == entry);
            n = n + 1;
        }
        if entry.0 == words_key {
            words = Some(entry.1);
        } else {
            columns.push(entry);
        }
    }
    proof {
        assert(all.take(n) =~= all);
    }
    (columns, words)
}

/// The distinct word ids that a `words` value refers to; `Validation`
/// where it is not a list of word ids or objects with an `id`.
pub fn words_value_ids(v: &Value) -> (r: Result<Vec<i64>, ApiError>)
    ensures
        r is Ok <==> value_ids(*v) is Some,
        r is Ok ==> value_ids(*v) == Some(r->Ok_0@),
        r is Ok ==> r->Ok_0@.no_duplicates(),
        r is Err ==> r->Err_0 == ApiError::Validation,
{
    match v {
        Value::Array(ws) => desired_word_ids(ws),
        _ => Err(ApiError::Validation),
    }
}

/// The ids of a collection's words, in order.
pub fn word_ids(c: &Collection) -> (r: Vec<i64>)
    ensures
        r@ == c.words@.map_values(|w: Word| w.id),
{
    let mut ids: Vec<i64> = Vec::new();
    let mut i: usize = 0;
    while i < c.words.len()
        invariant
            i <= c.words.len(),
            ids@ == c.words@.take(i as int).map_values(|w: Word| w.id),
        decreases c.words.len() - i,
    {
        ids.push(c.words[i].id);
        assert(ids@ =~= c.words@.take(i + 1).map_values(|w: Word| w.id));
        i = i + 1;
    }
    assert(c.words@.take(i as int) =~= c.words@);
    ids
}

fn pair_statement(sql: &str, collection_id: i64, word_id: i64) -> (r: Statement)
    ensures
        r.sql@ == sql@,
        r.params@ == seq![Param::Id(collection_id), Param::Id(word_id)],
{
    let mut params: Vec<Param> = Vec::new();
    params.push(Param::Id(collection_id));
    params.push(Param::Id(word_id));
    assert(params@ =~= seq![Param::Id(collection_id), Param::Id(word_id)]);
    Statement { sql: String::from_str(sql), params }
}

/// The store's access to words.
pub struct WordsController {
    pub table: Table,
}

impl WordsController {
    pub fn new() -> (r: WordsController)
        ensures
            r.table.name@ == "words"@,
            views(r.table.columns@) == seq!["word"@, "translation"@, "image"@, "audio"@],
    {
        let mut columns: Vec<String> = Vec::new();
        columns.push(String::from_str("word"));
        columns.push(String::from_str("translation"));
        columns.push(String::from_str("image"));
        columns.push(String::from_str("audio"));
        let r = WordsController { table: Table::new("words", columns) };
        assert(views(r.table.columns@) =~= seq!["word"@, "translation"@, "image"@, "audio"@]);
        r
    }

    /// A random word of the collection `collection_id`.
    pub fn get_random_word(&self, collection_id: i64) -> (r: Statement)
        ensures
            r.sql@ == RANDOM_WORD_SQL@,
            r.params@ == seq![Param::Id(collection_id)],
    {
        let mut params: Vec<Param> = Vec::new();
        params.push(Param::Id(collection_id));
        assert(params@ =~= seq![Param::Id(collection_id)]);
        Statement { sql: String::from_str(RANDOM_WORD_SQL), params }
    }
}

/// The store's access to collections and their word associations.
pub struct CollectionsController {
    pub table: Table,
}

impl CollectionsController {
    pub fn new() -> (r: CollectionsController)
        ensures
            r.table.name@ == "collections"@,
            views(r.table.columns@) == seq!["name"@, "description"@],
    {
        let mut columns: Vec<String> = Vec::new();
        columns.push(String::from_str("name"));
        columns.push(String::from_str("description"));
        let r = CollectionsController { table: Table::new("collections", columns) };
        assert(views(r.table.columns@) =~= seq!["name"@, "description"@]);
        r
    }

    /// Every collection with its words.
    pub fn get_all(&self) -> (r: Statement)
        ensures
            r.sql@ == COLLECTIONS_JOIN_SQL@,
            r.params@.len() == 0,
    {
        Statement { sql: String::from_str(COLLECTIONS_JOIN_SQL), params: Vec::new() }
    }

    /// The collection `id` with its words.
    pub fn get_one(&self, id: i64) -> (r: Statement)
        ensures
            r.sql@ == COLLECTION_JOIN_SQL@,
            r.params@ == seq![Param::Id(id)],
    {
        let mut params: Vec<Param> = Vec::new();
        params.push(Param::Id(id));
        assert(params@ =~= seq![Param::Id(id)]);
        Statement { sql: String::from_str(COLLECTION_JOIN_SQL), params }
    }

    /// Links word `word_id` to collection `collection_id`.
    pub fn link(&self, collection_id: i64, word_id: i64) -> (r: Statement)
        ensures
            r.sql@ == LINK_SQL@,
            r.params@ == seq![Param::Id(collection_id), Param::Id(word_id)],
    {
        pair_statement(LINK_SQL, collection_id, word_id)
    }

    /// Unlinks word `word_id` from collection `collection_id`.
    pub fn unlink(&self, collection_id: i64, word_id: i64) -> (r: Statement)
        ensures
            r.sql@ == UNLINK_SQL@,
            r.params@ == seq![Param::Id(collection_id), Param::Id(word_id)],
    {
        pair_statement(UNLINK_SQL, collection_id, word_id)
    }

    /// Unlinks every word from collection `collection_id`, ahead of deleting it.
    pub fn unlink_all(&self, collection_id: i64) -> (r: Statement)
        ensures
            r.sql@ == UNLINK_ALL_SQL@,
            r.params@ == seq![Param::Id(collection_id)],
    {
        let mut params: Vec<Param> = Vec::new();
        params.push(Param::Id(collection_id));
        assert(params@ =~= seq![Param::Id(collection_id)]);
        Statement { sql: String::from_str(UNLINK_ALL_SQL), params }
    }

    /// The statements that a creation payload asks for: an INSERT of its
    /// columns and the distinct words to link. `Validation` where the
    /// columns are empty or unknown, or `words` is not a list of word
    /// references; a payload without `words` links none.
    pub fn create(&self, fields: Vec<(String, Value)>) -> (r: Result<CollectionCreate, ApiError>)
        ensures
            r is Ok <==> self.table.accepts(column_fields(fields@)) && (words_entry(fields@) is Some
                ==> value_ids(words_entry(fields@)->Some_0) is Some),
            r is Err ==> r->Err_0 == ApiError::Validation,
            r is Ok ==> r->Ok_0.insert.sql@ == insert_sql(
                self.table.name@,
                keys_of(column_fields(fields@)),
            ) && r->Ok_0.insert.params@ == binds_of(column_fields(fields@)) && r->Ok_0.words@ == match words_entry(fields@) {
                Some(w) => value_ids(w)->Some_0,
                None => Seq::<i64>::empty(),
            },
            r is Ok ==> r->Ok_0.words@.no_duplicates(),
    {
        let (columns, words) = split_words(fields);
        let ids = match &words {
            Some(w) => match words_value_ids(w) {
                Ok(ids) => ids,
                Err(e) => {
                    return Err(e);
                },
            },
            None => Vec::new(),
        };
        match self.table.insert(columns) {
            Ok(insert) => Ok(CollectionCreate { insert, words: ids }),
            Err(e) => Err(e),
        }
    }

    /// The statements that an update payload asks for: an UPDATE of the
    /// columns it names, if any, and the desired words if it holds a
    /// `words` key. `Validation` where it names an unknown column, `words`
    /// is not a list of word references, or it holds neither columns nor
    /// `words`.
    pub fn update(&self, id: i64, fields: Vec<(String, Value)>) -> (r: Result<CollectionUpdate, ApiError>)
        ensures
            r is Ok <==> (column_fields(fields@).len() > 0 || words_entry(fields@) is Some) && (
            column_fields(fields@).len() > 0 ==> self.table.accepts(column_fields(fields@))) && (
            words_entry(fields@) is Some ==> value_ids(words_entry(fields@)->Some_0) is Some),
            r is Err ==> r->Err_0 == ApiError::Validation,
            r is Ok ==> (r->Ok_0.update is Some <==> column_fields(fields@).len() > 0),
            r is Ok && r->Ok_0.update is Some ==> r->Ok_0.update->Some_0.sql@ == update_sql(
                self.table.name@,
                keys_of(column_fields(fields@)),
            ) && r->Ok_0.update->Some_0.params@ == binds_of(column_fields(fields@)).push(
                Param::Id(id),
            ),
            r is Ok ==> (r->Ok_0.words is None <==> words_entry(fields@) is None),
            r is Ok && r->Ok_0.words is Some ==> value_ids(words_entry(fields@)->Some_0) == Some(
                r->Ok_0.words->Some_0@,
            ),
            r is Ok && r->Ok_0.words is Some ==> r->Ok_0.words->Some_0@.no_duplicates(),
    {
        let (columns, words) = split_words(fields);
        if columns.len() == 0 && words.is_none() {
            return Err(ApiError::Validation);
        }
        let ids = match &words {
            Some(w) => match words_value_ids(w) {
                Ok(ids) => Some(ids),
                Err(e) => {
                    return Err(e);
                },
            },
            None => None,
        };
        if columns.len() == 0 {
            return Ok(CollectionUpdate { update: None, words: ids });
        }
        match self.table.update(id, columns) {
            Ok(update) => Ok(CollectionUpdate { update: Some(update), words: ids }),
            Err(e) => Err(e),
        }
    }
}

} // verus!
