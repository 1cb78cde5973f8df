use vstd::prelude::*;
use vstd::string::*;
use crate::error::ApiError;
use crate::value::{bind_of, bind_value, Param, Value};

verus! {

/// A parameterized statement: SQL text and the values bound to its
/// placeholders, in order.
#[derive(Debug)]
pub struct Statement {
    pub sql: String,
    pub params: Vec<Param>,
}

/// A table and the columns that a payload may name.
#[derive(Debug)]
pub struct Table {
    pub name: String,
    pub columns: Vec<String>,
}

/// `parts` with `sep` between each two neighbours.
pub open spec fn join(parts: Seq<Seq<char>>, sep: Seq<char>) -> Seq<char>
    decreases parts.len(),
{
    if parts.len() == 0 {
        Seq::empty()
    } else if parts.len() == 1 {
        parts[0]
    } else {
        join(parts.drop_last(), sep) + sep + parts.last()
    }
}

pub open spec fn views(v: Seq<String>) -> Seq<Seq<char>> {
    v.map_values(|s: String| s@)
}

/// The keys of a payload, in order.
pub open spec fn keys_of(fields: Seq<(String, Value)>) -> Seq<Seq<char>> {
    fields.map_values(|f: (String, Value)| f.0@)
}

/// The bound values of a payload, in order, by the bind rule.
pub open spec fn binds_of(fields: Seq<(String, Value)>) -> Seq<Param> {
    fields.map_values(|f: (String, Value)| bind_of(f.1))
}

pub open spec fn placeholders(n: nat) -> Seq<Seq<char>> {
    Seq::new(n, |i: int| "?"@)
}

pub open spec fn assignments(keys: Seq<Seq<char>>) -> Seq<Seq<char>> {
    keys.map_values(|k: Seq<char>| k + " = ?"@)
}

pub open spec fn insert_sql(table: Seq<char>, keys: Seq<Seq<char>>) -> Seq<char> {
    "INSERT INTO "@ + table + " ("@ + join(keys, ", "@) + ") VALUES ("@ + join(
        placeholders(keys.len()),
        ", "@,
    ) + ")"@
}

pub open spec fn update_sql(table: Seq<char>, keys: Seq<Seq<char>>) -> Seq<char> {
    "UPDATE "@ + table + " SET "@ + join(assignments(keys), ", "@) + " WHERE id = ?"@
}

pub open spec fn select_all_sql(table: Seq<char>) -> Seq<char> {
    "SELECT * FROM "@ + table
}

pub open spec fn select_one_sql(table: Seq<char>) -> Seq<char> {
    "SELECT * FROM "@ + table + " WHERE id = ?"@
}

pub open spec fn delete_sql(table: Seq<char>) -> Seq<char> {
    "DELETE FROM "@ + table + " WHERE id = ?"@
}

/// Joins `parts` with `sep`.
pub fn join_parts(parts: &Vec<String>, sep: &str) -> (r: String)
    ensures
        r@ == join(views(parts@), sep@),
{
    let mut acc = String::new();
    let mut i: usize = 0;
    while i < parts.len()
        invariant
            i <= parts.len(),
            acc@ == join(views(parts@.take(i as int)), sep@),
        decreases parts.len() - i,
    {
        let ghost next = views(parts@.take(i + 1));
        assert(next.drop_last() =~= views(parts@.take(i as int)));
        assert(next.last() == parts@[i as int]@);
        if i > 0 {
            acc.append(sep);
        }
        acc.append(parts[i].as_str());
        assert(acc@ =~= join(next, sep@));
        i = i + 1;
    }
    assert(parts@.take(i as int) =~= parts@);
    acc
}

/// The keys of a payload, in order.
pub fn field_keys(fields: &Vec<(String, Value)>) -> (r: Vec<String>)
    ensures
        views(r@) == keys_of(fields@),
{
    let mut keys: Vec<String> = Vec::new();
    let mut i: usize = 0;
    while i < fields.len()
        invariant
            i <= fields.len(),
            views(keys@) == keys_of(fields@.take(i as int)),
        decreases fields.len() - i,
    {
        let ghost before = keys@;
        let k = fields[i].0.clone();
        assert(k@ == fields@[i as int].0@);
        keys.push(k);
        assert(views(keys@) =~= views(before).push(k@));
        assert(keys_of(fields@.take(i + 1)) =~= keys_of(fields@.take(i as int)).push(k@));
        i = i + 1;
    }
    assert(fields@.take(i as int) =~= fields@);
    keys
}

/// The bound values of a payload, in order, by the bind rule.
pub fn field_binds(fields: Vec<(String, Value)>) -> (r: Vec<Param>)
    ensures
        r@ == binds_of(fields@),
{
    let ghost all = fields@;
    let mut fields = fields;
    let mut params: Vec<Param> = Vec::new();
    while fields.len() > 0
        invariant
            params.len() <= all.len(),
            fields@ == all.subrange(params.len() as int, all.len() as int),
            params@ == binds_of(all.take(params.len() as int)),
        decreases fields.len(),
    {
        let (_key, value) = fields.remove(0);
        let ghost n = params.len() as int;
        params.push(bind_value(value));
        assert(params@ =~= binds_of(all.take(n + 1)));
    }
    assert(all.take(params.len() as int) =~= all);
    params
}

fn question_marks(n: usize) -> (r: Vec<String>)
    ensures
        views(r@) == placeholders(n as nat),
{
    let mut marks: Vec<String> = Vec::new();
    while marks.len() < n
        invariant
            marks.len() <= n,
            views(marks@) == placeholders(marks.len() as nat),
        decreases n - marks.len(),
    {
        let ghost before = marks@;
        let m = String::from_str("?");
        marks.push(m);
        assert(views(marks@) =~= views(before).push(m@));
        assert(placeholders(marks.len() as nat) =~= placeholders(before.len() as nat).push("?"@));
    }
    marks
}

fn assignment_list(keys: &Vec<String>) -> (r: Vec<String>)
    ensures
        views(r@) == assignments(views(keys@)),
{
    let mut out: Vec<String> = Vec::new();
    let mut i: usize = 0;
    while i < keys.len()
        invariant
            i <= keys.len(),
            views(out@) == assignments(views(keys@.take(i as int))),
        decreases keys.len() - i,
    {
        let ghost before = out@;
        let k = keys[i].clone();
        let a = k.concat(" = ?");
        out.push(a);
        assert(views(out@) =~= views(before).push(a@));
        assert(views(keys@.take(i + 1)) =~= views(keys@.take(i as int)).push(keys@[i as int]@));
        assert(assignments(views(keys@.take(i + 1))) =~= assignments(views(keys@.take(i as int))).push(
            keys@[i as int]@ + " = ?"@,
        ));
        i = i + 1;
    }
    assert(keys@.take(i as int) =~= keys@);
    out
}

/// The row a lookup by id yields: its first row, or `NotFound` where the
/// lookup found none.
pub fn first_row<T>(rows: Vec<T>) -> (r: Result<T, ApiError>)
    ensures
        rows@.len() > 0 ==> r == Ok::<T, ApiError>(rows@[0]),
        rows@.len() == 0 ==> r == Err::<T, ApiError>(ApiError::NotFound),
{
    let mut rows = rows;
    if rows.len() == 0 {
        Err(ApiError::NotFound)
    } else {
        Ok(rows.remove(0))
    }
}

/// The outcome of an update by id, from the number of rows it changed.
pub fn updated_row(id: i64, rows_affected: u64) -> (r: Result<i64, ApiError>)
    ensures
        rows_affected == 0 ==> r == Err::<i64, ApiError>(ApiError::NotFound),
        rows_affected > 0 ==> r == Ok::<i64, ApiError>(id),
{
    if rows_affected == 0 {
        Err(ApiError::NotFound)
    } else {
        Ok(id)
    }
}

impl Table {
    /// Whether `k` is one of the table's columns.
    pub open spec fn allows(&self, k: Seq<char>) -> bool {
        views(self.columns@).contains(k)
    }

    /// Whether a payload may be written to the table: it is not empty and
    /// names only the table's columns.
    pub open spec fn accepts(&self, fields: Seq<(String, Value)>) -> bool {
        fields.len() > 0 && forall|i: int| 0 <= i < fields.len() ==> self.allows(#[trigger] fields[i].0@)
    }

    pub fn new(name: &str, columns: Vec<String>) -> (r: Table)
        ensures
            r.name@ == name@,
            r.columns@ == columns@,
    {
        Table { name: String::from_str(name), columns }
    }

    /// Whether `k` is one of the table's columns.
    pub fn allows_column(&self, k: &String) -> (r: bool)
        ensures
            r == self.allows(k@),
    {
        let mut j: usize = 0;
        while j < self.columns.len()
            invariant
                j <= self.columns.len(),
                forall|m: int| 0 <= m < j ==> self.columns@[m]@ != k@,
            decreases self.columns.len() - j,
        {
            if self.columns[j] == *k {
                assert(views(self.columns@)[j as int] == k@);
                return true;
            }
            j = j + 1;
        }
        assert(!views(self.columns@).contains(k@)) by {
            if views(self.columns@).contains(k@) {
                let m = choose|m: int| 0 <= m < views(self.columns@).len() && views(self.columns@)[m] == k@;
                assert(self.columns@[m]@ == k@);
            }
        }
        false
    }

    /// Checks a payload against the table's columns.
    pub fn check_fields(&self, fields: &Vec<(String, Value)>) -> (r: Result<(), ApiError>)
        ensures
            r is Ok <==> self.accepts(fields@),
            r is Err ==> r == Err::<(), ApiError>(ApiError::Validation),
    {
        if fields.len() == 0 {
            return Err(ApiError::Validation);
        }
        let mut i: usize = 0;
        while i < fields.len()
            invariant
                i <= fields.len(),
                forall|m: int| 0 <= m < i ==> self.allows(#[trigger] fields@[m].0@),
            decreases fields.len() - i,
        {
            if !self.allows_column(&fields[i].0) {
                return Err(ApiError::Validation);
            }
            i = i + 1;
        }
        Ok(())
    }

    /// `SELECT * FROM <table>`.
    pub fn select_all(&self) -> (r: Statement)
        ensures
            r.sql@ == select_all_sql(self.name@),
            r.params@.len() == 0,
    {
        let sql = String::from_str("SELECT * FROM ").concat(self.name.as_str());
        Statement { sql, params: Vec::new() }
    }

    /// `SELECT * FROM <table> WHERE id = ?`, bound to `id`.
    pub fn select_one(&self, id: i64) -> (r: Statement)
        ensures
            r.sql@ == select_one_sql(self.name@),
            r.params@ == seq![Param::Id(id)],
    {
        let sql = String::from_str("SELECT * FROM ").concat(self.name.as_str()).concat(
            " WHERE id = ?",
        );
        let mut params: Vec<Param> = Vec::new();
        params.push(Param::Id(id));
        assert(params@ =~= seq![Param::Id(id)]);
        Statement { sql, params }
    }

    /// `DELETE FROM <table> WHERE id = ?`, bound to `id`.
    pub fn delete(&self, id: i64) -> (r: Statement)
        ensures
            r.sql@ == delete_sql(self.name@),
            r.params@ == seq![Param::Id(id)],
    {
        let sql = String::from_str("DELETE FROM ").concat(self.name.as_str()).concat(
            " WHERE id = ?",
        );
        let mut params: Vec<Param> = Vec::new();
        params.push(Param::Id(id));
        assert(params@ =~= seq![Param::Id(id)]);
        Statement { sql, params }
    }

    /// An INSERT whose columns are the payload's keys, in order, each value
    /// bound to one placeholder. `Validation` where the payload is empty or
    /// names a column outside the table.
    pub fn insert(&self, fields: Vec<(String, Value)>) -> (r: Result<Statement, ApiError>)
        ensures
            r is Ok <==> self.accepts(fields@),
            r is Err ==> r->Err_0 == ApiError::Validation,
            r is Ok ==> r->Ok_0.sql@ == insert_sql(self.name@, keys_of(fields@)) && r->Ok_0.params@
                == binds_of(fields@),
    {
        match self.check_fields(&fields) {
            Err(e) => {
                return Err(e);
            },
            Ok(()) => {},
        }
        let keys = field_keys(&fields);
        let columns = join_parts(&keys, ", ");
        let marks = join_parts(&question_marks(keys.len()), ", ");
        let mut sql = String::from_str("INSERT INTO ");
        sql.append(self.name.as_str());
        sql.append(" (");
        sql.append(columns.as_str());
        sql.append(") VALUES (");
        sql.append(marks.as_str());
        sql.append(")");
        assert(keys_of(fields@).len() == keys@.len());
        assert(sql@ =~= insert_sql(self.name@, keys_of(fields@)));
        let params = field_binds(fields);
        Ok(Statement { sql, params })
    }

    /// An UPDATE that sets each of the payload's keys, in order, and binds
    /// `id` last. `Validation` where the payload is empty or names a column
    /// outside the table.
    pub fn update(&self, id: i64, fields: Vec<(String, Value)>) -> (r: Result<Statement, ApiError>)
        ensures
            r is Ok <==> self.accepts(fields@),
            r is Err ==> r->Err_0 == ApiError::Validation,
            r is Ok ==> r->Ok_0.sql@ == update_sql(self.name@, keys_of(fields@)) && r->Ok_0.params@
                == binds_of(fields@).push(Param::Id(id)),
    {
        match self.check_fields(&fields) {
            Err(e) => {
                return Err(e);
            },
            Ok(()) => {},
        }
        let keys = field_keys(&fields);
        let sets = join_parts(&assignment_list(&keys), ", ");
        let mut sql = String::from_str("UPDATE ");
        sql.append(self.name.as_str());
        sql.append(" SET ");
        sql.append(sets.as_str());
        sql.append(" WHERE id = ?");
        assert(sql@ =~= update_sql(self.name@, keys_of(fields@)));
        let mut params = field_binds(fields);
        params.push(Param::Id(id));
        Ok(Statement { sql, params })
    }
}

} // verus!
