use vstd::prelude::*;

verus! {

/// An untyped payload value, as a client sends it.
#[derive(Debug)]
pub enum Value {
    Null,
    Bool(bool),
    /// A number that fits an `i64`.
    Integer(i64),
    /// Any other number, kept as its decimal text.
    Number(String),
    Text(String),
    Array(Vec<Value>),
    /// Key-value pairs in the order the client wrote them.
    Object(Vec<(String, Value)>),
}

/// A value bound to a statement placeholder.
#[derive(Debug)]
pub enum Param {
    /// A row id.
    Id(i64),
    /// A string payload value, bound as raw text.
    Text(String),
    /// Any other payload value, bound by the generic value binder.
    Json(Value),
}

/// The bind rule: a string value is bound as raw text, every other kind of
/// value through the generic binder.
pub open spec fn bind_of(v: Value) -> Param {
    match v {
        Value::Text(s) => Param::Text(s),
        _ => Param::Json(v),
    }
}

/// Applies the bind rule to one payload value.
pub fn bind_value(v: Value) -> (r: Param)
    ensures
        r == bind_of(v),
{
    match v {
        Value::Text(s) => Param::Text(s),
        other => Param::Json(other),
    }
}

} // verus!
