use vstd::prelude::*;
use vstd::string::*;
use crate::error::ApiError;
use crate::value::Value;

verus! {

/// The ids of `s` in order, each kept at its first occurrence only.
pub open spec fn dedup(s: Seq<i64>) -> Seq<i64>
    decreases s.len(),
{
    if s.len() == 0 {
        Seq::empty()
    } else {
        let d = dedup(s.drop_last());
        if d.contains(s.last()) {
            d
        } else {
            d.push(s.last())
        }
    }
}

/// The ids of `s` in order that `other` does not hold.
pub open spec fn missing_from(s: Seq<i64>, other: Seq<i64>) -> Seq<i64>
    decreases s.len(),
{
    if s.len() == 0 {
        Seq::empty()
    } else {
        let m = missing_from(s.drop_last(), other);
        if other.contains(s.last()) {
            m
        } else {
            m.push(s.last())
        }
    }
}

/// The word id that a `words` entry refers to: a bare integer, or the
/// integer under the first `id` key of an object.
pub open spec fn ref_id(v: Value) -> Option<i64> {
    match v {
        Value::Integer(n) => Some(n),
        Value::Object(fields) => field_id(fields@),
        _ => None,
    }
}

/// The integer under the first `id` key of an object's fields.
pub open spec fn field_id(fs: Seq<(String, Value)>) -> Option<i64>
    decreases fs.len(),
{
    if fs.len() == 0 {
        None
    } else if fs[0].0@ == "id"@ {
        match fs[0].1 {
            Value::Integer(n) => Some(n),
            _ => None,
        }
    } else {
        field_id(fs.drop_first())
    }
}

/// Whether every entry of a `words` list refers to a word id.
pub open spec fn all_refs(ws: Seq<Value>) -> bool {
    forall|i: int| 0 <= i < ws.len() ==> (#[trigger] ref_id(ws[i])) is Some
}

/// The word ids that a `words` list refers to, in order.
pub open spec fn ref_ids(ws: Seq<Value>) -> Seq<i64> {
    ws.map_values(|v: Value| ref_id(v)->Some_0)
}

/// The association set that remains after deleting `deletes` from `current`
/// and inserting `inserts`.
pub open spec fn stored_after(current: Set<i64>, inserts: Seq<i64>, deletes: Seq<i64>) -> Set<i64> {
    current.difference(deletes.to_set()).union(inserts.to_set())
}

/// The association rows to insert and delete for one collection.
#[derive(Debug)]
pub struct AssocPlan {
    pub inserts: Vec<i64>,
    pub deletes: Vec<i64>,
}

/// Whether `v` holds `x`.
pub fn contains_id(v: &Vec<i64>, x: i64) -> (r: bool)
    ensures
        r == v@.contains(x),
{
    let mut j: usize = 0;
    while j < v.len()
        invariant
            j <= v.len(),
            forall|k: int| 0 <= k < j ==> v@[k] != x,
        decreases v.len() - j,
    {
        if v[j] == x {
            return true;
        }
        j = j + 1;
    }
    false
}

/// The ids of `ids`, each once, in order of first occurrence.
pub fn dedup_ids(ids: &Vec<i64>) -> (r: Vec<i64>)
    ensures
        r@ == dedup(ids@),
{
    let mut out: Vec<i64> = Vec::new();
    let mut i: usize = 0;
    while i < ids.len()
        invariant
            i <= ids.len(),
            out@ == dedup(ids@.take(i as int)),
        decreases ids.len() - i,
    {
        assert(ids@.take(i + 1).drop_last() =~= ids@.take(i as int));
        if !contains_id(&out, ids[i]) {
            out.push(ids[i]);
        }
        i = i + 1;
    }
    assert(ids@.take(i as int) =~= ids@);
    out
}

/// The ids of `s`, in order, that `other` does not hold.
pub fn ids_missing_from(s: &Vec<i64>, other: &Vec<i64>) -> (r: Vec<i64>)
    ensures
        r@ == missing_from(s@, other@),
{
    let mut out: Vec<i64> = Vec::new();
    let mut i: usize = 0;
    while i < s.len()
        invariant
            i <= s.len(),
            out@ == missing_from(s@.take(i as int), other@),
        decreases s.len() - i,
    {
        assert(s@.take(i + 1).drop_last() =~= s@.take(i as int));
        if !contains_id(other, s[i]) {
            out.push(s[i]);
        }
        i = i + 1;
    }
    assert(s@.take(i as int) =~= s@);
    out
}

/// The word id that one `words` entry refers to.
pub fn word_ref_id(v: &Value) -> (r: Option<i64>)
    ensures
        r == ref_id(*v),
{
    match v {
        Value::Integer(n) => Some(*n),
        Value::Object(fields) => {
            assert(ref_id(*v) == field_id(fields@));
            let id_key = String::from_str("id");
            let mut j: usize = 0;
            assert(fields@.subrange(0, fields@.len() as int) =~= fields@);
            while j < fields.len()
                invariant
                    j <= fields.len(),
                    id_key@ == "id"@,
                    ref_id(*v) == field_id(fields@),
                    field_id(fields@) == field_id(fields@.subrange(j as int, fields@.len() as int)),
                decreases fields.len() - j,
            {
                let ghost rest = fields@.subrange(j as int, fields@.len() as int);
                assert(rest.drop_first() =~= fields@.subrange(j + 1, fields@.len() as int));
                assert(rest[0] == fields@[j as int]);
                if fields[j].0 == id_key {
                    assert(rest[0].0@ == "id"@);
                    let found = match &fields[j].1 {
                        Value::Integer(n) => Some(*n),
                        _ => None,
                    };
                    assert(found == field_id(rest));
                    return found;
                }
                j = j + 1;
            }
            None
        },
        _ => None,
    }
}

/// The distinct word ids that a `words` list refers to, in order of first
/// occurrence; `Validation` where an entry is neither an integer nor an
/// object with an integer `id`.
pub fn desired_word_ids(words: &Vec<Value>) -> (r: Result<Vec<i64>, ApiError>)
    ensures
        r is Ok <==> all_refs(words@),
        r is Ok ==> r->Ok_0@ == dedup(ref_ids(words@)),
        r is Ok ==> r->Ok_0@.no_duplicates(),
        r is Err ==> r->Err_0 == ApiError::Validation,
{
    let mut ids: Vec<i64> = Vec::new();
    let mut i: usize = 0;
    while i < words.len()
        invariant
            i <= words.len(),
            all_refs(words@.take(i as int)),
            ids@ == ref_ids(words@.take(i as int)),
        decreases words.len() - i,
    {
        match word_ref_id(&words[i]) {
            Some(id) => {
                ids.push(id);
            },
            None => {
                assert(ref_id(words@[i as int]) is None);
                return Err(ApiError::Validation);
            },
        }
        i = i + 1;
        assert(ids@ =~= ref_ids(words@.take(i as int)));
        assert(all_refs(words@.take(i as int))) by {
            assert forall|k: int| 0 <= k < i implies (#[trigger] ref_id(words@.take(i as int)[k])) is Some by {
                if k < i - 1 {
                    assert(words@.take(i as int)[k] == words@.take(i - 1)[k]);
                }
            }
        }
    }
    assert(words@.take(i as int) =~= words@);
    proof {
        lemma_no_duplicate_rows(ids@);
    }
    Ok(dedup_ids(&ids))
}

/// The rows that bring a collection whose words are `current` to the words
/// `desired`: insert each desired id that is not current, delete each
/// current id that is not desired; ids held by both need no write.
pub fn plan_update(current: &Vec<i64>, desired: &Vec<i64>) -> (r: AssocPlan)
    ensures
        r.inserts@ == missing_from(dedup(desired@), current@),
        r.deletes@ == missing_from(dedup(current@), desired@),
{
    let wanted = dedup_ids(desired);
    let held = dedup_ids(current);
    let inserts = ids_missing_from(&wanted, current);
    let deletes = ids_missing_from(&held, desired);
    AssocPlan { inserts, deletes }
}

/// The rows to insert for a new collection: each desired id once.
pub fn plan_create(desired: &Vec<i64>) -> (r: Vec<i64>)
    ensures
        r@ == dedup(desired@),
        r@.no_duplicates(),
        r@.to_set() == desired@.to_set(),
{
    proof {
        lemma_no_duplicate_rows(desired@);
    }
    dedup_ids(desired)
}

proof fn lemma_dedup(s: Seq<i64>)
    ensures
        forall|x: i64| dedup(s).contains(x) <==> s.contains(x),
        dedup(s).no_duplicates(),
    decreases s.len(),
{
    if s.len() > 0 {
        let p = s.drop_last();
        lemma_dedup(p);
        assert forall|x: i64| s.contains(x) <==> (p.contains(x) || x == s.last()) by {
            if s.contains(x) {
                let k = choose|k: int| 0 <= k < s.len() && s[k] == x;
                if k < s.len() - 1 {
                    assert(p[k] == x);
                }
            }
            if p.contains(x) {
                let k = choose|k: int| 0 <= k < p.len() && p[k] == x;
                assert(s[k] == x);
            }
        }
        let d = dedup(p);
        if !d.contains(s.last()) {
            assert forall|x: i64| d.push(s.last()).contains(x) <==> (d.contains(x) || x == s.last()) by {
                if d.push(s.last()).contains(x) {
                    let k = choose|k: int| 0 <= k < d.len() + 1 && d.push(s.last())[k] == x;
                    if k < d.len() {
                        assert(d[k] == x);
                    }
                }
                if d.contains(x) {
                    let k = choose|k: int| 0 <= k < d.len() && d[k] == x;
                    assert(d.push(s.last())[k] == x);
                }
                if x == s.last() {
                    assert(d.push(s.last())[d.len() as int] == x);
                }
            }
        }
    }
}

proof fn lemma_missing(s: Seq<i64>, o: Seq<i64>)
    ensures
        forall|x: i64| missing_from(s, o).contains(x) <==> (s.contains(x) && !o.contains(x)),
        s.no_duplicates() ==> missing_from(s, o).no_duplicates(),
    decreases s.len(),
{
    if s.len() > 0 {
        let p = s.drop_last();
        lemma_missing(p, o);
        assert forall|x: i64| s.contains(x) <==> (p.contains(x) || x == s.last()) by {
            if s.contains(x) {
                let k = choose|k: int| 0 <= k < s.len() && s[k] == x;
                if k < s.len() - 1 {
                    assert(p[k] == x);
                }
            }
            if p.contains(x) {
                let k = choose|k: int| 0 <= k < p.len() && p[k] == x;
                assert(s[k] == x);
            }
        }
        let m = missing_from(p, o);
        if !o.contains(s.last()) {
            assert forall|x: i64| m.push(s.last()).contains(x) <==> (m.contains(x) || x == s.last()) by {
                if m.push(s.last()).contains(x) {
                    let k = choose|k: int| 0 <= k < m.len() + 1 && m.push(s.last())[k] == x;
                    if k < m.len() {
                        assert(m[k] == x);
                    }
                }
                if m.contains(x) {
                    let k = choose|k: int| 0 <= k < m.len() && m[k] == x;
                    assert(m.push(s.last())[k] == x);
                }
                if x == s.last() {
                    assert(m.push(s.last())[m.len() as int] == x);
                }
            }
            if s.no_duplicates() {
                assert(p.no_duplicates());
                assert(!p.contains(s.last())) by {
                    if p.contains(s.last()) {
                        let k = choose|k: int| 0 <= k < p.len() && p[k] == s.last();
                        assert(s[k] == s[s.len() - 1]);
                    }
                }
            }
        } else if s.no_duplicates() {
            assert(p.no_duplicates());
        }
    }
}

/// Creating a collection from a desired word list inserts each referenced
/// word exactly once: the planned rows hold no id twice and cover exactly
/// the desired ids.
pub proof fn lemma_no_duplicate_rows(desired: Seq<i64>)
    ensures
        dedup(desired).no_duplicates(),
        dedup(desired).to_set() == desired.to_set(),
{
    lemma_dedup(desired);
    assert(dedup(desired).to_set() =~= desired.to_set());
}

/// After an update from current words `c` to desired words `d`, the stored
/// association set equals the desired set; the inserted ids are exactly
/// `d - c`, the deleted ids exactly `c - d`, and neither list repeats an id.
pub proof fn lemma_update_reaches_desired(c: Seq<i64>, d: Seq<i64>)
    ensures
        missing_from(dedup(d), c).to_set() == d.to_set().difference(c.to_set()),
        missing_from(dedup(c), d).to_set() == c.to_set().difference(d.to_set()),
        missing_from(dedup(d), c).no_duplicates(),
        missing_from(dedup(c), d).no_duplicates(),
        stored_after(c.to_set(), missing_from(dedup(d), c), missing_from(dedup(c), d))
            == d.to_set(),
{
    lemma_dedup(c);
    lemma_dedup(d);
    lemma_missing(dedup(d), c);
    lemma_missing(dedup(c), d);
    assert(missing_from(dedup(d), c).to_set() =~= d.to_set().difference(c.to_set()));
    assert(missing_from(dedup(c), d).to_set() =~= c.to_set().difference(d.to_set()));
    assert(stored_after(c.to_set(), missing_from(dedup(d), c), missing_from(dedup(c), d))
        =~= d.to_set());
}

/// Applying the same update twice: whatever words `c2` the collection holds
/// after the first application, the second plans no insert and no delete,
/// and the stored set stays the same.
pub proof fn lemma_update_idempotent(c: Seq<i64>, d: Seq<i64>, c2: Seq<i64>)
    requires
        c2.to_set() == stored_after(c.to_set(), missing_from(dedup(d), c), missing_from(dedup(c), d)),
    ensures
        missing_from(dedup(d), c2).len() == 0,
        missing_from(dedup(c2), d).len() == 0,
        stored_after(c2.to_set(), missing_from(dedup(d), c2), missing_from(dedup(c2), d))
            == c2.to_set(),
{
    lemma_update_reaches_desired(c, d);
    lemma_update_reaches_desired(c2, d);
    lemma_missing(dedup(d), c2);
    lemma_missing(dedup(c2), d);
    lemma_dedup(c2);
    lemma_dedup(d);
    assert forall|x: i64| d.contains(x) <==> c2.contains(x) by {
        assert(d.to_set().contains(x) == c2.to_set().contains(x));
    }
    let ins = missing_from(dedup(d), c2);
    let del = missing_from(dedup(c2), d);
    if ins.len() > 0 {
        let x = ins[0];
        assert(ins.contains(x));
        assert(dedup(d).contains(x) && !c2.contains(x));
        assert(d.contains(x));
    }
    if del.len() > 0 {
        let x = del[0];
        assert(del.contains(x));
        assert(dedup(c2).contains(x) && !d.contains(x));
        assert(c2.contains(x));
    }
    assert(ins =~= Seq::<i64>::empty());
    assert(del =~= Seq::<i64>::empty());
    assert(stored_after(c2.to_set(), ins, del) =~= c2.to_set());
}

/// An update whose `words` list is present and empty deletes every current
/// word and inserts none: no association remains.
pub proof fn lemma_empty_words_clear(c: Seq<i64>)
    ensures
        missing_from(dedup(Seq::<i64>::empty()), c).len() == 0,
        missing_from(dedup(c), Seq::<i64>::empty()).to_set() == c.to_set(),
        stored_after(
            c.to_set(),
            missing_from(dedup(Seq::<i64>::empty()), c),
            missing_from(dedup(c), Seq::<i64>::empty()),
        ) == Set::<i64>::empty(),
{
    lemma_update_reaches_desired(c, Seq::<i64>::empty());
    assert(Seq::<i64>::empty().to_set() =~= Set::<i64>::empty());
    assert(c.to_set().difference(Set::<i64>::empty()) =~= c.to_set());
}

} // verus!
