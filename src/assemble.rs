use vstd::prelude::*;
use crate::model::{Collection, CollectionView, Word};

verus! {

/// One row of `collection LEFT JOIN association LEFT JOIN word`; `word` is
/// `None` where the collection has no associated word.
#[derive(Debug)]
pub struct JoinRow {
    pub id: i64,
    pub name: String,
    pub description: String,
    pub word: Option<Word>,
}

/// Index of the first collection with the given id, or -1.
pub open spec fn index_of(cs: Seq<CollectionView>, id: i64) -> int
    decreases cs.len(),
{
    if cs.len() == 0 {
        -1
    } else if index_of(cs.drop_last(), id) >= 0 {
        index_of(cs.drop_last(), id)
    } else if cs.last().id == id {
        cs.len() - 1
    } else {
        -1
    }
}

/// The words a row contributes: none for a row without a word.
pub open spec fn row_words(r: JoinRow) -> Seq<Word> {
    match r.word {
        Some(w) => seq![w],
        None => Seq::empty(),
    }
}

/// Folds one row into the collections assembled so far.
pub open spec fn add_row(cs: Seq<CollectionView>, r: JoinRow) -> Seq<CollectionView> {
    let i = index_of(cs, r.id);
    if i >= 0 {
        cs.update(i, CollectionView { words: cs[i].words + row_words(r), ..cs[i] })
    } else {
        cs.push(
            CollectionView {
                id: r.id,
                name: r.name@,
                description: r.description@,
                words: row_words(r),
            },
        )
    }
}

/// The collections that rows assemble into: first-seen collection order,
/// words in row order.
pub open spec fn assemble(rows: Seq<JoinRow>) -> Seq<CollectionView>
    decreases rows.len(),
{
    if rows.len() == 0 {
        Seq::empty()
    } else {
        add_row(assemble(rows.drop_last()), rows.last())
    }
}

proof fn lemma_index_of(cs: Seq<CollectionView>, id: i64)
    ensures
        index_of(cs, id) >= 0 ==> index_of(cs, id) < cs.len() && cs[index_of(cs, id)].id == id
            && forall|k: int| 0 <= k < index_of(cs, id) ==> cs[k].id != id,
        index_of(cs, id) < 0 ==> index_of(cs, id) == -1 && forall|k: int|
            0 <= k < cs.len() ==> cs[k].id != id,
    decreases cs.len(),
{
    if cs.len() > 0 {
        let p = cs.drop_last();
        lemma_index_of(p, id);
        assert forall|k: int| 0 <= k < p.len() implies p[k] == cs[k] by {}
    }
}

/// Position of the first row with collection id `id`, or -1.
pub open spec fn first_pos(rows: Seq<JoinRow>, id: i64) -> int
    decreases rows.len(),
{
    if rows.len() == 0 {
        -1
    } else if first_pos(rows.drop_last(), id) >= 0 {
        first_pos(rows.drop_last(), id)
    } else if rows.last().id == id {
        rows.len() - 1
    } else {
        -1
    }
}

/// The words of the rows with collection id `id` that carry one, in row order.
pub open spec fn words_for(rows: Seq<JoinRow>, id: i64) -> Seq<Word>
    decreases rows.len(),
{
    if rows.len() == 0 {
        Seq::empty()
    } else if rows.last().id == id {
        words_for(rows.drop_last(), id) + row_words(rows.last())
    } else {
        words_for(rows.drop_last(), id)
    }
}

proof fn lemma_first_pos(rows: Seq<JoinRow>, id: i64)
    ensures
        first_pos(rows, id) >= 0 ==> first_pos(rows, id) < rows.len() && rows[first_pos(rows, id)].id
            == id && forall|k: int| 0 <= k < first_pos(rows, id) ==> rows[k].id != id,
        first_pos(rows, id) < 0 ==> first_pos(rows, id) == -1 && words_for(rows, id) == Seq::<
            Word,
        >::empty() && forall|k: int| 0 <= k < rows.len() ==> rows[k].id != id,
    decreases rows.len(),
{
    if rows.len() > 0 {
        let p = rows.drop_last();
        lemma_first_pos(p, id);
        assert forall|k: int| 0 <= k < p.len() implies p[k] == rows[k] by {}
    }
}

/// What the fold of rows into collections amounts to: ids are distinct and
/// come in the order of their first row; each collection has the name and
/// description of its first row and the words of its rows in row order;
/// every row's id has a collection.
proof fn lemma_assemble(rows: Seq<JoinRow>)
    ensures
        forall|i: int, j: int|
            0 <= i < j < assemble(rows).len() ==> assemble(rows)[i].id != assemble(rows)[j].id,
        forall|k: int|
            0 <= k < assemble(rows).len() ==> (#[trigger] assemble(rows)[k]).words == words_for(
                rows,
                assemble(rows)[k].id,
            ),
        forall|k: int|
            0 <= k < assemble(rows).len() ==> first_pos(rows, (#[trigger] assemble(rows)[k]).id)
                >= 0 && assemble(rows)[k].name == rows[first_pos(rows, assemble(rows)[k].id)].name@
                && assemble(rows)[k].description == rows[first_pos(
                rows,
                assemble(rows)[k].id,
            )].description@,
        forall|i: int, j: int|
            0 <= i < j < assemble(rows).len() ==> first_pos(rows, assemble(rows)[i].id) < first_pos(
                rows,
                assemble(rows)[j].id,
            ),
        forall|id: i64| first_pos(rows, id) >= 0 ==> index_of(assemble(rows), id) >= 0,
    decreases rows.len(),
{
    if rows.len() > 0 {
        let p = rows.drop_last();
        let r = rows.last();
        let a = assemble(p);
        let b = assemble(rows);
        lemma_assemble(p);
        lemma_index_of(a, r.id);
        lemma_first_pos(p, r.id);
        assert forall|k: int| 0 <= k < p.len() implies p[k] == rows[k] by {}
        assert forall|id: i64| #[trigger] first_pos(p, id) >= 0 implies first_pos(rows, id) == first_pos(p, id) by {}
        let idx = index_of(a, r.id);
        if idx >= 0 {
            assert(b == a.update(idx, CollectionView { words: a[idx].words + row_words(r), ..a[idx] }));
            assert forall|k: int| 0 <= k < b.len() implies (#[trigger] b[k]).words == words_for(rows, b[k].id) by {
                if k != idx {
                    assert(a[k].id != r.id);
                }
            }
            assert forall|k: int| 0 <= k < b.len() implies first_pos(rows, (#[trigger] b[k]).id) >= 0
                && b[k].name == rows[first_pos(rows, b[k].id)].name@
                && b[k].description == rows[first_pos(rows, b[k].id)].description@ by {
                lemma_first_pos(p, a[k].id);
                assert(first_pos(p, a[k].id) >= 0);
            }
            assert forall|id: i64| first_pos(rows, id) >= 0 implies index_of(b, id) >= 0 by {
                lemma_index_of(a, id);
                lemma_index_of(b, id);
                if first_pos(p, id) >= 0 {
                    let k = index_of(a, id);
                    assert(b[k].id == id);
                } else {
                    assert(b[idx].id == id);
                }
            }
        } else {
            let n = CollectionView {
                id: r.id,
                name: r.name@,
                description: r.description@,
                words: row_words(r),
            };
            assert(b == a.push(n));
            assert(first_pos(p, r.id) < 0);
            assert(first_pos(rows, r.id) == p.len());
            assert(words_for(rows, r.id) =~= row_words(r));
            assert forall|k: int| 0 <= k < b.len() implies (#[trigger] b[k]).words == words_for(rows, b[k].id) by {
                if k < a.len() {
                    assert(b[k] == a[k]);
                    assert(a[k].id != r.id);
                }
            }
            assert forall|k: int| 0 <= k < b.len() implies first_pos(rows, (#[trigger] b[k]).id) >= 0
                && b[k].name == rows[first_pos(rows, b[k].id)].name@
                && b[k].description == rows[first_pos(rows, b[k].id)].description@ by {
                if k < a.len() {
                    assert(b[k] == a[k]);
                    lemma_first_pos(p, a[k].id);
                    assert(first_pos(p, a[k].id) >= 0);
                } else {
                    assert(rows[p.len() as int] == r);
                }
            }
            assert forall|i: int, j: int| 0 <= i < j < b.len() implies first_pos(rows, b[i].id) < first_pos(rows, b[j].id) by {
                assert(b[i] == a[i]);
                if j < a.len() {
                    assert(b[j] == a[j]);
                } else {
                    lemma_first_pos(p, a[i].id);
                }
            }
            assert forall|id: i64| first_pos(rows, id) >= 0 implies index_of(b, id) >= 0 by {
                lemma_index_of(a, id);
                lemma_index_of(b, id);
                if first_pos(p, id) >= 0 {
                    let k = index_of(a, id);
                    assert(b[k].id == id);
                } else {
                    assert(b[a.len() as int].id == id);
                }
            }
        }
    }
}

fn find_collection(cs: &Vec<Collection>, id: i64) -> (r: Option<usize>)
    ensures
        match r {
            Some(i) => i as int == index_of(cs@.map_values(|c: Collection| c@), id),
            None => index_of(cs@.map_values(|c: Collection| c@), id) == -1,
        },
{
    let ghost views = cs@.map_values(|c: Collection| c@);
    let mut j: usize = 0;
    while j < cs.len()
        invariant
            j <= cs.len(),
            views == cs@.map_values(|c: Collection| c@),
            forall|k: int| 0 <= k < j ==> views[k].id != id,
        decreases cs.len() - j,
    {
        assert(views[j as int] == cs@[j as int]@);
        proof {
            lemma_index_of(views, id);
        }
        if cs[j].id == id {
            return Some(j);
        }
        j = j + 1;
    }
    proof {
        lemma_index_of(views, id);
    }
    None
}

/// Assembles joined rows into collections, each with its words. A row whose
/// word is absent yields a collection without that word, not an empty word.
pub fn collect_collections(rows: Vec<JoinRow>) -> (r: Vec<Collection>)
    ensures
        r@.map_values(|c: Collection| c@) == assemble(rows@),
        forall|i: int, j: int| 0 <= i < j < r@.len() ==> r@[i].id != r@[j].id,
        forall|i: int, j: int|
            0 <= i < j < r@.len() ==> first_pos(rows@, r@[i].id) < first_pos(rows@, r@[j].id),
        forall|k: int|
            0 <= k < r@.len() ==> first_pos(rows@, (#[trigger] r@[k]).id) >= 0 && r@[k].name@
                == rows@[first_pos(rows@, r@[k].id)].name@ && r@[k].description@ == rows@[first_pos(
                rows@,
                r@[k].id,
            )].description@ && r@[k].words@ == words_for(rows@, r@[k].id),
        forall|i: int|
            0 <= i < rows@.len() ==> exists|k: int| 0 <= k < r@.len() && r@[k].id == (#[trigger] rows@[i]).id,
{
    let ghost all = rows@;
    let mut rows = rows;
    let mut collections: Vec<Collection> = Vec::new();
    let ghost mut done: int = 0;
    while rows.len() > 0
        invariant
            0 <= done <= all.len(),
            rows@ == all.subrange(done, all.len() as int),
            collections@.map_values(|c: Collection| c@) == assemble(all.take(done)),
        decreases rows.len(),
    {
        let row = rows.remove(0);
        proof {
            assert(all.take(done + 1).drop_last() =~= all.take(done));
            assert(all.take(done + 1).last() == row);
        }
        let ghost before = collections@.map_values(|c: Collection| c@);
        proof {
            lemma_index_of(before, row.id);
        }
        let JoinRow { id, name, description, word } = row;
        match find_collection(&collections, id) {
            Some(i) => {
                let mut c = collections.remove(i);
                let ghost old_c = c@;
                assert(old_c == before[i as int]);
                match word {
                    Some(w) => {
                        c.words.push(w);
                        assert(c.words@ =~= old_c.words + row_words(row));
                    },
                    None => {
                        assert(c.words@ =~= old_c.words + row_words(row));
                    },
                }
                assert(c@ == CollectionView { words: before[i as int].words + row_words(row), ..before[i as int] });
                collections.insert(i, c);
                proof {
                    assert(collections@.map_values(|c: Collection| c@) =~= add_row(before, row));
                }
            },
            None => {
                let mut words: Vec<Word> = Vec::new();
                match word {
                    Some(w) => {
                        words.push(w);
                    },
                    None => {},
                }
                collections.push(Collection { id, name, description, words });
                proof {
                    assert(collections@.map_values(|c: Collection| c@) =~= add_row(before, row));
                }
            },
        }
        proof {
            done = done + 1;
        }
    }
    proof {
        assert(all.take(done) =~= all);
        let v = collections@.map_values(|c: Collection| c@);
        lemma_assemble(all);
        assert forall|k: int| 0 <= k < collections@.len() implies v[k] == (#[trigger] collections@[k])@ by {}
        assert forall|i: int| 0 <= i < all.len() implies exists|k: int|
            0 <= k < collections@.len() && collections@[k].id == (#[trigger] all[i]).id by {
            lemma_first_pos(all, all[i].id);
            lemma_index_of(v, all[i].id);
            let k = index_of(v, all[i].id);
            assert(collections@[k]@ == v[k]);
        }
    }
    collections
}

} // verus!
