//! Properties that relate several store operations.
use vstd::prelude::*;
use crate::codec::is_json_text;
use crate::ident::is_valid_name;
use crate::model::{lemma_find_last, lemma_find_last_push, lemma_find_last_update, lemma_find_last_is, EntryV, StoreErrorV};
use crate::spec::{
    collection_index, delete_collection_spec, update_collection_spec, create_collection_spec, create_record_spec, delete_record_spec, has_record, has_table, invalid_name,
    is_declared, list_records_spec, named, row_index, store_wf, table_for, table_index, table_wf,
    update_record_spec, view_collection_spec, view_record_spec, with_id, StoreV,
};

verus! {

/// Declaring a fresh, valid name and then looking it up returns a collection
/// with that name and schema.
pub proof fn lemma_create_then_view(s: StoreV, n: Seq<char>, schema: Seq<char>)
    requires
        store_wf(s),
        is_valid_name(n),
        !is_declared(s, n),
        s.next_collection_id < i64::MAX,
    ensures
        create_collection_spec(s, n, schema).1 is Ok,
        create_collection_spec(s, n, schema).1->Ok_0.name == n,
        create_collection_spec(s, n, schema).1->Ok_0.schema == schema,
        view_collection_spec(create_collection_spec(s, n, schema).0, n)
            == create_collection_spec(s, n, schema).1,
{
    let s2 = create_collection_spec(s, n, schema).0;
    lemma_find_last_is(s2.collections, named(n), s.collections.len() as int);
}

/// Every record operation refuses a name that fails sanitization and leaves
/// the store as it was.
pub proof fn lemma_invalid_name_refused(s: StoreV, n: Seq<char>, id: i64, e: Seq<char>)
    requires
        !is_valid_name(n),
    ensures
        invalid_name(n) is InvalidIdentifier,
        list_records_spec(s, n) == Err::<Seq<EntryV>, StoreErrorV>(invalid_name(n)),
        create_record_spec(s, n, e) == (s, Err::<EntryV, StoreErrorV>(invalid_name(n))),
        view_record_spec(s, n, id) == Err::<EntryV, StoreErrorV>(invalid_name(n)),
        update_record_spec(s, n, id, e) == (s, Err::<EntryV, StoreErrorV>(invalid_name(n))),
        delete_record_spec(s, n, id) == (s, Err::<(), StoreErrorV>(invalid_name(n))),
{
}

/// After a record is created, its table is the one found under `n`, and the
/// new record is the one found under its id.
proof fn lemma_created_record_found(s: StoreV, n: Seq<char>, e: Seq<char>)
    requires
        store_wf(s),
        is_valid_name(n),
        create_record_spec(s, n, e).1 is Ok,
    ensures
        ({
            let s2 = create_record_spec(s, n, e).0;
            let r = create_record_spec(s, n, e).1->Ok_0;
            &&& has_table(s2, n)
            &&& s2.tables[table_index(s2, n)].next_id == r.id + 1
            &&& row_index(s2, n, r.id) == s2.tables[table_index(s2, n)].rows.len() - 1
            &&& s2.tables[table_index(s2, n)].rows.len() >= 1
            &&& s2.tables[table_index(s2, n)].rows.last() == r
        }),
{
    let s2 = create_record_spec(s, n, e).0;
    let r = create_record_spec(s, n, e).1->Ok_0;
    let t = table_index(s, n);
    lemma_find_last(s.tables, table_for(n));
    if t >= 0 {
        assert forall|j: int| t < j < s2.tables.len() implies !table_for(n)(#[trigger] s2.tables[j]) by {
            assert(s2.tables[j] == s.tables[j]);
        }
        lemma_find_last_is(s2.tables, table_for(n), t);
    } else {
        lemma_find_last_is(s2.tables, table_for(n), s.tables.len() as int);
    }
    let rows = s2.tables[table_index(s2, n)].rows;
    assert(rows.len() >= 1);
    lemma_find_last_is(rows, with_id(r.id), rows.len() - 1);
}

/// A record of JSON text reads back as it was written.
pub proof fn lemma_create_then_view_record(s: StoreV, n: Seq<char>, e: Seq<char>)
    requires
        store_wf(s),
        is_valid_name(n),
        is_json_text(e),
        has_table(s, n) ==> s.tables[table_index(s, n)].next_id < i64::MAX,
    ensures
        create_record_spec(s, n, e).1 is Ok,
        create_record_spec(s, n, e).1->Ok_0.entry == e,
        view_record_spec(create_record_spec(s, n, e).0, n, create_record_spec(s, n, e).1->Ok_0.id)
            == create_record_spec(s, n, e).1,
{
    lemma_created_record_found(s, n, e);
    let s2 = create_record_spec(s, n, e).0;
    let r = create_record_spec(s, n, e).1->Ok_0;
    let rows = s2.tables[table_index(s2, n)].rows;
    assert(has_record(s2, n, r.id));
    assert(rows[row_index(s2, n, r.id)] == r);
}

/// Two records created one after the other in one collection get increasing ids.
pub proof fn lemma_record_ids_increase(s: StoreV, n: Seq<char>, e1: Seq<char>, e2: Seq<char>)
    requires
        store_wf(s),
        is_valid_name(n),
        has_table(s, n) ==> s.tables[table_index(s, n)].next_id < i64::MAX - 1,
    ensures
        create_record_spec(s, n, e1).1 is Ok,
        create_record_spec(create_record_spec(s, n, e1).0, n, e2).1 is Ok,
        create_record_spec(s, n, e1).1->Ok_0.id
            < create_record_spec(create_record_spec(s, n, e1).0, n, e2).1->Ok_0.id,
{
    lemma_created_record_found(s, n, e1);
}

/// Once deleted, a record is no longer found.
pub proof fn lemma_delete_then_view_record(s: StoreV, n: Seq<char>, id: i64)
    requires
        store_wf(s),
        is_valid_name(n),
    ensures
        view_record_spec(delete_record_spec(s, n, id).0, n, id) == Err::<EntryV, StoreErrorV>(StoreErrorV::NotFound),
{
    if has_record(s, n, id) {
        let s2 = delete_record_spec(s, n, id).0;
        let t = table_index(s, n);
        lemma_find_last(s.tables, table_for(n));
        assert forall|j: int| t < j < s2.tables.len() implies !table_for(n)(#[trigger] s2.tables[j]) by {
            assert(s2.tables[j] == s.tables[j]);
        }
        lemma_find_last_is(s2.tables, table_for(n), t);
        let rows = s.tables[t].rows;
        let k = row_index(s, n, id);
        lemma_find_last(rows, with_id(id));
        assert(table_wf(s.tables[t]));
        let rows2 = rows.remove(k);
        assert forall|j: int| 0 <= j < rows2.len() implies !with_id(id)(#[trigger] rows2[j]) by {
            if j < k {
                assert(rows2[j] == rows[j]);
                assert(rows[j].id < rows[k].id);
            } else {
                assert(rows2[j] == rows[j + 1]);
                assert(rows[k].id < rows[j + 1].id);
            }
        }
        lemma_find_last(rows2, with_id(id));
        assert(s2.tables[t].rows == rows2);
    }
}

/// A declared collection that has never received a record lists no records.
pub proof fn lemma_declared_without_records_lists_empty(s: StoreV, n: Seq<char>, schema: Seq<char>)
    requires
        is_valid_name(n),
        !has_table(s, n),
    ensures
        list_records_spec(create_collection_spec(s, n, schema).0, n) == Ok::<Seq<EntryV>, StoreErrorV>(Seq::empty()),
{
}

/// Declaring a collection keeps ids ordered and names unique.
pub proof fn lemma_create_collection_wf(s: StoreV, n: Seq<char>, schema: Seq<char>)
    requires
        store_wf(s),
    ensures
        store_wf(create_collection_spec(s, n, schema).0),
{
    lemma_find_last(s.collections, named(n));
}

/// Renaming a collection keeps ids ordered and names unique.
pub proof fn lemma_update_collection_wf(s: StoreV, n: Seq<char>, new_name: Seq<char>, schema: Seq<char>)
    requires
        store_wf(s),
    ensures
        store_wf(update_collection_spec(s, n, new_name, schema).0),
{
    lemma_find_last(s.collections, named(n));
    lemma_find_last(s.collections, named(new_name));
    lemma_find_last(s.tables, table_for(n));
    lemma_find_last(s.tables, table_for(new_name));
    let s2 = update_collection_spec(s, n, new_name, schema).0;
    if update_collection_spec(s, n, new_name, schema).1 is Ok {
        let t = table_index(s, n);
        assert forall|i: int| 0 <= i < s2.tables.len() implies table_wf(#[trigger] s2.tables[i]) by {
            assert(table_wf(s.tables[i]));
        }
    }
}

/// Deleting a collection keeps ids ordered and names unique.
pub proof fn lemma_delete_collection_wf(s: StoreV, n: Seq<char>)
    requires
        store_wf(s),
    ensures
        store_wf(delete_collection_spec(s, n).0),
{
    lemma_find_last(s.collections, named(n));
    lemma_find_last(s.tables, table_for(n));
    let s2 = delete_collection_spec(s, n).0;
    if is_valid_name(n) {
        let i = collection_index(s, n);
        let t = table_index(s, n);
        assert forall|a: int, b: int| 0 <= a < b < s2.collections.len() implies
            s2.collections[a].id < s2.collections[b].id && s2.collections[a].name != s2.collections[b].name by {
            let a1 = if i >= 0 && a >= i { a + 1 } else { a };
            let b1 = if i >= 0 && b >= i { b + 1 } else { b };
            assert(s2.collections[a] == s.collections[a1]);
            assert(s2.collections[b] == s.collections[b1]);
        }
        assert forall|a: int| 0 <= a < s2.collections.len() implies
            1 <= #[trigger] s2.collections[a].id < s2.next_collection_id by {
            let a1 = if i >= 0 && a >= i { a + 1 } else { a };
            assert(s2.collections[a] == s.collections[a1]);
        }
        assert forall|a: int, b: int| 0 <= a < b < s2.tables.len() implies
            s2.tables[a].name != s2.tables[b].name by {
            let a1 = if t >= 0 && a >= t { a + 1 } else { a };
            let b1 = if t >= 0 && b >= t { b + 1 } else { b };
            assert(s2.tables[a] == s.tables[a1]);
            assert(s2.tables[b] == s.tables[b1]);
        }
        assert forall|a: int| 0 <= a < s2.tables.len() implies table_wf(#[trigger] s2.tables[a]) by {
            let a1 = if t >= 0 && a >= t { a + 1 } else { a };
            assert(s2.tables[a] == s.tables[a1]);
            assert(table_wf(s.tables[a1]));
        }
    }
}

/// Appending a record keeps each table's ids increasing and below its counter.
pub proof fn lemma_create_record_wf(s: StoreV, n: Seq<char>, e: Seq<char>)
    requires
        store_wf(s),
    ensures
        store_wf(create_record_spec(s, n, e).0),
{
    lemma_find_last(s.tables, table_for(n));
    let s2 = create_record_spec(s, n, e).0;
    if create_record_spec(s, n, e).1 is Ok {
        let t = table_index(s, n);
        let last = s2.tables.len() - 1;
        let k = if t >= 0 { t } else { last };
        let old_rows: Seq<EntryV> = if t >= 0 { s.tables[t].rows } else { Seq::empty() };
        if t >= 0 {
            assert(table_wf(s.tables[t]));
        }
        assert(s2.tables[k].rows == old_rows.push(create_record_spec(s, n, e).1->Ok_0));
        assert(table_wf(s2.tables[k]));
        assert forall|a: int| 0 <= a < s2.tables.len() implies table_wf(#[trigger] s2.tables[a]) by {
            if a != k {
                assert(s2.tables[a] == s.tables[a]);
                assert(table_wf(s.tables[a]));
            }
        }
    }
}

/// Overwriting a record keeps the ids of its table unchanged.
pub proof fn lemma_update_record_wf(s: StoreV, n: Seq<char>, id: i64, e: Seq<char>)
    requires
        store_wf(s),
    ensures
        store_wf(update_record_spec(s, n, id, e).0),
{
    let s2 = update_record_spec(s, n, id, e).0;
    if update_record_spec(s, n, id, e).1 is Ok {
        let t = table_index(s, n);
        lemma_find_last(s.tables, table_for(n));
        lemma_find_last(s.tables[t].rows, with_id(id));
        assert(table_wf(s.tables[t]));
        let rows = s.tables[t].rows;
        let rows2 = s2.tables[t].rows;
        assert forall|a: int| 0 <= a < rows2.len() implies rows2[a].id == rows[a].id by {}
        assert(table_wf(s2.tables[t]));
        assert forall|a: int| 0 <= a < s2.tables.len() implies table_wf(#[trigger] s2.tables[a]) by {
            if a != t {
                assert(table_wf(s.tables[a]));
            }
        }
    }
}

/// Removing a record keeps the remaining ids of its table increasing.
pub proof fn lemma_delete_record_wf(s: StoreV, n: Seq<char>, id: i64)
    requires
        store_wf(s),
    ensures
        store_wf(delete_record_spec(s, n, id).0),
{
    let s2 = delete_record_spec(s, n, id).0;
    if delete_record_spec(s, n, id).1 is Ok {
        let t = table_index(s, n);
        lemma_find_last(s.tables, table_for(n));
        let k = row_index(s, n, id);
        lemma_find_last(s.tables[t].rows, with_id(id));
        assert(table_wf(s.tables[t]));
        let rows = s.tables[t].rows;
        let rows2 = s2.tables[t].rows;
        assert forall|a: int, b: int| 0 <= a < b < rows2.len() implies rows2[a].id < rows2[b].id by {
            let a1 = if a >= k { a + 1 } else { a };
            let b1 = if b >= k { b + 1 } else { b };
            assert(rows2[a] == rows[a1]);
            assert(rows2[b] == rows[b1]);
        }
        assert forall|a: int| 0 <= a < rows2.len() implies 1 <= #[trigger] rows2[a].id < s2.tables[t].next_id by {
            let a1 = if a >= k { a + 1 } else { a };
            assert(rows2[a] == rows[a1]);
        }
        assert(table_wf(s2.tables[t]));
        assert forall|a: int| 0 <= a < s2.tables.len() implies table_wf(#[trigger] s2.tables[a]) by {
            if a != t {
                assert(table_wf(s.tables[a]));
            }
        }
    }
}

/// A new record's id is greater than the id of every record already in its
/// collection.
pub proof fn lemma_new_record_id_exceeds_existing(s: StoreV, n: Seq<char>, e: Seq<char>)
    requires
        store_wf(s),
        create_record_spec(s, n, e).1 is Ok,
    ensures
        has_table(s, n) ==> forall|i: int| 0 <= i < s.tables[table_index(s, n)].rows.len()
            ==> #[trigger] s.tables[table_index(s, n)].rows[i].id < create_record_spec(s, n, e).1->Ok_0.id,
{
    lemma_find_last(s.tables, table_for(n));
    if has_table(s, n) {
        assert(table_wf(s.tables[table_index(s, n)]));
    }
}

/// No record operation, on any collection, lowers the id counter of the table
/// of `n` or removes that table; creating a record in `n` raises it.
pub proof fn lemma_record_ops_keep_counter(s: StoreV, n: Seq<char>, m: Seq<char>, id: i64, e: Seq<char>)
    requires
        store_wf(s),
        has_table(s, n),
    ensures
        ({
            let c = s.tables[table_index(s, n)].next_id;
            let s1 = create_record_spec(s, m, e).0;
            let s2 = update_record_spec(s, m, id, e).0;
            let s3 = delete_record_spec(s, m, id).0;
            &&& has_table(s1, n) && s1.tables[table_index(s1, n)].next_id >= c
            &&& (create_record_spec(s, m, e).1 is Ok && m == n ==> s1.tables[table_index(s1, n)].next_id > c)
            &&& has_table(s2, n) && s2.tables[table_index(s2, n)].next_id == c
            &&& has_table(s3, n) && s3.tables[table_index(s3, n)].next_id == c
        }),
{
    let p = table_for(n);
    let t = table_index(s, n);
    lemma_find_last(s.tables, p);
    lemma_find_last(s.tables, table_for(m));
    let tm = table_index(s, m);
    if create_record_spec(s, m, e).1 is Ok {
        let s1 = create_record_spec(s, m, e).0;
        if tm >= 0 {
            lemma_find_last_update(s.tables, p, tm, s1.tables[tm]);
            assert(s1.tables == s.tables.update(tm, s1.tables[tm]));
        } else {
            lemma_find_last_push(s.tables, p, s1.tables.last());
            assert(s1.tables == s.tables.push(s1.tables.last()));
            assert(s1.tables[t] == s.tables[t]);
        }
    }
    if update_record_spec(s, m, id, e).1 is Ok {
        let s2 = update_record_spec(s, m, id, e).0;
        lemma_find_last_update(s.tables, p, tm, s2.tables[tm]);
        assert(s2.tables == s.tables.update(tm, s2.tables[tm]));
    }
    if delete_record_spec(s, m, id).1 is Ok {
        let s3 = delete_record_spec(s, m, id).0;
        lemma_find_last_update(s.tables, p, tm, s3.tables[tm]);
        assert(s3.tables == s.tables.update(tm, s3.tables[tm]));
    }
}

} // verus!
