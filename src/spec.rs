//! The abstract state of a collection store and the meaning of each operation
//! on it.
use vstd::prelude::*;
use crate::codec::is_json_text;
use crate::ident::{is_valid_name, name_error};
use crate::model::{find_last, CollectionV, EntryV, StoreErrorV};

verus! {

/// A physical per-collection table: its collection's name, the id its next
/// row gets, and its rows in insertion order.
pub ghost struct TableV {
    pub name: Seq<char>,
    pub next_id: i64,
    pub rows: Seq<EntryV>,
}

/// The whole store: the metadata rows, the id the next one gets, and the
/// physical tables that exist.
pub ghost struct StoreV {
    pub collections: Seq<CollectionV>,
    pub next_collection_id: i64,
    pub tables: Seq<TableV>,
}

pub open spec fn named(n: Seq<char>) -> spec_fn(CollectionV) -> bool {
    |c: CollectionV| c.name == n
}

pub open spec fn table_for(n: Seq<char>) -> spec_fn(TableV) -> bool {
    |t: TableV| t.name == n
}

pub open spec fn with_id(id: i64) -> spec_fn(EntryV) -> bool {
    |e: EntryV| e.id == id
}

pub open spec fn collection_index(s: StoreV, n: Seq<char>) -> int {
    find_last(s.collections, named(n))
}

pub open spec fn table_index(s: StoreV, n: Seq<char>) -> int {
    find_last(s.tables, table_for(n))
}

/// `n` has a row in the metadata table.
pub open spec fn is_declared(s: StoreV, n: Seq<char>) -> bool {
    collection_index(s, n) >= 0
}

/// The physical table of `n` has been created.
pub open spec fn has_table(s: StoreV, n: Seq<char>) -> bool {
    table_index(s, n) >= 0
}

pub open spec fn table_wf(t: TableV) -> bool {
    &&& 1 <= t.next_id
    &&& forall|i: int, j: int| 0 <= i < j < t.rows.len() ==> t.rows[i].id < t.rows[j].id
    &&& forall|i: int| 0 <= i < t.rows.len() ==> 1 <= #[trigger] t.rows[i].id < t.next_id
}

/// Every name is a valid identifier, ids increase in insertion order, and no
/// two collections or tables share a name.
pub open spec fn store_wf(s: StoreV) -> bool {
    &&& 1 <= s.next_collection_id
    &&& forall|i: int| 0 <= i < s.collections.len() ==> is_valid_name(#[trigger] s.collections[i].name)
    &&& forall|i: int| 0 <= i < s.tables.len() ==> is_valid_name(#[trigger] s.tables[i].name)
    &&& forall|i: int, j: int|
        0 <= i < j < s.collections.len() ==> s.collections[i].id < s.collections[j].id
    &&& forall|i: int| 0 <= i < s.collections.len() ==> 1 <= #[trigger] s.collections[i].id < s.next_collection_id
    &&& forall|i: int, j: int|
        0 <= i < j < s.collections.len() ==> s.collections[i].name != s.collections[j].name
    &&& forall|i: int| 0 <= i < s.tables.len() ==> table_wf(#[trigger] s.tables[i])
    &&& forall|i: int, j: int| 0 <= i < j < s.tables.len() ==> s.tables[i].name != s.tables[j].name
}

pub open spec fn empty_store() -> StoreV {
    StoreV { collections: Seq::empty(), next_collection_id: 1, tables: Seq::empty() }
}

pub open spec fn invalid_name(n: Seq<char>) -> StoreErrorV {
    StoreErrorV::InvalidIdentifier(name_error(n)->Some_0)
}

pub open spec fn list_collections_spec(s: StoreV) -> Seq<CollectionV> {
    s.collections
}

pub open spec fn create_collection_spec(s: StoreV, n: Seq<char>, schema: Seq<char>) -> (StoreV, Result<CollectionV, StoreErrorV>) {
    if !is_valid_name(n) {
        (s, Err(invalid_name(n)))
    } else if is_declared(s, n) {
        (s, Err(StoreErrorV::Conflict))
    } else if s.next_collection_id == i64::MAX {
        (s, Err(StoreErrorV::Internal))
    } else {
        let c = CollectionV { id: s.next_collection_id, name: n, schema };
        (
            StoreV {
                collections: s.collections.push(c),
                next_collection_id: (s.next_collection_id + 1) as i64,
                tables: s.tables,
            },
            Ok(c),
        )
    }
}

pub open spec fn view_collection_spec(s: StoreV, n: Seq<char>) -> Result<CollectionV, StoreErrorV> {
    if !is_valid_name(n) {
        Err(invalid_name(n))
    } else if !is_declared(s, n) {
        Err(StoreErrorV::NotFound)
    } else {
        Ok(s.collections[collection_index(s, n)])
    }
}

/// Renames a collection and replaces its schema; its physical table, if it
/// has one, is renamed with it.
pub open spec fn update_collection_spec(
    s: StoreV,
    n: Seq<char>,
    new_name: Seq<char>,
    schema: Seq<char>,
) -> (StoreV, Result<CollectionV, StoreErrorV>) {
    if !is_valid_name(n) {
        (s, Err(invalid_name(n)))
    } else if !is_valid_name(new_name) {
        (s, Err(invalid_name(new_name)))
    } else if !is_declared(s, n) {
        (s, Err(StoreErrorV::NotFound))
    } else if new_name != n && (is_declared(s, new_name) || has_table(s, new_name)) {
        (s, Err(StoreErrorV::Conflict))
    } else {
        let i = collection_index(s, n);
        let c = CollectionV { id: s.collections[i].id, name: new_name, schema };
        let t = table_index(s, n);
        let tables = if t >= 0 {
            s.tables.update(t, TableV { name: new_name, ..s.tables[t] })
        } else {
            s.tables
        };
        (
            StoreV {
                collections: s.collections.update(i, c),
                next_collection_id: s.next_collection_id,
                tables,
            },
            Ok(c),
        )
    }
}

/// Removes a collection's metadata row and drops its physical table; a name
/// with neither is no error.
pub open spec fn delete_collection_spec(s: StoreV, n: Seq<char>) -> (StoreV, Result<(), StoreErrorV>) {
    if !is_valid_name(n) {
        (s, Err(invalid_name(n)))
    } else {
        let i = collection_index(s, n);
        let t = table_index(s, n);
        (
            StoreV {
                collections: if i >= 0 { s.collections.remove(i) } else { s.collections },
                next_collection_id: s.next_collection_id,
                tables: if t >= 0 { s.tables.remove(t) } else { s.tables },
            },
            Ok(()),
        )
    }
}

/// Every record holds JSON text.
pub open spec fn rows_are_json(rows: Seq<EntryV>) -> bool {
    forall|i: int| 0 <= i < rows.len() ==> is_json_text(#[trigger] rows[i].entry)
}

/// The records of `n`; a table that was never created holds none. A stored
/// entry that is not JSON text is an internal error.
pub open spec fn list_records_spec(s: StoreV, n: Seq<char>) -> Result<Seq<EntryV>, StoreErrorV> {
    if !is_valid_name(n) {
        Err(invalid_name(n))
    } else if !has_table(s, n) {
        Ok(Seq::empty())
    } else if !rows_are_json(s.tables[table_index(s, n)].rows) {
        Err(StoreErrorV::Internal)
    } else {
        Ok(s.tables[table_index(s, n)].rows)
    }
}

/// Creates the table of `n` when it is missing, then appends a record with
/// the table's next id.
pub open spec fn create_record_spec(s: StoreV, n: Seq<char>, e: Seq<char>) -> (StoreV, Result<EntryV, StoreErrorV>) {
    if !is_valid_name(n) {
        (s, Err(invalid_name(n)))
    } else {
        let t = table_index(s, n);
        let table = if t >= 0 { s.tables[t] } else { TableV { name: n, next_id: 1, rows: Seq::empty() } };
        if table.next_id == i64::MAX {
            (s, Err(StoreErrorV::Internal))
        } else {
            let r = EntryV { id: table.next_id, entry: e };
            let table2 = TableV { name: n, next_id: (table.next_id + 1) as i64, rows: table.rows.push(r) };
            (
                StoreV {
                    collections: s.collections,
                    next_collection_id: s.next_collection_id,
                    tables: if t >= 0 { s.tables.update(t, table2) } else { s.tables.push(table2) },
                },
                Ok(r),
            )
        }
    }
}

pub open spec fn row_index(s: StoreV, n: Seq<char>, id: i64) -> int {
    find_last(s.tables[table_index(s, n)].rows, with_id(id))
}

/// The table of `n` exists and holds a record `id`.
pub open spec fn has_record(s: StoreV, n: Seq<char>, id: i64) -> bool {
    has_table(s, n) && row_index(s, n, id) >= 0
}

pub open spec fn view_record_spec(s: StoreV, n: Seq<char>, id: i64) -> Result<EntryV, StoreErrorV> {
    if !is_valid_name(n) {
        Err(invalid_name(n))
    } else if !has_record(s, n, id) {
        Err(StoreErrorV::NotFound)
    } else if !is_json_text(s.tables[table_index(s, n)].rows[row_index(s, n, id)].entry) {
        Err(StoreErrorV::Internal)
    } else {
        Ok(s.tables[table_index(s, n)].rows[row_index(s, n, id)])
    }
}

pub open spec fn update_record_spec(s: StoreV, n: Seq<char>, id: i64, e: Seq<char>) -> (StoreV, Result<EntryV, StoreErrorV>) {
    if !is_valid_name(n) {
        (s, Err(invalid_name(n)))
    } else if !has_record(s, n, id) {
        (s, Err(StoreErrorV::NotFound))
    } else {
        let t = table_index(s, n);
        let r = EntryV { id, entry: e };
        let table = s.tables[t];
        let table2 = TableV { rows: table.rows.update(row_index(s, n, id), r), ..table };
        (
            StoreV {
                collections: s.collections,
                next_collection_id: s.next_collection_id,
                tables: s.tables.update(t, table2),
            },
            Ok(r),
        )
    }
}

pub open spec fn delete_record_spec(s: StoreV, n: Seq<char>, id: i64) -> (StoreV, Result<(), StoreErrorV>) {
    if !is_valid_name(n) {
        (s, Err(invalid_name(n)))
    } else if !has_record(s, n, id) {
        (s, Err(StoreErrorV::NotFound))
    } else {
        let t = table_index(s, n);
        let table = s.tables[t];
        let table2 = TableV { rows: table.rows.remove(row_index(s, n, id)), ..table };
        (
            StoreV {
                collections: s.collections,
                next_collection_id: s.next_collection_id,
                tables: s.tables.update(t, table2),
            },
            Ok(()),
        )
    }
}

} // verus!
