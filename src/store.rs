//! An in-memory collection store: metadata rows plus one lazily created
//! table per collection, behaving exactly as `spec` describes.
use vstd::prelude::*;
use vstd::string::*;
use crate::codec::{is_json, is_json_text};
use crate::ident::{is_valid_name, sanitize};
use crate::sql::rename_check;
use crate::laws::{
    lemma_create_collection_wf, lemma_create_record_wf, lemma_delete_collection_wf,
    lemma_delete_record_wf, lemma_update_collection_wf, lemma_update_record_wf,
};
use crate::model::{
    find_last, lemma_find_last, lemma_find_last_prefix, result_view, Collection, CollectionEntry,
    CollectionV, EntryV, StoreError, StoreErrorV,
};
use crate::spec::{
    collection_index, create_collection_spec, create_record_spec, delete_collection_spec,
    delete_record_spec, empty_store, has_record, has_table, invalid_name, list_collections_spec,
    list_records_spec, named, row_index, rows_are_json, store_wf, table_for, table_index, update_collection_spec,
    update_record_spec, view_collection_spec, view_record_spec, with_id, StoreV, TableV,
};

verus! {

struct Table {
    name: String,
    next_id: i64,
    rows: Vec<CollectionEntry>,
}

impl View for Table {
    type V = TableV;

    closed spec fn view(&self) -> TableV {
        TableV { name: self.name@, next_id: self.next_id, rows: entries_view(self.rows@) }
    }
}

pub open spec fn entries_view(s: Seq<CollectionEntry>) -> Seq<EntryV> {
    s.map_values(|e: CollectionEntry| e@)
}

pub open spec fn collections_view(s: Seq<Collection>) -> Seq<CollectionV> {
    s.map_values(|c: Collection| c@)
}

pub open spec fn unit_view(r: Result<(), StoreError>) -> Result<(), StoreErrorV> {
    match r {
        Ok(_) => Ok(()),
        Err(e) => Err(e@),
    }
}

fn ids_exhausted() -> (r: StoreError)
    ensures
        r@ == StoreErrorV::Internal,
{
    StoreError::Internal(String::from_str("ids exhausted"))
}

fn not_json() -> (r: StoreError)
    ensures
        r@ == StoreErrorV::Internal,
{
    StoreError::Internal(String::from_str("stored entry is not JSON"))
}

/// Refuses a name that `sanitize` does not accept.
fn check_name(name: &str) -> (r: Result<(), StoreError>)
    ensures
        r is Ok <==> is_valid_name(name@),
        r is Err ==> r->Err_0@ == invalid_name(name@),
{
    match sanitize(name) {
        Ok(_) => Ok(()),
        Err(k) => Err(StoreError::InvalidIdentifier(k)),
    }
}

/// The records of one store: the metadata table and the physical tables.
pub struct CollectionStore {
    collections: Vec<Collection>,
    next_collection_id: i64,
    tables: Vec<Table>,
}

impl View for CollectionStore {
    type V = StoreV;

    closed spec fn view(&self) -> StoreV {
        StoreV {
            collections: collections_view(self.collections@),
            next_collection_id: self.next_collection_id,
            tables: self.tables@.map_values(|t: Table| t@),
        }
    }
}

fn locate_row(rows: &Vec<CollectionEntry>, id: i64) -> (r: Option<usize>)
    ensures
        match r {
            Some(i) => i < rows.len() && i as int == find_last(entries_view(rows@), with_id(id)),
            None => find_last(entries_view(rows@), with_id(id)) == -1,
        },
{
    let ghost vs = entries_view(rows@);
    let ghost p = with_id(id);
    let mut i: usize = rows.len();
    assert(vs.subrange(0, i as int) =~= vs);
    while i > 0
        invariant
            i <= rows.len(),
            vs == entries_view(rows@),
            p == with_id(id),
            find_last(vs, p) == find_last(vs.subrange(0, i as int), p),
        decreases i,
    {
        i = i - 1;
        if rows[i].id == id {
            assert(vs.subrange(0, i as int + 1).last() == vs[i as int]);
            return Some(i);
        }
        proof {
            lemma_find_last_prefix(vs, p, i as int);
        }
    }
    None
}

impl CollectionStore {
    pub open spec fn wf(&self) -> bool {
        store_wf(self@)
    }

    /// A store with no collections and no tables.
    pub fn new() -> (r: CollectionStore)
        ensures
            r@ == empty_store(),
            r.wf(),
    {
        let r = CollectionStore { collections: Vec::new(), next_collection_id: 1, tables: Vec::new() };
        assert(r@.collections =~= Seq::empty());
        assert(r@.tables =~= Seq::empty());
        r
    }

    fn locate_collection(&self, key: &String) -> (r: Option<usize>)
        ensures
            match r {
                Some(i) => i < self.collections.len() && i as int == collection_index(self@, key@),
                None => collection_index(self@, key@) == -1,
            },
    {
        let ghost vs = self@.collections;
        let ghost p = named(key@);
        let mut i: usize = self.collections.len();
        assert(vs.subrange(0, i as int) =~= vs);
        while i > 0
            invariant
                i <= self.collections.len(),
                vs == self@.collections,
                p == named(key@),
                find_last(vs, p) == find_last(vs.subrange(0, i as int), p),
            decreases i,
        {
            i = i - 1;
            if self.collections[i].name == *key {
                assert(vs.subrange(0, i as int + 1).last() == vs[i as int]);
                return Some(i);
            }
            proof {
                lemma_find_last_prefix(vs, p, i as int);
            }
        }
        None
    }

    fn locate_table(&self, key: &String) -> (r: Option<usize>)
        ensures
            match r {
                Some(i) => i < self.tables.len() && i as int == table_index(self@, key@),
                None => table_index(self@, key@) == -1,
            },
    {
        let ghost vs = self@.tables;
        let ghost p = table_for(key@);
        let mut i: usize = self.tables.len();
        assert(vs.subrange(0, i as int) =~= vs);
        while i > 0
            invariant
                i <= self.tables.len(),
                vs == self@.tables,
                p == table_for(key@),
                find_last(vs, p) == find_last(vs.subrange(0, i as int), p),
            decreases i,
        {
            i = i - 1;
            if self.tables[i].name == *key {
                assert(vs.subrange(0, i as int + 1).last() == vs[i as int]);
                return Some(i);
            }
            proof {
                lemma_find_last_prefix(vs, p, i as int);
            }
        }
        None
    }

    /// Every declared collection, in the order of declaration.
    pub fn list_collections(&self) -> (r: Vec<Collection>)
        ensures
            r.deep_view() == list_collections_spec(self@),
    {
        let mut out: Vec<Collection> = Vec::new();
        let mut i: usize = 0;
        while i < self.collections.len()
            invariant
                i <= self.collections.len(),
                out@.len() == i,
                forall|j: int| 0 <= j < i ==> (#[trigger] out@[j])@ == self.collections@[j]@,
            decreases self.collections.len() - i,
        {
            out.push(self.collections[i].duplicate());
            i = i + 1;
        }
        assert(out.deep_view() =~= self@.collections);
        out
    }

    /// Declares the collection `name` with the given schema text. Its table
    /// is created only when its first record arrives.
    pub fn create_collection(&mut self, name: &str, schema: String) -> (r: Result<Collection, StoreError>)
        requires
            old(self).wf(),
        ensures
            final(self).wf(),
            final(self)@ == create_collection_spec(old(self)@, name@, schema@).0,
            result_view(r) == create_collection_spec(old(self)@, name@, schema@).1,
    {
        proof {
            lemma_create_collection_wf(self@, name@, schema@);
        }
        if let Err(e) = check_name(name) {
            return Err(e);
        }
        let key = String::from_str(name);
        if self.locate_collection(&key).is_some() {
            return Err(StoreError::Conflict);
        }
        if self.next_collection_id == i64::MAX {
            return Err(ids_exhausted());
        }
        let c = Collection { id: self.next_collection_id, name: key, schema };
        let out = c.duplicate();
        self.collections.push(c);
        self.next_collection_id = self.next_collection_id + 1;
        assert(self@.collections =~= old(self)@.collections.push(out@));
        Ok(out)
    }

    /// The collection declared under `name`.
    pub fn view_collection(&self, name: &str) -> (r: Result<Collection, StoreError>)
        ensures
            result_view(r) == view_collection_spec(self@, name@),
    {
        if let Err(e) = check_name(name) {
            return Err(e);
        }
        let key = String::from_str(name);
        match self.locate_collection(&key) {
            None => Err(StoreError::NotFound),
            Some(i) => Ok(self.collections[i].duplicate()),
        }
    }

    /// Renames the collection `name` to `new_name` and replaces its schema;
    /// its table, if it has one, follows the new name. A new name that
    /// already has a table, even one whose collection was never declared, is
    /// a conflict: the table could not move onto it.
    pub fn update_collection(&mut self, name: &str, new_name: &str, schema: String) -> (r: Result<Collection, StoreError>)
        requires
            old(self).wf(),
        ensures
            final(self).wf(),
            final(self)@ == update_collection_spec(old(self)@, name@, new_name@, schema@).0,
            result_view(r) == update_collection_spec(old(self)@, name@, new_name@, schema@).1,
    {
        proof {
            lemma_update_collection_wf(self@, name@, new_name@, schema@);
        }
        if let Err(e) = check_name(name) {
            return Err(e);
        }
        if let Err(e) = check_name(new_name) {
            return Err(e);
        }
        let key = String::from_str(name);
        let new_key = String::from_str(new_name);
        let i = match self.locate_collection(&key) {
            None => {
                return Err(StoreError::NotFound);
            },
            Some(i) => i,
        };
        let taken = self.locate_collection(&new_key).is_some() || self.locate_table(&new_key).is_some();
        if let Err(e) = rename_check(name, new_name, taken) {
            return Err(e);
        }
        let c = Collection { id: self.collections[i].id, name: new_key.clone(), schema };
        let out = c.duplicate();
        self.collections.set(i, c);
        assert(self@.collections =~= old(self)@.collections.update(i as int, out@));
        match self.locate_table(&key) {
            None => {},
            Some(t) => {
                let mut tb = self.tables.remove(t);
                tb.name = new_key;
                self.tables.insert(t, tb);
                assert(self@.tables =~= old(self)@.tables.update(
                    t as int,
                    TableV { name: new_name@, ..old(self)@.tables[t as int] },
                ));
            },
        }
        Ok(out)
    }

    /// Removes the collection `name` together with its table.
    pub fn delete_collection(&mut self, name: &str) -> (r: Result<(), StoreError>)
        requires
            old(self).wf(),
        ensures
            final(self).wf(),
            final(self)@ == delete_collection_spec(old(self)@, name@).0,
            unit_view(r) == delete_collection_spec(old(self)@, name@).1,
    {
        proof {
            lemma_delete_collection_wf(self@, name@);
        }
        if let Err(e) = check_name(name) {
            return Err(e);
        }
        let key = String::from_str(name);
        match self.locate_collection(&key) {
            None => {},
            Some(i) => {
                self.collections.remove(i);
                assert(self@.collections =~= old(self)@.collections.remove(i as int));
            },
        }
        match self.locate_table(&key) {
            None => {},
            Some(t) => {
                self.tables.remove(t);
                assert(self@.tables =~= old(self)@.tables.remove(t as int));
            },
        }
        Ok(())
    }

    /// The records of the collection `name`, oldest first; none when its
    /// table was never created.
    pub fn list_collection_records(&self, name: &str) -> (r: Result<Vec<CollectionEntry>, StoreError>)
        ensures
            result_view(r) == list_records_spec(self@, name@),
    {
        if let Err(e) = check_name(name) {
            return Err(e);
        }
        let key = String::from_str(name);
        let mut out: Vec<CollectionEntry> = Vec::new();
        match self.locate_table(&key) {
            None => {
                assert(out.deep_view() =~= Seq::<EntryV>::empty());
            },
            Some(t) => {
                let rows = &self.tables[t].rows;
                let mut i: usize = 0;
                while i < rows.len()
                    invariant
                        t < self.tables@.len(),
                        t as int == table_index(self@, name@),
                        is_valid_name(name@),
                        rows@ == self.tables@[t as int].rows@,
                        i <= rows.len(),
                        out@.len() == i,
                        forall|j: int| 0 <= j < i ==> (#[trigger] out@[j])@ == rows@[j]@,
                        forall|j: int| 0 <= j < i ==> is_json_text(#[trigger] rows@[j]@.entry),
                    decreases rows.len() - i,
                {
                    let text = rows[i].entry.as_str();
                    if !is_json(text) {
                        assert(self@.tables[t as int].rows[i as int] == rows@[i as int]@);
                        assert(!is_json_text(self@.tables[t as int].rows[i as int].entry));
                        assert(!rows_are_json(self@.tables[t as int].rows));
                        return Err(not_json());
                    }
                    out.push(rows[i].duplicate());
                    i = i + 1;
                }
                assert(out.deep_view() =~= self@.tables[t as int].rows);
                assert(rows_are_json(self@.tables[t as int].rows)) by {
                    assert forall|j: int| 0 <= j < rows@.len() implies is_json_text(
                        #[trigger] self@.tables[t as int].rows[j].entry,
                    ) by {
                        assert(self@.tables[t as int].rows[j] == rows@[j]@);
                    }
                }
            },
        }
        Ok(out)
    }

    /// Stores `entry` as a new record of the collection `name`, creating the
    /// collection's table first when it does not exist yet.
    pub fn create_collection_record(&mut self, name: &str, entry: String) -> (r: Result<CollectionEntry, StoreError>)
        requires
            old(self).wf(),
        ensures
            final(self).wf(),
            final(self)@ == create_record_spec(old(self)@, name@, entry@).0,
            result_view(r) == create_record_spec(old(self)@, name@, entry@).1,
    {
        proof {
            lemma_create_record_wf(self@, name@, entry@);
            lemma_find_last(self@.tables, table_for(name@));
        }
        if let Err(e) = check_name(name) {
            return Err(e);
        }
        let key = String::from_str(name);
        match self.locate_table(&key) {
            Some(t) => {
                if self.tables[t].next_id == i64::MAX {
                    return Err(ids_exhausted());
                }
                let mut tb = self.tables.remove(t);
                let ghost old_rows = tb@.rows;
                let e = CollectionEntry { id: tb.next_id, entry };
                let out = e.duplicate();
                tb.rows.push(e);
                tb.next_id = tb.next_id + 1;
                assert(tb@.rows =~= old_rows.push(out@));
                self.tables.insert(t, tb);
                assert(self@.tables =~= create_record_spec(old(self)@, name@, entry@).0.tables);
                Ok(out)
            },
            None => {
                let mut rows: Vec<CollectionEntry> = Vec::new();
                let e = CollectionEntry { id: 1, entry };
                let out = e.duplicate();
                rows.push(e);
                let tb = Table { name: key, next_id: 2, rows };
                assert(tb@.rows =~= Seq::<EntryV>::empty().push(out@));
                self.tables.push(tb);
                assert(self@.tables =~= create_record_spec(old(self)@, name@, entry@).0.tables);
                Ok(out)
            },
        }
    }

    /// The record `id` of the collection `name`.
    pub fn view_collection_record(&self, name: &str, id: i64) -> (r: Result<CollectionEntry, StoreError>)
        ensures
            result_view(r) == view_record_spec(self@, name@, id),
    {
        if let Err(e) = check_name(name) {
            return Err(e);
        }
        let key = String::from_str(name);
        match self.locate_table(&key) {
            None => Err(StoreError::NotFound),
            Some(t) => match locate_row(&self.tables[t].rows, id) {
                None => Err(StoreError::NotFound),
                Some(k) => {
                    if !is_json(self.tables[t].rows[k].entry.as_str()) {
                        return Err(not_json());
                    }
                    Ok(self.tables[t].rows[k].duplicate())
                },
            },
        }
    }

    /// Replaces the document of the record `id` of the collection `name`.
    pub fn update_collection_record(&mut self, name: &str, id: i64, entry: String) -> (r: Result<CollectionEntry, StoreError>)
        requires
            old(self).wf(),
        ensures
            final(self).wf(),
            final(self)@ == update_record_spec(old(self)@, name@, id, entry@).0,
            result_view(r) == update_record_spec(old(self)@, name@, id, entry@).1,
    {
        proof {
            lemma_update_record_wf(self@, name@, id, entry@);
        }
        if let Err(e) = check_name(name) {
            return Err(e);
        }
        let key = String::from_str(name);
        let t = match self.locate_table(&key) {
            None => {
                return Err(StoreError::NotFound);
            },
            Some(t) => t,
        };
        let k = match locate_row(&self.tables[t].rows, id) {
            None => {
                return Err(StoreError::NotFound);
            },
            Some(k) => k,
        };
        let mut tb = self.tables.remove(t);
        let ghost old_rows = tb@.rows;
        let e = CollectionEntry { id, entry };
        let out = e.duplicate();
        tb.rows.set(k, e);
        assert(tb@.rows =~= old_rows.update(k as int, out@));
        self.tables.insert(t, tb);
        assert(self@.tables =~= update_record_spec(old(self)@, name@, id, entry@).0.tables);
        Ok(out)
    }

    /// Removes the record `id` of the collection `name`.
    pub fn delete_collection_record(&mut self, name: &str, id: i64) -> (r: Result<(), StoreError>)
        requires
            old(self).wf(),
        ensures
            final(self).wf(),
            final(self)@ == delete_record_spec(old(self)@, name@, id).0,
            unit_view(r) == delete_record_spec(old(self)@, name@, id).1,
    {
        proof {
            lemma_delete_record_wf(self@, name@, id);
        }
        if let Err(e) = check_name(name) {
            return Err(e);
        }
        let key = String::from_str(name);
        let t = match self.locate_table(&key) {
            None => {
                return Err(StoreError::NotFound);
            },
            Some(t) => t,
        };
        let k = match locate_row(&self.tables[t].rows, id) {
            None => {
                return Err(StoreError::NotFound);
            },
            Some(k) => k,
        };
        let mut tb = self.tables.remove(t);
        let ghost old_rows = tb@.rows;
        tb.rows.remove(k);
        assert(tb@.rows =~= old_rows.remove(k as int));
        self.tables.insert(t, tb);
        assert(self@.tables =~= delete_record_spec(old(self)@, name@, id).0.tables);
        Ok(())
    }
}

} // verus!
