//! The statements a relational engine runs for the store. Every table
//! identifier in them is the fixed prefix followed by a sanitized name.
use vstd::prelude::*;
use vstd::string::*;
use crate::ident::{table_name_of, SafeIdentifier};
use crate::model::{StoreError, StoreErrorV};

verus! {

fn around_table(head: &str, id: &SafeIdentifier, tail: &str) -> (r: String)
    requires
        id.wf(),
    ensures
        r@ == head@ + table_name_of(id@) + tail@,
{
    let s = String::from_str(head);
    let t = id.table_name();
    let s = s.concat(t.as_str());
    s.concat(tail)
}

/// Creates the table of a collection unless it exists.
pub fn create_table_sql(id: &SafeIdentifier) -> (r: String)
    requires
        id.wf(),
    ensures
        r@ == "CREATE TABLE IF NOT EXISTS "@ + table_name_of(id@)
            + " (id INTEGER PRIMARY KEY AUTOINCREMENT, entry TEXT NOT NULL)"@,
{
    around_table(
        "CREATE TABLE IF NOT EXISTS ",
        id,
        " (id INTEGER PRIMARY KEY AUTOINCREMENT, entry TEXT NOT NULL)",
    )
}

/// Inserts a record; the entry text is bound to `?1`.
pub fn insert_record_sql(id: &SafeIdentifier) -> (r: String)
    requires
        id.wf(),
    ensures
        r@ == "INSERT INTO "@ + table_name_of(id@) + " (entry) VALUES (?1)"@,
{
    around_table("INSERT INTO ", id, " (entry) VALUES (?1)")
}

/// Reads every record, in id order.
pub fn select_records_sql(id: &SafeIdentifier) -> (r: String)
    requires
        id.wf(),
    ensures
        r@ == "SELECT id, entry FROM "@ + table_name_of(id@) + " ORDER BY id"@,
{
    around_table("SELECT id, entry FROM ", id, " ORDER BY id")
}

/// Reads the record whose id is bound to `?1`.
pub fn select_record_sql(id: &SafeIdentifier) -> (r: String)
    requires
        id.wf(),
    ensures
        r@ == "SELECT id, entry FROM "@ + table_name_of(id@) + " WHERE id = ?1"@,
{
    around_table("SELECT id, entry FROM ", id, " WHERE id = ?1")
}

/// Overwrites the entry (`?1`) of the record whose id is bound to `?2`.
pub fn update_record_sql(id: &SafeIdentifier) -> (r: String)
    requires
        id.wf(),
    ensures
        r@ == "UPDATE "@ + table_name_of(id@) + " SET entry = ?1 WHERE id = ?2"@,
{
    around_table("UPDATE ", id, " SET entry = ?1 WHERE id = ?2")
}

/// Removes the record whose id is bound to `?1`.
pub fn delete_record_sql(id: &SafeIdentifier) -> (r: String)
    requires
        id.wf(),
    ensures
        r@ == "DELETE FROM "@ + table_name_of(id@) + " WHERE id = ?1"@,
{
    around_table("DELETE FROM ", id, " WHERE id = ?1")
}

/// Drops the table of a collection, if it exists.
pub fn drop_table_sql(id: &SafeIdentifier) -> (r: String)
    requires
        id.wf(),
    ensures
        r@ == "DROP TABLE IF EXISTS "@ + table_name_of(id@) + ""@,
{
    around_table("DROP TABLE IF EXISTS ", id, "")
}

/// Renames the table of `from` to the table of `to`.
pub fn rename_table_sql(from: &SafeIdentifier, to: &SafeIdentifier) -> (r: String)
    requires
        from.wf(),
        to.wf(),
    ensures
        r@ == "ALTER TABLE "@ + table_name_of(from@) + " RENAME TO "@ + table_name_of(to@),
{
    let s = around_table("ALTER TABLE ", from, " RENAME TO ");
    let t = to.table_name();
    s.concat(t.as_str())
}

/// `pat` occurs in `s` at position `i`.
pub open spec fn occurs_at(s: Seq<char>, pat: Seq<char>, i: int) -> bool {
    0 <= i && i + pat.len() <= s.len() && s.subrange(i, i + pat.len()) == pat
}

pub open spec fn contains(s: Seq<char>, pat: Seq<char>) -> bool {
    exists|i: int| occurs_at(s, pat, i)
}

/// Whether `pat` occurs in `s`.
pub fn contains_text(s: &str, pat: &str) -> (r: bool)
    ensures
        r == contains(s@, pat@),
{
    let n = s.unicode_len();
    let m = pat.unicode_len();
    if m > n {
        assert forall|i: int| !occurs_at(s@, pat@, i) by {}
        return false;
    }
    let mut i: usize = 0;
    while i <= n - m
        invariant
            n == s@.len(),
            m == pat@.len(),
            m <= n,
            i <= n - m + 1,
            forall|k: int| 0 <= k < i ==> !#[trigger] occurs_at(s@, pat@, k),
        decreases n - m + 1 - i,
    {
        let mut j: usize = 0;
        let mut same = true;
        while j < m
            invariant
                n == s@.len(),
                m == pat@.len(),
                i + m <= n,
                j <= m,
                same == (forall|q: int| 0 <= q < j ==> s@[i + q] == pat@[q]),
            decreases m - j,
        {
            if s.get_char(i + j) != pat.get_char(j) {
                same = false;
            }
            j = j + 1;
        }
        if same {
            assert(s@.subrange(i as int, i + m) =~= pat@);
            assert(occurs_at(s@, pat@, i as int));
            return true;
        }
        assert(!occurs_at(s@, pat@, i as int)) by {
            let q = choose|q: int| 0 <= q < m && s@[i + q] != pat@[q];
            assert(s@.subrange(i as int, i + m)[q] == s@[i + q]);
        }
        i = i + 1;
    }
    assert forall|k: int| !occurs_at(s@, pat@, k) by {
        if 0 <= k < i {
        }
    }
    false
}

/// The engine reported that the table it was asked about does not exist.
pub fn is_missing_table(message: &str) -> (r: bool)
    ensures
        r == contains(message@, "no such table"@),
{
    let r = contains_text(message, "no such table");
    r
}

/// The outcome of a statement that should have changed exactly one row.
pub fn single_row_outcome(rows_affected: u64) -> (r: Result<(), StoreError>)
    ensures
        r is Ok <==> rows_affected > 0,
        r is Err ==> r->Err_0 is NotFound,
{
    if rows_affected == 0 {
        Err(StoreError::NotFound)
    } else {
        Ok(())
    }
}

/// The error a failed statement stands for, by the engine's message: a
/// missing table is a missing record, a broken uniqueness constraint a
/// taken name, anything else an internal failure.
pub open spec fn engine_error_view(m: Seq<char>) -> StoreErrorV {
    if contains(m, "no such table"@) {
        StoreErrorV::NotFound
    } else if contains(m, "UNIQUE constraint failed"@) {
        StoreErrorV::Conflict
    } else {
        StoreErrorV::Internal
    }
}

/// The store error for a statement that failed with `message`.
pub fn engine_error(message: &str) -> (r: StoreError)
    ensures
        r@ == engine_error_view(message@),
        r is Internal ==> r->Internal_0@ == message@,
{
    if is_missing_table(message) {
        StoreError::NotFound
    } else if contains_text(message, "UNIQUE constraint failed") {
        StoreError::Conflict
    } else {
        StoreError::Internal(String::from_str(message))
    }
}

/// A statement on a table that may never have been created: its absence is
/// no failure (there is nothing to list or to move); any other error is.
pub fn tolerate_missing_table(message: &str) -> (r: Result<(), StoreError>)
    ensures
        r is Ok <==> contains(message@, "no such table"@),
        r is Err ==> r->Err_0@ == engine_error_view(message@),
{
    if is_missing_table(message) {
        Ok(())
    } else {
        Err(engine_error(message))
    }
}

/// Decides a rename of the collection `name` to `new_name`, given whether
/// `new_name` is already used by a collection or a table. Renaming onto a
/// used name is a conflict; otherwise the result tells whether the
/// collection's table has to move.
pub fn rename_check(name: &str, new_name: &str, new_name_taken: bool) -> (r: Result<bool, StoreError>)
    ensures
        name@ != new_name@ && new_name_taken ==> r is Err && r->Err_0@ == StoreErrorV::Conflict,
        !(name@ != new_name@ && new_name_taken) ==> r is Ok && r->Ok_0 == (name@ != new_name@),
{
    let a = String::from_str(name);
    let b = String::from_str(new_name);
    let moves = !(a == b);
    if moves && new_name_taken {
        Err(StoreError::Conflict)
    } else {
        Ok(moves)
    }
}

} // verus!
