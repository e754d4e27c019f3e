//! The records a store holds and their mathematical views.
use vstd::prelude::*;
use crate::ident::IdentifierError;

verus! {

/// A declared collection: its row in the metadata table.
#[derive(Debug)]
pub struct Collection {
    pub id: i64,
    pub name: String,
    pub schema: String,
}

/// One document of a collection; `entry` is the document's JSON text.
#[derive(Debug)]
pub struct CollectionEntry {
    pub id: i64,
    pub entry: String,
}

pub ghost struct CollectionV {
    pub id: i64,
    pub name: Seq<char>,
    pub schema: Seq<char>,
}

pub ghost struct EntryV {
    pub id: i64,
    pub entry: Seq<char>,
}

impl View for Collection {
    type V = CollectionV;

    open spec fn view(&self) -> CollectionV {
        CollectionV { id: self.id, name: self.name@, schema: self.schema@ }
    }
}

impl DeepView for Collection {
    type V = CollectionV;

    open spec fn deep_view(&self) -> CollectionV {
        self@
    }
}

impl View for CollectionEntry {
    type V = EntryV;

    open spec fn view(&self) -> EntryV {
        EntryV { id: self.id, entry: self.entry@ }
    }
}

impl DeepView for CollectionEntry {
    type V = EntryV;

    open spec fn deep_view(&self) -> EntryV {
        self@
    }
}

impl Collection {
    pub fn duplicate(&self) -> (r: Collection)
        ensures
            r@ == self@,
    {
        Collection { id: self.id, name: self.name.clone(), schema: self.schema.clone() }
    }
}

impl CollectionEntry {
    pub fn duplicate(&self) -> (r: CollectionEntry)
        ensures
            r@ == self@,
    {
        CollectionEntry { id: self.id, entry: self.entry.clone() }
    }
}

/// The failures of a store operation.
#[derive(Debug)]
pub enum StoreError {
    /// No collection, table or record matched.
    NotFound,
    /// The collection name is already taken.
    Conflict,
    /// The collection name was refused by the sanitizer.
    InvalidIdentifier(IdentifierError),
    /// The storage engine failed; the text describes how.
    Internal(String),
}

pub ghost enum StoreErrorV {
    NotFound,
    Conflict,
    InvalidIdentifier(IdentifierError),
    Internal,
}

impl View for StoreError {
    type V = StoreErrorV;

    open spec fn view(&self) -> StoreErrorV {
        match self {
            StoreError::NotFound => StoreErrorV::NotFound,
            StoreError::Conflict => StoreErrorV::Conflict,
            StoreError::InvalidIdentifier(e) => StoreErrorV::InvalidIdentifier(*e),
            StoreError::Internal(_) => StoreErrorV::Internal,
        }
    }
}

/// The view of the result of a store operation.
pub open spec fn result_view<T: DeepView>(r: Result<T, StoreError>) -> Result<T::V, StoreErrorV> {
    match r {
        Ok(v) => Ok(v.deep_view()),
        Err(e) => Err(e@),
    }
}

/// The index of the last element of `s` that satisfies `p`, or -1 when none does.
pub open spec fn find_last<T>(s: Seq<T>, p: spec_fn(T) -> bool) -> int
    decreases s.len(),
{
    if s.len() == 0 {
        -1
    } else if p(s.last()) {
        s.len() - 1
    } else {
        find_last(s.drop_last(), p)
    }
}

pub proof fn lemma_find_last<T>(s: Seq<T>, p: spec_fn(T) -> bool)
    ensures
        -1 <= find_last(s, p) < s.len(),
        find_last(s, p) >= 0 ==> p(s[find_last(s, p)]),
        find_last(s, p) >= 0 ==> forall|j: int| find_last(s, p) < j < s.len() ==> !p(#[trigger] s[j]),
        find_last(s, p) == -1 <==> forall|j: int| 0 <= j < s.len() ==> !p(#[trigger] s[j]),
    decreases s.len(),
{
    if s.len() > 0 && !p(s.last()) {
        let t = s.drop_last();
        lemma_find_last(t, p);
        assert forall|j: int| 0 <= j < s.len() - 1 implies s[j] == #[trigger] t[j] by {}
        assert forall|j: int| find_last(s, p) < j < s.len() implies !p(#[trigger] s[j]) by {
            if j < s.len() - 1 {
                assert(s[j] == t[j]);
            }
        }
        if find_last(s, p) == -1 {
            assert forall|j: int| 0 <= j < s.len() implies !p(#[trigger] s[j]) by {
                if j < s.len() - 1 {
                    assert(s[j] == t[j]);
                }
            }
        }
        if forall|j: int| 0 <= j < s.len() ==> !p(#[trigger] s[j]) {
            assert forall|j: int| 0 <= j < t.len() implies !p(#[trigger] t[j]) by {
                assert(s[j] == t[j]);
            }
        }
    }
}

/// The last element that satisfies `p` sits at `k`.
pub proof fn lemma_find_last_is<T>(s: Seq<T>, p: spec_fn(T) -> bool, k: int)
    requires
        0 <= k < s.len(),
        p(s[k]),
        forall|j: int| k < j < s.len() ==> !p(#[trigger] s[j]),
    ensures
        find_last(s, p) == k,
    decreases s.len(),
{
    if k < s.len() - 1 {
        let t = s.drop_last();
        assert(!p(s[s.len() - 1]));
        assert forall|j: int| k < j < t.len() implies !p(#[trigger] t[j]) by {
            assert(t[j] == s[j]);
        }
        lemma_find_last_is(t, p, k);
    }
}

/// Replacing an element by one that `p` judges alike keeps the search result.
pub proof fn lemma_find_last_update<T>(s: Seq<T>, p: spec_fn(T) -> bool, k: int, x: T)
    requires
        0 <= k < s.len(),
        p(s[k]) == p(x),
    ensures
        find_last(s.update(k, x), p) == find_last(s, p),
    decreases s.len(),
{
    let u = s.update(k, x);
    if k < s.len() - 1 {
        assert(u.drop_last() =~= s.drop_last().update(k, x));
        assert(u.last() == s.last());
        if !p(s.last()) {
            lemma_find_last_update(s.drop_last(), p, k, x);
        }
    } else {
        assert(u.drop_last() =~= s.drop_last());
    }
}

/// Appending an element that `p` rejects keeps the search result.
pub proof fn lemma_find_last_push<T>(s: Seq<T>, p: spec_fn(T) -> bool, x: T)
    requires
        !p(x),
    ensures
        find_last(s.push(x), p) == find_last(s, p),
{
    assert(s.push(x).drop_last() =~= s);
}

/// Searching a prefix of `s` that ends after the last match finds the same element.
pub proof fn lemma_find_last_prefix<T>(s: Seq<T>, p: spec_fn(T) -> bool, i: int)
    requires
        0 <= i < s.len(),
        !p(s[i]),
        find_last(s, p) == find_last(s.subrange(0, i + 1), p),
    ensures
        find_last(s, p) == find_last(s.subrange(0, i), p),
{
    assert(s.subrange(0, i + 1).drop_last() =~= s.subrange(0, i));
}

} // verus!
