//! Validation of client-supplied collection names before they are used to
//! form a physical table identifier.
use vstd::prelude::*;
use vstd::string::*;

verus! {

/// The longest collection name accepted.
pub const MAX_NAME_LEN: usize = 64;

/// Why a collection name was refused.
#[derive(Clone, Copy, Debug, PartialEq, Eq, Structural)]
pub enum IdentifierError {
    Empty,
    TooLong,
    LeadingDigit,
    InvalidChar,
}

pub open spec fn is_digit(c: char) -> bool {
    '0' <= c && c <= '9'
}

/// A character of the class `[A-Za-z0-9_]`.
pub open spec fn is_name_char(c: char) -> bool {
    ('a' <= c && c <= 'z') || ('A' <= c && c <= 'Z') || is_digit(c) || c == '_'
}

pub open spec fn all_name_chars(s: Seq<char>) -> bool {
    forall|i: int| 0 <= i < s.len() ==> #[trigger] is_name_char(s[i])
}

/// The error that `sanitize` reports for `s`, or `None` when `s` is accepted.
pub open spec fn name_error(s: Seq<char>) -> Option<IdentifierError> {
    if s.len() == 0 {
        Some(IdentifierError::Empty)
    } else if s.len() > MAX_NAME_LEN {
        Some(IdentifierError::TooLong)
    } else if !all_name_chars(s) {
        Some(IdentifierError::InvalidChar)
    } else if is_digit(s[0]) {
        Some(IdentifierError::LeadingDigit)
    } else {
        None
    }
}

/// A name that may be embedded in a table identifier.
pub open spec fn is_valid_name(s: Seq<char>) -> bool {
    name_error(s) is None
}

/// The fixed prefix of every per-collection table.
pub open spec fn table_prefix() -> Seq<char> {
    seq!['_', 'c', 'o', 'l', 'l', 'e', 'c', 't', 'i', 'o', 'n', 's', '_']
}

/// The physical table that holds the records of the collection `name`.
pub open spec fn table_name_of(name: Seq<char>) -> Seq<char> {
    table_prefix() + name
}

/// A table identifier built from a valid name holds only `[A-Za-z0-9_]`.
pub proof fn lemma_table_name_chars(n: Seq<char>)
    requires
        is_valid_name(n),
    ensures
        all_name_chars(table_name_of(n)),
{
    let t = table_name_of(n);
    assert forall|i: int| 0 <= i < t.len() implies #[trigger] is_name_char(t[i]) by {
        if i >= table_prefix().len() {
            assert(t[i] == n[i - table_prefix().len()]);
        }
    }
}

/// A collection name that passed `sanitize`.
#[derive(Debug)]
pub struct SafeIdentifier {
    name: String,
}

impl View for SafeIdentifier {
    type V = Seq<char>;

    closed spec fn view(&self) -> Seq<char> {
        self.name@
    }
}

impl SafeIdentifier {
    pub open spec fn wf(&self) -> bool {
        is_valid_name(self@)
    }

    pub fn as_str(&self) -> (r: &str)
        ensures
            r@ == self@,
    {
        self.name.as_str()
    }

    /// The name of the physical table of this collection: the fixed prefix
    /// followed by the sanitized name.
    pub fn table_name(&self) -> (r: String)
        requires
            self.wf(),
        ensures
            r@ == table_name_of(self@),
            all_name_chars(r@),
    {
        proof {
            lemma_table_name_chars(self@);
        }
        let prefix = String::from_str("_collections_");
        proof {
            reveal_strlit("_collections_");
            assert(prefix@ =~= table_prefix());
        }
        prefix.concat(self.name.as_str())
    }
}

pub fn is_name_char_exec(c: char) -> (r: bool)
    ensures
        r == is_name_char(c),
{
    ('a' <= c && c <= 'z') || ('A' <= c && c <= 'Z') || ('0' <= c && c <= '9') || c == '_'
}

/// Checks `name` and, when it is acceptable, returns it as a `SafeIdentifier`.
pub fn sanitize(name: &str) -> (r: Result<SafeIdentifier, IdentifierError>)
    ensures
        r is Ok <==> is_valid_name(name@),
        r is Ok ==> r->Ok_0@ == name@ && r->Ok_0.wf(),
        r is Err ==> Some(r->Err_0) == name_error(name@),
{
    let len = name.unicode_len();
    if len == 0 {
        return Err(IdentifierError::Empty);
    }
    if len > MAX_NAME_LEN {
        return Err(IdentifierError::TooLong);
    }
    let mut i: usize = 0;
    while i < len
        invariant
            len == name@.len(),
            0 < len <= MAX_NAME_LEN,
            i <= len,
            forall|j: int| 0 <= j < i ==> #[trigger] is_name_char(name@[j]),
        decreases len - i,
    {
        let c = name.get_char(i);
        if !is_name_char_exec(c) {
            assert(!is_name_char(name@[i as int]));

            return Err(IdentifierError::InvalidChar);
        }
        i = i + 1;
    }
    let first = name.get_char(0);
    if '0' <= first && first <= '9' {
        return Err(IdentifierError::LeadingDigit);
    }
    Ok(SafeIdentifier { name: String::from_str(name) })
}

} // verus!
