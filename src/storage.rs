//! What the storage layer is handed besides bind values: table names, which
//! may only come from the known collections, and resource locations.
use vstd::prelude::*;

use crate::text::{decimal_text, format_u64, text_eq};

verus! {

/// Why a collection name cannot name a table.
#[derive(Debug, Clone, Copy, PartialEq, Eq, Structural)]
pub enum TableRefusal {
    /// Not a plain lower-case SQL identifier.
    InvalidName,
    /// Not among the known collections.
    UnknownCollection,
}

pub open spec fn is_ident_char(c: char, first: bool) -> bool {
    (97 <= (c as u32) <= 122) || c == '_' || (!first && 48 <= (c as u32) <= 57)
}

/// A plain SQL identifier: 1 to 63 lower-case ASCII letters, digits and
/// underscores, not starting with a digit.
pub open spec fn is_identifier(s: Seq<char>) -> bool {
    &&& 0 < s.len() <= 63
    &&& forall|i: int| 0 <= i < s.len() ==> is_ident_char(#[trigger] s[i], i == 0)
}

/// The table that holds the items of `name`, if it may be named.
pub open spec fn items_table_spec(name: Seq<char>, known: Seq<Seq<char>>) -> Result<
    Seq<char>,
    TableRefusal,
> {
    if !is_identifier(name) {
        Err(TableRefusal::InvalidName)
    } else if !known.contains(name) {
        Err(TableRefusal::UnknownCollection)
    } else {
        Ok("items."@ + name)
    }
}

/// Whether `s` is a plain SQL identifier.
pub fn is_identifier_text(s: &str) -> (r: bool)
    ensures
        r == is_identifier(s@),
{
    let n = s.unicode_len();
    if n == 0 || n > 63 {
        return false;
    }
    let mut i: usize = 0;
    while i < n
        invariant
            n == s@.len(),
            i <= n,
            forall|j: int| 0 <= j < i ==> is_ident_char(#[trigger] s@[j], j == 0),
        decreases n - i,
    {
        let c = s.get_char(i);
        let d = c as u32;
        let ok = (97 <= d && d <= 122) || c == '_' || (i != 0 && 48 <= d && d <= 57);
        if !ok {
            assert(!is_ident_char(s@[i as int], i == 0));
            return false;
        }
        i = i + 1;
    }
    true
}

/// The qualified name of the table of collection `name`, checked against the
/// collections that the metadata lists; no other text reaches a statement in
/// identifier position.
pub fn items_table(name: &str, known: &Vec<String>) -> (r: Result<String, TableRefusal>)
    ensures
        match r {
            Ok(t) => items_table_spec(name@, known.deep_view()) == Ok::<_, TableRefusal>(t@),
            Err(e) => items_table_spec(name@, known.deep_view()) == Err::<Seq<char>, _>(e),
        },
{
    if !is_identifier_text(name) {
        return Err(TableRefusal::InvalidName);
    }
    let mut i: usize = 0;
    while i < known.len()
        invariant
            i <= known.len(),
            is_identifier(name@),
            forall|j: int| 0 <= j < i ==> known.deep_view()[j] != name@,
        decreases known.len() - i,
    {
        if text_eq(known[i].as_str(), name) {
            assert(known.deep_view()[i as int] == name@);
            assert(known.deep_view().contains(name@));
            let mut t = String::from_str("items.");
            t.append(name);
            return Ok(t);
        }
        i = i + 1;
    }
    assert(!known.deep_view().contains(name@));
    Err(TableRefusal::UnknownCollection)
}

/// The decimal notation of a signed integer.
pub open spec fn int_text(n: int) -> Seq<char> {
    if n < 0 {
        seq!['-'] + decimal_text((-n) as nat)
    } else {
        decimal_text(n as nat)
    }
}

pub open spec fn collection_location_spec(id: Seq<char>) -> Seq<char> {
    "collections/"@ + id
}

pub open spec fn feature_location_spec(collection: Seq<char>, id: i64) -> Seq<char> {
    "collections/"@ + collection + "/items/"@ + int_text(id as int)
}

/// The decimal notation of `n`.
pub fn format_i64(n: i64) -> (r: String)
    ensures
        r@ == int_text(n as int),
{
    if n < 0 {
        let m: u64 = ((-(n + 1)) as u64) + 1;
        let mut s = String::from_str("-");
        proof {
            reveal_strlit("-");
        }
        let t = format_u64(m);
        s.append(t.as_str());
        assert(s@ =~= seq!['-'] + decimal_text((-n) as nat));
        s
    } else {
        format_u64(n as u64)
    }
}

/// Where a newly stored collection can be found.
pub fn collection_location(id: &str) -> (r: String)
    ensures
        r@ == collection_location_spec(id@),
{
    let mut s = String::from_str("collections/");
    s.append(id);
    s
}

/// Where a newly stored feature can be found.
pub fn feature_location(collection: &str, id: i64) -> (r: String)
    ensures
        r@ == feature_location_spec(collection@, id),
{
    let mut s = String::from_str("collections/");
    s.append(collection);
    s.append("/items/");
    let t = format_i64(id);
    s.append(t.as_str());
    s
}

} // verus!
