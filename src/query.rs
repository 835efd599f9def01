//! The query matcher: whether a decoded field value, and a whole decoded
//! record, satisfy a search query.

use crate::codec::FieldValue;
use crate::json::{get_member, member, JsonNumber, JsonValue};
use crate::record::DecodedRecord;
use crate::text::{decimal, u64_text};
use vstd::prelude::*;

verus! {

/// Most records one search returns.
pub const SEARCH_CAP: usize = 1000;

/// The lower-case form of `s`.
pub uninterp spec fn lower_of(s: Seq<char>) -> Seq<char>;

/// Relies on `str::to_lowercase`: the lower-case form of the text, which
/// depends on its characters alone.
#[verifier::external_body]
fn lowercase(s: &String) -> (r: String)
    ensures
        r@ == lower_of(s@),
{
    s.to_lowercase()
}

/// Whether `needle` occurs in `hay` as a run of consecutive characters.
pub open spec fn is_infix(needle: Seq<char>, hay: Seq<char>) -> bool {
    exists|i: int|
        0 <= i && i + needle.len() <= hay.len() && #[trigger] hay.subrange(i, i + needle.len())
            == needle
}

/// Relies on `str::contains` with a `&str` pattern: whether the pattern occurs
/// in the text.
#[verifier::external_body]
fn contains_text(hay: &String, needle: &String) -> (r: bool)
    ensures
        r == is_infix(needle@, hay@),
{
    hay.contains(needle.as_str())
}

/// The text JSON writes for a number.
pub open spec fn number_text(n: JsonNumber) -> Seq<char> {
    match n {
        JsonNumber::PosInt(u) => decimal(u as nat),
        JsonNumber::NegInt(i) => if i < 0 {
            seq!['-'] + decimal((-i) as nat)
        } else {
            decimal(i as nat)
        },
        JsonNumber::Float { text, .. } => text@,
    }
}

/// Equality of two finite doubles given as bit patterns: equal patterns, or
/// two zeros of either sign.
pub open spec fn double_eq(a: u64, b: u64) -> bool {
    a == b || (a % 0x8000_0000_0000_0000 == 0 && b % 0x8000_0000_0000_0000 == 0)
}

/// Whether decoded value `a` satisfies query value `q`: text contains the
/// query text ignoring case; numbers and booleans are equal; text equals the
/// text of a query number; null matches null; nothing else matches.
pub open spec fn value_matches(a: FieldValue, q: JsonValue) -> bool {
    match (a, q) {
        (FieldValue::Text(x), JsonValue::Str(y)) => is_infix(lower_of(y@), lower_of(x@)),
        (FieldValue::Text(x), JsonValue::Number(n)) => x@ == number_text(n),
        (FieldValue::Int(x), JsonValue::Number(JsonNumber::PosInt(y))) => x >= 0 && x as int == y as int,
        (FieldValue::Int(x), JsonValue::Number(JsonNumber::NegInt(y))) => x < 0 && x == y,
        (FieldValue::Double(x), JsonValue::Number(JsonNumber::Float { bits, .. })) => double_eq(x, bits),
        (FieldValue::Bool(x), JsonValue::Bool(y)) => x == y,
        (FieldValue::Null, JsonValue::Null) => true,
        _ => false,
    }
}

/// Whether every field of `rec` that `query` names has a value that
/// satisfies the query's value; fields the query does not name, and query
/// keys that name no field, impose nothing.
pub open spec fn record_matches(rec: Seq<(String, FieldValue)>, query: Seq<(String, JsonValue)>) -> bool {
    forall|i: int|
        0 <= i < rec.len() ==> match #[trigger] member(query, rec[i].0@) {
            Some(q) => value_matches(rec[i].1, q),
            None => true,
        }
}

fn number_string(n: &JsonNumber) -> (r: String)
    ensures
        r@ == number_text(*n),
{
    match n {
        JsonNumber::PosInt(u) => u64_text(*u),
        JsonNumber::NegInt(i) => {
            if *i < 0 {
                let m: u64 = if *i == i64::MIN {
                    0x8000_0000_0000_0000
                } else {
                    (0 - *i) as u64
                };
                let mut s = String::from_str("-");
                let digits = u64_text(m);
                s.append(digits.as_str());
                proof {
                    reveal_strlit("-");
                }
                s
            } else {
                u64_text(*i as u64)
            }
        },
        JsonNumber::Float { text, .. } => text.clone(),
    }
}

/// Whether decoded value `actual` satisfies query value `query`.
pub fn compare_values(actual: &FieldValue, query: &JsonValue) -> (r: bool)
    ensures
        r == value_matches(*actual, *query),
{
    match (actual, query) {
        (FieldValue::Text(x), JsonValue::Str(y)) => {
            let lx = lowercase(x);
            let ly = lowercase(y);
            contains_text(&lx, &ly)
        },
        (FieldValue::Text(x), JsonValue::Number(n)) => {
            let t = number_string(n);
            *x == t
        },
        (FieldValue::Int(x), JsonValue::Number(JsonNumber::PosInt(y))) => *x >= 0 && *x as u64 == *y,
        (FieldValue::Int(x), JsonValue::Number(JsonNumber::NegInt(y))) => *x < 0 && *x == *y,
        (FieldValue::Double(x), JsonValue::Number(JsonNumber::Float { bits, .. })) => {
            *x == *bits || (*x % 0x8000_0000_0000_0000 == 0 && *bits % 0x8000_0000_0000_0000 == 0)
        },
        (FieldValue::Bool(x), JsonValue::Bool(y)) => *x == *y,
        (FieldValue::Null, JsonValue::Null) => true,
        _ => false,
    }
}

/// Whether decoded record `rec` satisfies every key of `query` that names
/// one of its fields.
pub fn matches_query(rec: &DecodedRecord, query: &Vec<(String, JsonValue)>) -> (r: bool)
    ensures
        r == record_matches(rec@, query@),
{
    let mut i: usize = 0;
    while i < rec.len()
        invariant
            i <= rec@.len(),
            forall|j: int|
                0 <= j < i ==> match #[trigger] member(query@, rec@[j].0@) {
                    Some(q) => value_matches(rec@[j].1, q),
                    None => true,
                },
        decreases rec@.len() - i,
    {
        match get_member(query, &rec[i].0) {
            Some(q) => {
                if !compare_values(&rec[i].1, q) {
                    return false;
                }
            },
            None => {},
        }
        i = i + 1;
    }
    true
}

/// An empty query is satisfied by every record.
pub proof fn lemma_empty_query_matches(rec: Seq<(String, FieldValue)>)
    ensures
        record_matches(rec, Seq::empty()),
{
    assert forall|i: int| 0 <= i < rec.len() implies match #[trigger] member(
        Seq::<(String, JsonValue)>::empty(),
        rec[i].0@,
    ) {
        Some(q) => value_matches(rec[i].1, q),
        None => true,
    } by {
        assert(member(Seq::<(String, JsonValue)>::empty(), rec[i].0@) is None);
    }
}

/// The records a search has found so far, in table order.
pub struct SearchResults {
    pub found: Vec<DecodedRecord>,
}

impl SearchResults {
    pub open spec fn wf(&self) -> bool {
        self.found@.len() <= SEARCH_CAP
    }

    pub open spec fn is_full_spec(&self) -> bool {
        self.found@.len() >= SEARCH_CAP
    }

    pub fn new() -> (r: SearchResults)
        ensures
            r.found@.len() == 0,
            r.wf(),
    {
        SearchResults { found: Vec::new() }
    }

    /// Whether the search has found as many records as it returns, and stops.
    pub fn is_full(&self) -> (r: bool)
        ensures
            r == self.is_full_spec(),
    {
        self.found.len() >= SEARCH_CAP
    }

    /// Whether `after` is `before` once record `rec` was considered under
    /// `query`.
    pub open spec fn offered(
        before: SearchResults,
        rec: DecodedRecord,
        query: Seq<(String, JsonValue)>,
        after: SearchResults,
    ) -> bool {
        if record_matches(rec@, query) && !before.is_full_spec() {
            after.found@ == before.found@.push(rec)
        } else {
            after.found@ == before.found@
        }
    }

    /// Considers the next record of the table: keeps it when it satisfies
    /// `query` and the search is not full. Returns whether the search is now
    /// full.
    pub fn offer(&mut self, rec: DecodedRecord, query: &Vec<(String, JsonValue)>) -> (full: bool)
        requires
            old(self).wf(),
        ensures
            final(self).wf(),
            Self::offered(*old(self), rec, query@, *final(self)),
            full == final(self).is_full_spec(),
    {
        if self.found.len() < SEARCH_CAP && matches_query(&rec, query) {
            self.found.push(rec);
        }
        self.found.len() >= SEARCH_CAP
    }
}

/// With an empty query, a search that is not yet full keeps every record it
/// is offered.
pub proof fn lemma_empty_search_keeps_all(
    before: SearchResults,
    rec: DecodedRecord,
    after: SearchResults,
)
    requires
        !before.is_full_spec(),
        SearchResults::offered(before, rec, Seq::empty(), after),
    ensures
        after.found@ == before.found@.push(rec),
{
    lemma_empty_query_matches(rec@);
}

} // verus!
