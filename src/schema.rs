//! Field types by name: the names a schema is described with, and the field
//! descriptors a new table is created from.

use crate::codec::{
    PX_ALPHA, PX_AUTOINC, PX_BCD, PX_BLOB, PX_BYTES, PX_CURRENCY, PX_DATE, PX_LOGICAL, PX_LONG,
    PX_MEMO_BLOB, PX_NUMBER, PX_SHORT, PX_TIME, PX_TIMESTAMP,
};
use crate::json::{get_member, member, str_member, JsonNumber, JsonValue};
use crate::codec::has_zero;
use crate::record::FieldDesc;
use crate::text::same;
use vstd::prelude::*;
use vstd::utf8::encode_utf8;

verus! {

/// The upper-case form of `s`.
pub uninterp spec fn upper_of(s: Seq<char>) -> Seq<char>;

/// Relies on `str::to_uppercase`: the upper-case form of the text, which
/// depends on its characters alone.
#[verifier::external_body]
fn uppercase(s: &String) -> (r: String)
    ensures
        r@ == upper_of(s@),
{
    s.to_uppercase()
}

/// The type tag that type name `u` stands for; an unknown name stands for
/// alpha.
pub open spec fn tag_of_name(u: Seq<char>) -> u8 {
    if u == "ALPHA"@ { PX_ALPHA }
    else if u == "DATE"@ { PX_DATE }
    else if u == "SHORT"@ { PX_SHORT }
    else if u == "LONG"@ { PX_LONG }
    else if u == "CURRENCY"@ { PX_CURRENCY }
    else if u == "NUMBER"@ { PX_NUMBER }
    else if u == "LOGICAL"@ { PX_LOGICAL }
    else if u == "MEMO"@ { PX_MEMO_BLOB }
    else if u == "BLOB"@ { PX_BLOB }
    else if u == "TIME"@ { PX_TIME }
    else if u == "TIMESTAMP"@ { PX_TIMESTAMP }
    else if u == "AUTOINC"@ { PX_AUTOINC }
    else if u == "BCD"@ { PX_BCD }
    else if u == "BYTES"@ { PX_BYTES }
    else { PX_ALPHA }
}

/// The name a schema gives type tag `t`.
pub open spec fn name_of_tag(t: u8) -> Seq<char> {
    if t == PX_ALPHA { "ALPHA"@ }
    else if t == PX_DATE { "DATE"@ }
    else if t == PX_SHORT { "SHORT"@ }
    else if t == PX_LONG { "LONG"@ }
    else if t == PX_CURRENCY { "CURRENCY"@ }
    else if t == PX_NUMBER { "NUMBER"@ }
    else if t == PX_LOGICAL { "LOGICAL"@ }
    else if t == PX_MEMO_BLOB { "MEMO"@ }
    else if t == PX_BLOB { "BLOB"@ }
    else if t == PX_TIME { "TIME"@ }
    else if t == PX_TIMESTAMP { "TIMESTAMP"@ }
    else if t == PX_AUTOINC { "AUTOINC"@ }
    else if t == PX_BCD { "BCD"@ }
    else if t == PX_BYTES { "BYTES"@ }
    else { "UNKNOWN"@ }
}

/// The length a field of type `t` gets when none is given.
pub open spec fn default_len(t: u8) -> u32 {
    if t == PX_SHORT { 2 }
    else if t == PX_LONG || t == PX_AUTOINC || t == PX_DATE || t == PX_TIME { 4 }
    else if t == PX_CURRENCY || t == PX_NUMBER || t == PX_TIMESTAMP { 8 }
    else if t == PX_LOGICAL { 1 }
    else { 0 }
}

/// The name a schema gives type tag `t`.
pub fn type_label(t: u8) -> (r: String)
    ensures
        r@ == name_of_tag(t),
{
    let s: &str = if t == PX_ALPHA { "ALPHA" }
    else if t == PX_DATE { "DATE" }
    else if t == PX_SHORT { "SHORT" }
    else if t == PX_LONG { "LONG" }
    else if t == PX_CURRENCY { "CURRENCY" }
    else if t == PX_NUMBER { "NUMBER" }
    else if t == PX_LOGICAL { "LOGICAL" }
    else if t == PX_MEMO_BLOB { "MEMO" }
    else if t == PX_BLOB { "BLOB" }
    else if t == PX_TIME { "TIME" }
    else if t == PX_TIMESTAMP { "TIMESTAMP" }
    else if t == PX_AUTOINC { "AUTOINC" }
    else if t == PX_BCD { "BCD" }
    else if t == PX_BYTES { "BYTES" }
    else { "UNKNOWN" };
    String::from_str(s)
}

/// The type tag that type name `u` (already upper case) stands for.
pub fn tag_for_name(u: &String) -> (r: u8)
    ensures
        r == tag_of_name(u@),
{
    if same(u, "ALPHA") { PX_ALPHA }
    else if same(u, "DATE") { PX_DATE }
    else if same(u, "SHORT") { PX_SHORT }
    else if same(u, "LONG") { PX_LONG }
    else if same(u, "CURRENCY") { PX_CURRENCY }
    else if same(u, "NUMBER") { PX_NUMBER }
    else if same(u, "LOGICAL") { PX_LOGICAL }
    else if same(u, "MEMO") { PX_MEMO_BLOB }
    else if same(u, "BLOB") { PX_BLOB }
    else if same(u, "TIME") { PX_TIME }
    else if same(u, "TIMESTAMP") { PX_TIMESTAMP }
    else if same(u, "AUTOINC") { PX_AUTOINC }
    else if same(u, "BCD") { PX_BCD }
    else if same(u, "BYTES") { PX_BYTES }
    else { PX_ALPHA }
}

/// The members of `v` when it is an object; nothing otherwise.
pub open spec fn members_of(v: JsonValue) -> Seq<(String, JsonValue)> {
    match v {
        JsonValue::Object(m) => m@,
        _ => Seq::empty(),
    }
}

/// The length a field spec asks for: its `length` member, when that is an
/// integer that fits `i64`, truncated to 32 bits; 0 otherwise.
pub open spec fn asked_len(m: Seq<(String, JsonValue)>) -> i32 {
    match member(m, "length"@) {
        Some(JsonValue::Number(JsonNumber::PosInt(n))) => if n <= i64::MAX as u64 {
            n as i32
        } else {
            0
        },
        Some(JsonValue::Number(JsonNumber::NegInt(n))) => n as i32,
        _ => 0,
    }
}

/// Whether `f` is the descriptor that field spec `v` (an object with `name`,
/// `type` and an optional `length`) asks for.
pub open spec fn is_field_for(v: JsonValue, f: FieldDesc) -> bool {
    let m = members_of(v);
    &&& f.name@ == match str_member(m, "name"@) {
        Some(n) => if encode_utf8(n).contains(0u8) {
            "INVALID"@
        } else {
            n
        },
        None => "UNKNOWN"@,
    }
    &&& f.ftype == match str_member(m, "type"@) {
        Some(t) => tag_of_name(upper_of(t)),
        None => PX_ALPHA,
    }
    &&& f.len == if asked_len(m) > 0 {
        asked_len(m) as u32
    } else {
        default_len(f.ftype)
    }
}

/// The descriptor of a new field from its spec `v`: the name (`UNKNOWN` when
/// missing, `INVALID` when it holds a zero byte), the type by its name in any
/// case (alpha when missing or unknown), and the length when positive, else
/// the type's default.
pub fn field_spec(v: &JsonValue) -> (r: FieldDesc)
    ensures
        is_field_for(*v, r),
{
    let empty: Vec<(String, JsonValue)> = Vec::new();
    let m: &Vec<(String, JsonValue)> = match v {
        JsonValue::Object(m) => m,
        _ => &empty,
    };
    proof {
        assert(m@ == members_of(*v));
    }
    let name_key = String::from_str("name");
    let type_key = String::from_str("type");
    let len_key = String::from_str("length");
    let name = match get_member(m, &name_key) {
        Some(JsonValue::Str(n)) => if has_zero(n.as_str().as_bytes()) {
            String::from_str("INVALID")
        } else {
            n.clone()
        },
        _ => String::from_str("UNKNOWN"),
    };
    let ftype = match get_member(m, &type_key) {
        Some(JsonValue::Str(t)) => {
            let u = uppercase(t);
            tag_for_name(&u)
        },
        _ => PX_ALPHA,
    };
    let asked: i32 = match get_member(m, &len_key) {
        Some(JsonValue::Number(JsonNumber::PosInt(n))) => if *n <= i64::MAX as u64 {
            #[verifier::truncate] (*n as i32)
        } else {
            0
        },
        Some(JsonValue::Number(JsonNumber::NegInt(n))) => #[verifier::truncate] (*n as i32),
        _ => 0,
    };
    let len: u32 = if asked > 0 {
        asked as u32
    } else if ftype == PX_SHORT {
        2
    } else if ftype == PX_LONG || ftype == PX_AUTOINC || ftype == PX_DATE || ftype == PX_TIME {
        4
    } else if ftype == PX_CURRENCY || ftype == PX_NUMBER || ftype == PX_TIMESTAMP {
        8
    } else if ftype == PX_LOGICAL {
        1
    } else {
        0
    };
    FieldDesc { name, ftype, len }
}

/// The descriptors of the fields of a new table, one per field spec.
pub fn field_specs(specs: &Vec<JsonValue>) -> (r: Vec<FieldDesc>)
    ensures
        r@.len() == specs@.len(),
        forall|i: int| 0 <= i < specs@.len() ==> is_field_for(specs@[i], #[trigger] r@[i]),
{
    let mut out: Vec<FieldDesc> = Vec::new();
    let mut i: usize = 0;
    while i < specs.len()
        invariant
            i <= specs@.len(),
            out@.len() == i,
            forall|j: int| 0 <= j < i ==> is_field_for(specs@[j], #[trigger] out@[j]),
        decreases specs@.len() - i,
    {
        let f = field_spec(&specs[i]);
        out.push(f);
        i = i + 1;
    }
    out
}

} // verus!
