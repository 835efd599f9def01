//! The field codec: one field of a Paradox record, between its fixed-width
//! bytes and a value.
//!
//! Paradox keeps integers big-endian with the sign bit flipped (an all-zero
//! field is blank and reads as zero), doubles big-endian with the sign bit set
//! for positive values and every bit inverted for negative ones, and logical
//! values as `0x80 | v`.

use crate::bytes::{be_bytes, be_value, lemma_be_round_trip, lemma_pow256_values, read_be, write_be};
use crate::json::{JsonNumber, JsonValue};
use crate::text::{decimal, u64_text};
use vstd::prelude::*;
use vstd::utf8::encode_utf8;

verus! {

pub const PX_ALPHA: u8 = 0x01;
pub const PX_DATE: u8 = 0x02;
pub const PX_SHORT: u8 = 0x03;
pub const PX_LONG: u8 = 0x04;
pub const PX_CURRENCY: u8 = 0x05;
pub const PX_NUMBER: u8 = 0x06;
pub const PX_LOGICAL: u8 = 0x09;
pub const PX_MEMO_BLOB: u8 = 0x0C;
pub const PX_BLOB: u8 = 0x0D;
pub const PX_TIME: u8 = 0x14;
pub const PX_TIMESTAMP: u8 = 0x15;
pub const PX_AUTOINC: u8 = 0x16;
pub const PX_BCD: u8 = 0x17;
pub const PX_BYTES: u8 = 0x18;

/// A decoded field value.
pub enum FieldValue {
    Null,
    Bool(bool),
    Int(i64),
    /// A finite double, as its IEEE-754 bit pattern.
    Double(u64),
    Text(String),
}

/// What an encode did to the record buffer.
#[derive(PartialEq, Eq, Structural, Debug, Clone, Copy)]
pub enum EncodeOutcome {
    /// The field's bytes now hold the value.
    Written,
    /// The value does not fit the field's type: the bytes were left unchanged.
    Unchanged,
}

/// Short integer fields.
pub open spec fn is_short(t: u8) -> bool {
    t == PX_SHORT
}

/// Long integer and auto-increment fields.
pub open spec fn is_long(t: u8) -> bool {
    t == PX_LONG || t == PX_AUTOINC
}

/// Number and currency fields, held as doubles.
pub open spec fn is_double(t: u8) -> bool {
    t == PX_NUMBER || t == PX_CURRENCY
}

/// How many bytes a value of type `t` takes, for the types the codec reads as
/// numbers or logicals.
pub open spec fn width(t: u8) -> nat {
    if is_short(t) { 2 } else if is_long(t) { 4 } else if is_double(t) { 8 } else { 1 }
}

/// The short integer whose stored form is `raw` (a blank field reads 0).
pub open spec fn short_value(raw: nat) -> int {
    if raw == 0 { 0 } else { raw - 0x8000 }
}

/// The long integer whose stored form is `raw` (a blank field reads 0).
pub open spec fn long_value(raw: nat) -> int {
    if raw == 0 { 0 } else { raw - 0x8000_0000 }
}

/// The stored form of short integer `v`.
pub open spec fn short_raw(v: i16) -> nat {
    (v + 0x8000) as nat
}

/// The stored form of long integer `v`.
pub open spec fn long_raw(v: i32) -> nat {
    (v + 0x8000_0000) as nat
}

/// The bit pattern of the double whose stored form is `raw`.
pub open spec fn double_bits(raw: nat) -> nat {
    if raw >= 0x8000_0000_0000_0000 {
        (raw - 0x8000_0000_0000_0000) as nat
    } else if raw != 0 {
        (0xFFFF_FFFF_FFFF_FFFF - raw) as nat
    } else {
        0
    }
}

/// The stored form of the double with bit pattern `bits`.
pub open spec fn double_raw(bits: nat) -> nat {
    if bits < 0x8000_0000_0000_0000 {
        bits + 0x8000_0000_0000_0000
    } else {
        (0xFFFF_FFFF_FFFF_FFFF - bits) as nat
    }
}

/// Whether `bits` is a finite double (not an infinity, not a NaN).
pub open spec fn is_finite_bits(bits: nat) -> bool {
    (bits / 0x10_0000_0000_0000) % 0x800 != 0x7FF
}

/// The boolean whose stored form is `b` (a blank field reads false).
pub open spec fn logical_value(b: u8) -> bool {
    b != 0 && b != 0x80
}

/// The stored form of boolean `v`.
pub open spec fn logical_raw(v: bool) -> u8 {
    if v { 0x81 } else { 0x80 }
}

/// The bytes of an alpha field up to its first zero byte.
pub open spec fn alpha_prefix(s: Seq<u8>) -> Seq<u8>
    decreases s.len(),
{
    if s.len() == 0 || s[0] == 0 {
        seq![]
    } else {
        seq![s[0]] + alpha_prefix(s.drop_first())
    }
}

/// The text that lossy UTF-8 decoding makes of `b`.
pub uninterp spec fn utf8_lossy(b: Seq<u8>) -> Seq<char>;

/// The placeholder text of a field of a type the codec does not read.
pub open spec fn placeholder(t: u8) -> Seq<char> {
    seq!['<', 't', 'y', 'p', 'e', ' '] + decimal(t as nat) + seq!['>']
}

/// Whether `v` is what a field of type `t` decodes to from bytes `s` (the
/// field's bytes, as many as its declared length).
pub open spec fn decodes_to(s: Seq<u8>, t: u8, v: FieldValue) -> bool {
    if t == PX_ALPHA {
        if s.len() == 0 || s[0] == 0 {
            v is Null
        } else {
            v matches FieldValue::Text(x) && x@ == utf8_lossy(alpha_prefix(s))
        }
    } else if is_short(t) || is_long(t) || is_double(t) || t == PX_LOGICAL {
        if s.len() < width(t) {
            v is Null
        } else {
            let raw = be_value(s.take(width(t) as int));
            if is_short(t) {
                v == FieldValue::Int(short_value(raw) as i64)
            } else if is_long(t) {
                v == FieldValue::Int(long_value(raw) as i64)
            } else if is_double(t) {
                if is_finite_bits(double_bits(raw)) {
                    v == FieldValue::Double(double_bits(raw) as u64)
                } else {
                    v is Null
                }
            } else {
                v == FieldValue::Bool(logical_value(s[0]))
            }
        }
    } else {
        v matches FieldValue::Text(x) && x@ == placeholder(t)
    }
}

/// Relies on `String::from_utf8_lossy`: the text of the bytes, invalid
/// sequences replaced.
#[verifier::external_body]
fn lossy_text(b: &[u8]) -> (r: String)
    ensures
        r@ == utf8_lossy(b@),
{
    String::from_utf8_lossy(b).into_owned()
}

/// Decodes the field of type `ftype` and length `len` that starts at `start`
/// in `buf`.
pub fn decode_field(buf: &Vec<u8>, start: usize, ftype: u8, len: usize) -> (r: FieldValue)
    requires
        start + len <= buf@.len(),
    ensures
        decodes_to(buf@.subrange(start as int, start + len), ftype, r),
{
    let ghost s = buf@.subrange(start as int, start + len);
    if ftype == PX_ALPHA {
        if len == 0 || buf[start] == 0 {
            return FieldValue::Null;
        }
        let total = buf.len();
        let mut prefix: Vec<u8> = Vec::new();
        let mut i: usize = 0;
        proof {
            assert(s.skip(0) =~= s);
            assert(prefix@ + alpha_prefix(s) =~= alpha_prefix(s));
        }
        while i < len && buf[start + i] != 0
            invariant
                start + len <= buf@.len(),
                total == buf@.len(),
                i <= len,
                s == buf@.subrange(start as int, start + len),
                alpha_prefix(s) == prefix@ + alpha_prefix(s.skip(i as int)),
            decreases len - i,
        {
            let ghost p0 = prefix@;
            proof {
                let rest = s.skip(i as int);
                assert(rest.drop_first() =~= s.skip(i + 1));
                assert(rest[0] == buf@[start + i]);
                assert(alpha_prefix(rest) == seq![rest[0]] + alpha_prefix(s.skip(i + 1)));
                assert(p0 + (seq![rest[0]] + alpha_prefix(s.skip(i + 1))) =~= p0.push(rest[0])
                    + alpha_prefix(s.skip(i + 1)));
            }
            prefix.push(buf[start + i]);
            i = i + 1;
        }
        proof {
            assert(alpha_prefix(s.skip(i as int)) =~= seq![]);
            assert(prefix@ + seq![] =~= prefix@);
        }
        return FieldValue::Text(lossy_text(prefix.as_slice()));
    }
    if ftype == PX_SHORT || ftype == PX_LONG || ftype == PX_AUTOINC || ftype == PX_NUMBER
        || ftype == PX_CURRENCY || ftype == PX_LOGICAL {
        let w: usize = if ftype == PX_SHORT {
            2
        } else if ftype == PX_LONG || ftype == PX_AUTOINC {
            4
        } else if ftype == PX_LOGICAL {
            1
        } else {
            8
        };
        if len < w {
            return FieldValue::Null;
        }
        let raw = read_be(buf, start, w);
        proof {
            assert(buf@.subrange(start as int, start + w) =~= s.take(w as int));
            lemma_pow256_values();
            crate::bytes::lemma_be_value_bound(s.take(w as int));
        }
        if ftype == PX_SHORT {
            let v: i64 = if raw == 0 { 0 } else { raw as i64 - 0x8000 };
            return FieldValue::Int(v);
        } else if ftype == PX_LOGICAL {
            proof {
                reveal_with_fuel(be_value, 2);
                assert(s.take(1).drop_last() =~= seq![]);
            }
            return FieldValue::Bool(buf[start] != 0 && buf[start] != 0x80);
        } else if ftype == PX_LONG || ftype == PX_AUTOINC {
            let v: i64 = if raw == 0 { 0 } else { raw as i64 - 0x8000_0000 };
            return FieldValue::Int(v);
        } else {
            let bits: u64 = if raw >= 0x8000_0000_0000_0000 {
                raw - 0x8000_0000_0000_0000
            } else if raw != 0 {
                0xFFFF_FFFF_FFFF_FFFF - raw
            } else {
                0
            };
            if (bits / 0x10_0000_0000_0000) % 0x800 == 0x7FF {
                return FieldValue::Null;
            }
            return FieldValue::Double(bits);
        }
    }
    let mut text = String::from_str("<type ");
    let digits = u64_text(ftype as u64);
    text.append(digits.as_str());
    text.append(">");
    proof {
        reveal_strlit("<type ");
        reveal_strlit(">");
        assert(text@ =~= placeholder(ftype));
    }
    FieldValue::Text(text)
}


/// The bit pattern of the double nearest the integer `n`.
pub uninterp spec fn int_to_double(n: int) -> u64;

/// Relies on `serde_json::Number::as_f64` for a number made from an `i64`:
/// the double nearest it, here as its bit pattern.
#[verifier::external_body]
fn i64_to_double(n: i64) -> (r: Option<u64>)
    ensures
        r == Some(int_to_double(n as int)),
{
    serde_json::Number::from(n).as_f64().map(|d| d.to_bits())
}

/// Relies on `serde_json::Number::as_f64` for a number made from a `u64`:
/// the double nearest it, here as its bit pattern.
#[verifier::external_body]
fn u64_to_double(n: u64) -> (r: Option<u64>)
    ensures
        r == Some(int_to_double(n as int)),
{
    serde_json::Number::from(n).as_f64().map(|d| d.to_bits())
}

/// The integer a JSON value gives when one that fits `i64` is asked for.
pub open spec fn json_as_i64(v: JsonValue) -> Option<i64> {
    match v {
        JsonValue::Number(JsonNumber::PosInt(n)) => if n <= i64::MAX as u64 {
            Some(n as i64)
        } else {
            None
        },
        JsonValue::Number(JsonNumber::NegInt(n)) => Some(n),
        _ => None,
    }
}

/// The double (as bits) a JSON value gives when a number is asked for.
pub open spec fn json_as_double(v: JsonValue) -> Option<u64> {
    match v {
        JsonValue::Number(JsonNumber::PosInt(n)) => Some(int_to_double(n as int)),
        JsonValue::Number(JsonNumber::NegInt(n)) => Some(int_to_double(n as int)),
        JsonValue::Number(JsonNumber::Float { bits, .. }) => Some(bits),
        _ => None,
    }
}

/// The bytes of an alpha field of length `len` that holds the bytes `b`:
/// cut to the field, the rest zero.
pub open spec fn alpha_field(b: Seq<u8>, len: nat) -> Seq<u8> {
    Seq::new(len, |k: int| if k < b.len() { b[k] } else { 0u8 })
}

/// The new bytes of a field of type `t` whose bytes were `s`, once `v` is
/// written to it; `None` when `v` does not fit the type, and the field stays
/// as it was.
pub open spec fn encoded_field(s: Seq<u8>, t: u8, v: JsonValue) -> Option<Seq<u8>> {
    if t == PX_ALPHA {
        match v {
            JsonValue::Str(x) => if encode_utf8(x@).contains(0u8) {
                None
            } else {
                Some(alpha_field(encode_utf8(x@), s.len()))
            },
            _ => None,
        }
    } else if is_short(t) || is_long(t) || is_double(t) || t == PX_LOGICAL {
        if s.len() < width(t) {
            None
        } else {
            let rest = s.skip(width(t) as int);
            if is_short(t) {
                match json_as_i64(v) {
                    Some(n) => Some(be_bytes(short_raw(n as i16), 2) + rest),
                    None => None,
                }
            } else if is_long(t) {
                match json_as_i64(v) {
                    Some(n) => Some(be_bytes(long_raw(n as i32), 4) + rest),
                    None => None,
                }
            } else if is_double(t) {
                match json_as_double(v) {
                    Some(bits) => Some(be_bytes(double_raw(bits as nat), 8) + rest),
                    None => None,
                }
            } else {
                match v {
                    JsonValue::Bool(b) => Some(seq![logical_raw(b)] + rest),
                    _ => None,
                }
            }
        }
    } else {
        None
    }
}

/// The whole buffer `b` once field bytes `f` replace `b[start..start + len]`.
pub open spec fn splice(b: Seq<u8>, start: int, len: int, f: Seq<u8>) -> Seq<u8> {
    b.subrange(0, start) + f + b.subrange(start + len, b.len() as int)
}

/// Whether `b` holds a zero byte.
pub(crate) fn has_zero(b: &[u8]) -> (r: bool)
    ensures
        r == b@.contains(0u8),
{
    let mut i: usize = 0;
    while i < b.len()
        invariant
            i <= b@.len(),
            forall|k: int| 0 <= k < i ==> b@[k] != 0,
        decreases b@.len() - i,
    {
        if b[i] == 0 {
            assert(b@[i as int] == 0);
            return true;
        }
        i = i + 1;
    }
    false
}

fn fill_alpha(buf: &mut Vec<u8>, start: usize, len: usize, b: &[u8])
    requires
        start + len <= old(buf)@.len(),
    ensures
        final(buf)@ == splice(old(buf)@, start as int, len as int, alpha_field(b@, len as nat)),
{
    let ghost b0 = buf@;
    let total = buf.len();
    let mut k: usize = 0;
    while k < len
        invariant
            start + len <= b0.len(),
            buf@.len() == b0.len(),
            total == b0.len(),
            k <= len,
            forall|j: int| 0 <= j < b0.len() && !(start <= j < start + k) ==> buf@[j] == b0[j],
            forall|j: int| 0 <= j < k ==> buf@[start + j] == alpha_field(b@, len as nat)[j],
        decreases len - k,
    {
        let byte: u8 = if k < b.len() { b[k] } else { 0 };
        buf.set(start + k, byte);
        k = k + 1;
    }
    assert(buf@ =~= splice(b0, start as int, len as int, alpha_field(b@, len as nat)));
}

/// Writes the raw stored form `raw` of a `w`-byte value at the head of the
/// field at `start`.
fn put_raw(buf: &mut Vec<u8>, start: usize, len: usize, w: usize, raw: u64)
    requires
        w <= len,
        w <= 8,
        start + len <= old(buf)@.len(),
    ensures
        final(buf)@ == splice(
            old(buf)@,
            start as int,
            len as int,
            be_bytes(raw as nat, w as nat) + old(buf)@.subrange(start as int, start + len).skip(
                w as int,
            ),
        ),
{
    let ghost b0 = buf@;
    write_be(buf, start, w, raw);
    assert(buf@ =~= splice(
        b0,
        start as int,
        len as int,
        be_bytes(raw as nat, w as nat) + b0.subrange(start as int, start + len).skip(w as int),
    ));
}

/// Encodes `value` into the field of type `ftype` and length `len` that
/// starts at `start` in `buf`. A value whose kind does not fit the type (or a
/// type the codec does not write) leaves the buffer unchanged.
pub fn encode_field(buf: &mut Vec<u8>, start: usize, ftype: u8, len: usize, value: &JsonValue) -> (r:
    EncodeOutcome)
    requires
        start + len <= old(buf)@.len(),
    ensures
        match encoded_field(old(buf)@.subrange(start as int, start + len), ftype, *value) {
            Some(f) => r == EncodeOutcome::Written && final(buf)@ == splice(
                old(buf)@,
                start as int,
                len as int,
                f,
            ),
            None => r == EncodeOutcome::Unchanged && final(buf)@ == old(buf)@,
        },
{
    if ftype == PX_ALPHA {
        if let JsonValue::Str(x) = value {
            let b = x.as_str().as_bytes();
            if has_zero(b) {
                return EncodeOutcome::Unchanged;
            }
            fill_alpha(buf, start, len, b);
            return EncodeOutcome::Written;
        }
        return EncodeOutcome::Unchanged;
    }
    if ftype == PX_SHORT || ftype == PX_LONG || ftype == PX_AUTOINC {
        let w: usize = if ftype == PX_SHORT { 2 } else { 4 };
        if len < w {
            return EncodeOutcome::Unchanged;
        }
        let n: i64 = match value {
            JsonValue::Number(JsonNumber::PosInt(u)) => {
                if *u <= i64::MAX as u64 {
                    *u as i64
                } else {
                    return EncodeOutcome::Unchanged;
                }
            },
            JsonValue::Number(JsonNumber::NegInt(i)) => *i,
            _ => {
                return EncodeOutcome::Unchanged;
            },
        };
        let raw: u64 = if ftype == PX_SHORT {
            let v = #[verifier::truncate] (n as i16);
            (v as i32 + 0x8000) as u64
        } else {
            let v = #[verifier::truncate] (n as i32);
            (v as i64 + 0x8000_0000) as u64
        };
        put_raw(buf, start, len, w, raw);
        return EncodeOutcome::Written;
    }
    if ftype == PX_NUMBER || ftype == PX_CURRENCY {
        if len < 8 {
            return EncodeOutcome::Unchanged;
        }
        let bits: Option<u64> = match value {
            JsonValue::Number(JsonNumber::PosInt(u)) => u64_to_double(*u),
            JsonValue::Number(JsonNumber::NegInt(i)) => i64_to_double(*i),
            JsonValue::Number(JsonNumber::Float { bits, .. }) => Some(*bits),
            _ => None,
        };
        match bits {
            Some(bits) => {
                let raw: u64 = if bits < 0x8000_0000_0000_0000 {
                    bits + 0x8000_0000_0000_0000
                } else {
                    0xFFFF_FFFF_FFFF_FFFF - bits
                };
                put_raw(buf, start, len, 8, raw);
                return EncodeOutcome::Written;
            },
            None => {
                return EncodeOutcome::Unchanged;
            },
        }
    }
    if ftype == PX_LOGICAL {
        if len < 1 {
            return EncodeOutcome::Unchanged;
        }
        if let JsonValue::Bool(b) = value {
            let raw: u64 = if *b { 0x81 } else { 0x80 };
            put_raw(buf, start, len, 1, raw);
            proof {
                assert(crate::bytes::pow256(0) == 1);
                assert(raw as nat / 1 == raw as nat);
                assert(be_bytes(raw as nat, 1)[0] == raw as u8);
                assert(be_bytes(raw as nat, 1) =~= seq![logical_raw(*b)]);
            }
            return EncodeOutcome::Written;
        }
        return EncodeOutcome::Unchanged;
    }
    EncodeOutcome::Unchanged
}


/// The JSON form of an integer, as JSON parsers hold it.
pub open spec fn json_int(v: i64) -> JsonValue {
    if v >= 0 {
        JsonValue::Number(JsonNumber::PosInt(v as u64))
    } else {
        JsonValue::Number(JsonNumber::NegInt(v))
    }
}

/// A short field holds every integer from -32767 to 32767: encoding one and
/// decoding the field gives it back. (-32768 is stored as all zero bytes,
/// which is a blank field and reads as 0.)
pub proof fn lemma_short_round_trip(s: Seq<u8>, v: i64)
    requires
        s.len() >= 2,
        -32767 <= v <= 32767,
    ensures
        encoded_field(s, PX_SHORT, json_int(v)) matches Some(f) && decodes_to(
            f,
            PX_SHORT,
            FieldValue::Int(v),
        ),
{
    assert(json_as_i64(json_int(v)) == Some(v));
    assert((v as i16) as i64 == v) by (bit_vector)
        requires
            -32768 <= v <= 32767,
    ;
    let raw = short_raw(v as i16);
    lemma_pow256_values();
    lemma_be_round_trip(raw, 2);
    let f = be_bytes(raw, 2) + s.skip(2);
    assert(f.take(2) =~= be_bytes(raw, 2));
}

/// A long (or auto-increment) field holds every integer from -2147483647 to
/// 2147483647: encoding one and decoding the field gives it back.
pub proof fn lemma_long_round_trip(s: Seq<u8>, t: u8, v: i64)
    requires
        is_long(t),
        s.len() >= 4,
        -2147483647 <= v <= 2147483647,
    ensures
        encoded_field(s, t, json_int(v)) matches Some(f) && decodes_to(f, t, FieldValue::Int(v)),
{
    assert(json_as_i64(json_int(v)) == Some(v));
    assert((v as i32) as i64 == v) by (bit_vector)
        requires
            -2147483648 <= v <= 2147483647,
    ;
    let raw = long_raw(v as i32);
    lemma_pow256_values();
    lemma_be_round_trip(raw, 4);
    let f = be_bytes(raw, 4) + s.skip(4);
    assert(f.take(4) =~= be_bytes(raw, 4));
}

/// A number or currency field holds every finite double: encoding a JSON
/// double and decoding the field gives its bit pattern back.
pub proof fn lemma_double_round_trip(s: Seq<u8>, t: u8, v: JsonValue, bits: u64)
    requires
        is_double(t),
        s.len() >= 8,
        v matches JsonValue::Number(JsonNumber::Float { bits: b, .. }) && b == bits,
        is_finite_bits(bits as nat),
    ensures
        encoded_field(s, t, v) matches Some(f) && decodes_to(f, t, FieldValue::Double(bits)),
{
    let raw = double_raw(bits as nat);
    lemma_pow256_values();
    lemma_be_round_trip(raw, 8);
    let f = be_bytes(raw, 8) + s.skip(8);
    assert(f.take(8) =~= be_bytes(raw, 8));
    assert(double_bits(raw) == bits as nat);
}

/// A logical field holds both booleans: encoding one and decoding the field
/// gives it back.
pub proof fn lemma_logical_round_trip(s: Seq<u8>, v: bool)
    requires
        s.len() >= 1,
    ensures
        encoded_field(s, PX_LOGICAL, JsonValue::Bool(v)) matches Some(f) && decodes_to(
            f,
            PX_LOGICAL,
            FieldValue::Bool(v),
        ),
{
    let f = seq![logical_raw(v)] + s.skip(1);
    assert(f[0] == logical_raw(v));
}


/// Encoding keeps a field's length.
pub proof fn lemma_encoded_len(s: Seq<u8>, t: u8, v: JsonValue)
    ensures
        encoded_field(s, t, v) matches Some(f) ==> f.len() == s.len(),
{
}

} // verus!
