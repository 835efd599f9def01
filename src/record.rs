//! The record marshaler: the layout of a record buffer, and a whole record
//! decoded from or written into one.

use crate::codec::{decode_field, decodes_to, encode_field, encoded_field, splice, FieldValue};
use crate::json::{get_member, member, JsonValue};
use vstd::prelude::*;

verus! {

/// One field of a table's schema.
pub struct FieldDesc {
    pub name: String,
    pub ftype: u8,
    pub len: u32,
}

/// A decoded record: each field's name with its value, in field order.
pub type DecodedRecord = Vec<(String, FieldValue)>;

/// The offset of field `i`: the sum of the lengths of the fields before it.
pub open spec fn offset(fields: Seq<FieldDesc>, i: int) -> nat
    decreases i,
{
    if i <= 0 {
        0
    } else {
        offset(fields, i - 1) + fields[i - 1].len as nat
    }
}

/// The size of a record: the sum of all field lengths.
pub open spec fn record_size(fields: Seq<FieldDesc>) -> nat {
    offset(fields, fields.len() as int)
}

/// The bytes of field `i` in record buffer `b`.
pub open spec fn field_bytes(fields: Seq<FieldDesc>, b: Seq<u8>, i: int) -> Seq<u8> {
    b.subrange(offset(fields, i) as int, offset(fields, i) + fields[i].len)
}

/// The record size does not match the buffer the table gives.
#[derive(PartialEq, Eq, Structural, Debug, Clone, Copy)]
pub enum LayoutError {
    SizeMismatch,
}

pub proof fn lemma_offset_mono(fields: Seq<FieldDesc>, a: int, b: int)
    requires
        0 <= a <= b,
    ensures
        offset(fields, a) <= offset(fields, b),
    decreases b,
{
    if a < b {
        lemma_offset_mono(fields, a, b - 1);
    }
}

/// The offset of each field, computed once per table; fails when the field
/// lengths do not add up to the record size `record_len`.
pub fn field_offsets(fields: &Vec<FieldDesc>, record_len: usize) -> (r: Result<Vec<usize>, LayoutError>)
    ensures
        match r {
            Ok(offs) => record_size(fields@) == record_len && offs@.len() == fields@.len() && forall|
                i: int,
            | 0 <= i < fields@.len() ==> offs@[i] == offset(fields@, i),
            Err(_) => record_size(fields@) != record_len,
        },
{
    let mut offs: Vec<usize> = Vec::new();
    let mut acc: usize = 0;
    let mut i: usize = 0;
    while i < fields.len()
        invariant
            i <= fields@.len(),
            acc == offset(fields@, i as int),
            acc <= record_len,
            offs@.len() == i,
            forall|j: int| 0 <= j < i ==> offs@[j] == offset(fields@, j),
        decreases fields@.len() - i,
    {
        let l = fields[i].len as usize;
        if l > record_len - acc {
            proof {
                lemma_offset_mono(fields@, i + 1, fields@.len() as int);
            }
            return Err(LayoutError::SizeMismatch);
        }
        offs.push(acc);
        acc = acc + l;
        i = i + 1;
    }
    if acc != record_len {
        return Err(LayoutError::SizeMismatch);
    }
    Ok(offs)
}

/// Whether `offs` is the layout of `fields` over a buffer of `len` bytes.
pub open spec fn is_layout(fields: Seq<FieldDesc>, offs: Seq<usize>, len: nat) -> bool {
    &&& record_size(fields) == len
    &&& offs.len() == fields.len()
    &&& forall|i: int| 0 <= i < fields.len() ==> offs[i] == offset(fields, i)
}

/// Whether entry `i` of `rec` is field `i` of record buffer `b`, decoded.
pub open spec fn entry_decoded(
    fields: Seq<FieldDesc>,
    b: Seq<u8>,
    rec: Seq<(String, FieldValue)>,
    i: int,
) -> bool {
    rec[i].0@ == fields[i].name@ && decodes_to(field_bytes(fields, b, i), fields[i].ftype, rec[i].1)
}

/// Whether `rec` is record buffer `b` decoded field by field.
pub open spec fn decodes_record(fields: Seq<FieldDesc>, b: Seq<u8>, rec: Seq<(String, FieldValue)>) -> bool {
    &&& rec.len() == fields.len()
    &&& forall|i: int| 0 <= i < fields.len() ==> #[trigger] entry_decoded(fields, b, rec, i)
}

/// Decodes every field of the record held in `buf`, in field order.
pub fn decode_record(fields: &Vec<FieldDesc>, offs: &Vec<usize>, buf: &Vec<u8>) -> (r: DecodedRecord)
    requires
        is_layout(fields@, offs@, buf@.len()),
    ensures
        decodes_record(fields@, buf@, r@),
{
    let mut rec: DecodedRecord = Vec::new();
    let mut i: usize = 0;
    while i < fields.len()
        invariant
            is_layout(fields@, offs@, buf@.len()),
            i <= fields@.len(),
            rec@.len() == i,
            forall|j: int| 0 <= j < i ==> #[trigger] entry_decoded(fields@, buf@, rec@, j),
        decreases fields@.len() - i,
    {
        proof {
            lemma_offset_mono(fields@, i + 1, fields@.len() as int);
        }
        let f = &fields[i];
        let v = decode_field(buf, offs[i], f.ftype, f.len as usize);
        let name = f.name.clone();
        let ghost r0 = rec@;
        rec.push((name, v));
        proof {
            assert(field_bytes(fields@, buf@, i as int) =~= buf@.subrange(
                offs@[i as int] as int,
                offs@[i as int] + f.len as usize,
            ));
            assert(rec@[i as int].1 == v);
            assert(rec@[i as int].0@ == fields@[i as int].name@);
            assert(decodes_to(field_bytes(fields@, buf@, i as int), fields@[i as int].ftype, v));
            assert forall|j: int| 0 <= j < i + 1 implies #[trigger] entry_decoded(
                fields@,
                buf@,
                rec@,
                j,
            ) by {
                if j < i {
                    assert(rec@[j] == r0[j]);
                    assert(entry_decoded(fields@, buf@, r0, j));
                }
            }
        }
        i = i + 1;
    }
    rec
}

/// The new bytes of a field whose bytes were `s` when the caller's record
/// gives it `v` (or nothing).
pub open spec fn written_field(s: Seq<u8>, t: u8, v: Option<JsonValue>) -> Seq<u8> {
    match v {
        Some(x) => match encoded_field(s, t, x) {
            Some(f) => f,
            None => s,
        },
        None => s,
    }
}

/// Whether `new` is `old` once each field that record `rec` names has been
/// encoded from it, every other field left as it was.
pub open spec fn record_written(
    fields: Seq<FieldDesc>,
    old: Seq<u8>,
    new: Seq<u8>,
    rec: Seq<(String, JsonValue)>,
) -> bool {
    &&& new.len() == old.len()
    &&& forall|i: int|
        0 <= i < fields.len() ==> #[trigger] field_bytes(fields, new, i) == written_field(
            field_bytes(fields, old, i),
            fields[i].ftype,
            member(rec, fields[i].name@),
        )
}

/// Encodes into `buf` each field that `rec` gives a value for, in field
/// order; fields that `rec` leaves out keep their bytes.
pub fn write_record(
    fields: &Vec<FieldDesc>,
    offs: &Vec<usize>,
    buf: &mut Vec<u8>,
    rec: &Vec<(String, JsonValue)>,
)
    requires
        is_layout(fields@, offs@, old(buf)@.len()),
    ensures
        record_written(fields@, old(buf)@, final(buf)@, rec@),
{
    let ghost b0 = buf@;
    let mut i: usize = 0;
    while i < fields.len()
        invariant
            is_layout(fields@, offs@, b0.len()),
            buf@.len() == b0.len(),
            i <= fields@.len(),
            forall|j: int|
                0 <= j < i ==> #[trigger] field_bytes(fields@, buf@, j) == written_field(
                    field_bytes(fields@, b0, j),
                    fields@[j].ftype,
                    member(rec@, fields@[j].name@),
                ),
            forall|j: int| i <= j < fields@.len() ==> #[trigger] field_bytes(fields@, buf@, j)
                == field_bytes(fields@, b0, j),
        decreases fields@.len() - i,
    {
        proof {
            lemma_offset_mono(fields@, i + 1, fields@.len() as int);
        }
        let f = &fields[i];
        let ghost before = buf@;
        let start = offs[i];
        let len = f.len as usize;
        match get_member(rec, &f.name) {
            Some(v) => {
                encode_field(buf, start, f.ftype, len, v);
                proof {
                    crate::codec::lemma_encoded_len(
                        before.subrange(start as int, start + len),
                        f.ftype,
                        *v,
                    );
                }
            },
            None => {},
        }
        proof {
            assert(buf@.len() == before.len());
            assert(forall|k: int|
                0 <= k < before.len() && !(start <= k < start + len) ==> buf@[k] == before[k]);
        }
        proof {
            let s = offset(fields@, i as int) as int;
            let e = s + len;
            assert forall|j: int| 0 <= j < fields@.len() && j != i implies #[trigger] field_bytes(
                fields@,
                buf@,
                j,
            ) == field_bytes(fields@, before, j) by {
                if j < i {
                    lemma_offset_mono(fields@, j + 1, i as int);
                } else {
                    lemma_offset_mono(fields@, i + 1, j);
                }
                lemma_offset_mono(fields@, j + 1, fields@.len() as int);
                assert(offset(fields@, j + 1) == offset(fields@, j) + fields@[j].len);
                assert(offset(fields@, i + 1) == offset(fields@, i as int) + fields@[i as int].len);
                assert(start == offset(fields@, i as int));
                assert(field_bytes(fields@, buf@, j) =~= field_bytes(fields@, before, j));
            }
            assert(field_bytes(fields@, buf@, i as int) == written_field(
                field_bytes(fields@, b0, i as int),
                fields@[i as int].ftype,
                member(rec@, fields@[i as int].name@),
            )) by {
                let fb = field_bytes(fields@, before, i as int);
                match encoded_field(fb, f.ftype, member(rec@, f.name@).unwrap_or(JsonValue::Null)) {
                    Some(nf) => {
                        if member(rec@, f.name@) is Some {
                            assert(buf@ == splice(before, s, len as int, nf));
                            assert(field_bytes(fields@, buf@, i as int) =~= nf);
                        }
                    },
                    None => {},
                }
            }
        }
        i = i + 1;
    }
}

/// Fields that the caller's record leaves out keep their bytes, whatever the
/// record gives the others.
pub proof fn lemma_untouched_fields(
    fields: Seq<FieldDesc>,
    old: Seq<u8>,
    new: Seq<u8>,
    rec: Seq<(String, JsonValue)>,
    i: int,
)
    requires
        record_written(fields, old, new, rec),
        0 <= i < fields.len(),
        member(rec, fields[i].name@) is None,
    ensures
        field_bytes(fields, new, i) == field_bytes(fields, old, i),
{
    assert(field_bytes(fields, new, i) == written_field(
        field_bytes(fields, old, i),
        fields[i].ftype,
        member(rec, fields[i].name@),
    ));
}

} // verus!
