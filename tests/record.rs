use paradox_mcp::codec::{FieldValue, PX_ALPHA, PX_LOGICAL, PX_SHORT};
use paradox_mcp::json::{JsonNumber, JsonValue};
use paradox_mcp::record::{decode_record, field_offsets, write_record, FieldDesc, LayoutError};

fn fields() -> Vec<FieldDesc> {
    vec![
        FieldDesc { name: "Name".to_string(), ftype: PX_ALPHA, len: 6 },
        FieldDesc { name: "Qty".to_string(), ftype: PX_SHORT, len: 2 },
        FieldDesc { name: "Paid".to_string(), ftype: PX_LOGICAL, len: 1 },
    ]
}

#[test]
fn offsets_are_running_sums() {
    assert_eq!(field_offsets(&fields(), 9), Ok(vec![0, 6, 8]));
}

#[test]
fn size_mismatch_is_an_error() {
    assert_eq!(field_offsets(&fields(), 10), Err(LayoutError::SizeMismatch));
    assert_eq!(field_offsets(&fields(), 8), Err(LayoutError::SizeMismatch));
}

#[test]
fn insert_then_decode() {
    let f = fields();
    let offs = field_offsets(&f, 9).unwrap();
    let mut buf = vec![0u8; 9];
    let rec = vec![
        ("Name".to_string(), JsonValue::Str("Bob".to_string())),
        ("Qty".to_string(), JsonValue::Number(JsonNumber::PosInt(12))),
        ("Paid".to_string(), JsonValue::Bool(true)),
    ];
    write_record(&f, &offs, &mut buf, &rec);
    let d = decode_record(&f, &offs, &buf);
    assert_eq!(d.len(), 3);
    assert_eq!(d[0].0, "Name");
    assert!(matches!(&d[0].1, FieldValue::Text(s) if s == "Bob"));
    assert!(matches!(d[1].1, FieldValue::Int(12)));
    assert!(matches!(d[2].1, FieldValue::Bool(true)));
}

#[test]
fn partial_update_keeps_other_fields() {
    let f = fields();
    let offs = field_offsets(&f, 9).unwrap();
    let mut buf = vec![0u8; 9];
    let full = vec![
        ("Name".to_string(), JsonValue::Str("Alice".to_string())),
        ("Qty".to_string(), JsonValue::Number(JsonNumber::NegInt(-4))),
        ("Paid".to_string(), JsonValue::Bool(false)),
    ];
    write_record(&f, &offs, &mut buf, &full);
    let before = buf.clone();
    let part = vec![
        ("Qty".to_string(), JsonValue::Number(JsonNumber::PosInt(99))),
        ("Other".to_string(), JsonValue::Null),
    ];
    write_record(&f, &offs, &mut buf, &part);
    assert_eq!(buf[0..6], before[0..6]);
    assert_eq!(buf[8], before[8]);
    assert_ne!(buf[6..8], before[6..8]);
    let d = decode_record(&f, &offs, &buf);
    assert!(matches!(d[1].1, FieldValue::Int(99)));
    assert!(matches!(&d[0].1, FieldValue::Text(s) if s == "Alice"));
}

#[test]
fn empty_record_writes_nothing() {
    let f = fields();
    let offs = field_offsets(&f, 9).unwrap();
    let mut buf = vec![5u8; 9];
    write_record(&f, &offs, &mut buf, &Vec::new());
    assert_eq!(buf, vec![5u8; 9]);
}
