use paradox_mcp::codec::FieldValue;
use paradox_mcp::json::{JsonNumber, JsonValue};
use paradox_mcp::query::{compare_values, matches_query, SearchResults, SEARCH_CAP};

fn text(s: &str) -> FieldValue {
    FieldValue::Text(s.to_string())
}

fn q(s: &str) -> JsonValue {
    JsonValue::Str(s.to_string())
}

#[test]
fn substring_ignores_case() {
    assert!(compare_values(&text("Alice"), &q("ali")));
    assert!(compare_values(&text("Alice"), &q("LIC")));
    assert!(!compare_values(&text("Bob"), &q("ali")));
    assert!(compare_values(&text("Bob"), &q("")));
}

#[test]
fn text_against_number_compares_its_text() {
    assert!(compare_values(&text("42"), &JsonValue::Number(JsonNumber::PosInt(42))));
    assert!(!compare_values(&text("042"), &JsonValue::Number(JsonNumber::PosInt(42))));
    assert!(compare_values(&text("-5"), &JsonValue::Number(JsonNumber::NegInt(-5))));
    let f = JsonValue::Number(JsonNumber::Float { bits: 1.5f64.to_bits(), text: "1.5".to_string() });
    assert!(compare_values(&text("1.5"), &f));
}

#[test]
fn numbers_compare_exactly() {
    assert!(compare_values(&FieldValue::Int(7), &JsonValue::Number(JsonNumber::PosInt(7))));
    assert!(!compare_values(&FieldValue::Int(7), &JsonValue::Number(JsonNumber::PosInt(8))));
    assert!(compare_values(&FieldValue::Int(-7), &JsonValue::Number(JsonNumber::NegInt(-7))));
    let f = |d: f64| JsonValue::Number(JsonNumber::Float { bits: d.to_bits(), text: format!("{:?}", d) });
    assert!(compare_values(&FieldValue::Double(2.5f64.to_bits()), &f(2.5)));
    assert!(compare_values(&FieldValue::Double(0.0f64.to_bits()), &f(-0.0)));
    assert!(!compare_values(&FieldValue::Double(2.0f64.to_bits()), &JsonValue::Number(JsonNumber::PosInt(2))));
    assert!(!compare_values(&FieldValue::Int(2), &f(2.0)));
}

#[test]
fn booleans_and_null() {
    assert!(compare_values(&FieldValue::Bool(true), &JsonValue::Bool(true)));
    assert!(!compare_values(&FieldValue::Bool(true), &JsonValue::Bool(false)));
    assert!(compare_values(&FieldValue::Null, &JsonValue::Null));
    assert!(!compare_values(&FieldValue::Null, &q("")));
    assert!(!compare_values(&text("x"), &JsonValue::Null));
    assert!(!compare_values(&FieldValue::Bool(true), &JsonValue::Array(Vec::new())));
}

fn record() -> Vec<(String, FieldValue)> {
    vec![("Name".to_string(), text("Alice")), ("Age".to_string(), FieldValue::Int(30))]
}

#[test]
fn empty_query_matches_every_record() {
    assert!(matches_query(&record(), &Vec::new()));
    assert!(matches_query(&Vec::new(), &Vec::new()));
}

#[test]
fn every_named_field_must_match() {
    let good = vec![
        ("Name".to_string(), q("ali")),
        ("Age".to_string(), JsonValue::Number(JsonNumber::PosInt(30))),
    ];
    assert!(matches_query(&record(), &good));
    let bad = vec![
        ("Name".to_string(), q("ali")),
        ("Age".to_string(), JsonValue::Number(JsonNumber::PosInt(31))),
    ];
    assert!(!matches_query(&record(), &bad));
    let unknown_key = vec![("Missing".to_string(), q("zzz"))];
    assert!(matches_query(&record(), &unknown_key));
}

#[test]
fn search_stops_at_cap() {
    let mut s = SearchResults::new();
    let query = Vec::new();
    let mut full = false;
    for _ in 0..SEARCH_CAP + 5 {
        full = s.offer(record(), &query);
    }
    assert!(full);
    assert!(s.is_full());
    assert_eq!(s.found.len(), 1000);
}

#[test]
fn search_keeps_only_matches() {
    let mut s = SearchResults::new();
    let query = vec![("Name".to_string(), q("bob"))];
    assert!(!s.offer(record(), &query));
    assert!(!s.offer(vec![("Name".to_string(), text("Bobby"))], &query));
    assert_eq!(s.found.len(), 1);
}
