use paradox_mcp::args::Args;
use paradox_mcp::codec::{PX_ALPHA, PX_LONG, PX_NUMBER, PX_SHORT};
use paradox_mcp::dispatch::{
    dispatch_tool, handle_request, needs_response, RequestPlan, ToolAction, DEFAULT_LIMIT,
};
use paradox_mcp::json::{JsonNumber, JsonValue};
use paradox_mcp::replies::read_count;
use paradox_mcp::schema::{field_spec, type_label};

fn args(permit: bool) -> Args {
    Args { location: "/data".to_string(), port: None, permit_editing: permit }
}

fn s(v: &str) -> JsonValue {
    JsonValue::Str(v.to_string())
}

fn obj(members: Vec<(&str, JsonValue)>) -> Vec<(String, JsonValue)> {
    members.into_iter().map(|(k, v)| (k.to_string(), v)).collect()
}

fn error_text(a: &ToolAction) -> String {
    match a {
        ToolAction::Reply(r) => {
            assert!(r.is_error);
            assert_eq!(r.texts.len(), 1);
            r.texts[0].clone()
        },
        _ => panic!("not a reply"),
    }
}

#[test]
fn editing_tools_need_permission() {
    let full = obj(vec![
        ("table_name", s("t")),
        ("record", JsonValue::Object(Vec::new())),
        ("index", JsonValue::Number(JsonNumber::PosInt(0))),
        ("fields", JsonValue::Array(Vec::new())),
    ]);
    for name in ["create_table", "insert_record", "update_record"] {
        let n = name.to_string();
        let a = dispatch_tool(&n, Some(&full), &args(false));
        assert_eq!(error_text(&a), "Editing is not permitted on this server.");
        let a = dispatch_tool(&n, None, &args(false));
        assert_eq!(error_text(&a), "Editing is not permitted on this server.");
    }
}

#[test]
fn unknown_tool_is_named() {
    let a = dispatch_tool(&"drop_table".to_string(), None, &args(true));
    assert_eq!(error_text(&a), "Tool not found: drop_table");
}

#[test]
fn table_name_is_checked_before_other_arguments() {
    let a = dispatch_tool(&"search_table".to_string(), None, &args(true));
    assert_eq!(error_text(&a), "Missing table_name");
    let m = obj(vec![("table_name", s("t"))]);
    let a = dispatch_tool(&"search_table".to_string(), Some(&m), &args(true));
    assert_eq!(error_text(&a), "Missing or invalid query object");
    let a = dispatch_tool(&"create_table".to_string(), Some(&m), &args(true));
    assert_eq!(error_text(&a), "Missing or invalid fields array");
    let a = dispatch_tool(&"insert_record".to_string(), Some(&m), &args(true));
    assert_eq!(error_text(&a), "Missing record object");
    let m = obj(vec![("table_name", s("t")), ("record", JsonValue::Object(Vec::new()))]);
    let a = dispatch_tool(&"update_record".to_string(), Some(&m), &args(true));
    assert_eq!(error_text(&a), "Missing record index");
    let m = obj(vec![("table_name", JsonValue::Number(JsonNumber::PosInt(3)))]);
    let a = dispatch_tool(&"read_table_schema".to_string(), Some(&m), &args(true));
    assert_eq!(error_text(&a), "Missing table_name");
}

#[test]
fn read_data_limit_defaults() {
    let m = obj(vec![("table_name", s("people"))]);
    match dispatch_tool(&"read_table_data".to_string(), Some(&m), &args(false)) {
        ToolAction::ReadData { table, limit } => {
            assert_eq!(table, "people");
            assert_eq!(limit, DEFAULT_LIMIT);
            assert_eq!(limit, 100);
        },
        _ => panic!("not a read"),
    }
    let m = obj(vec![("table_name", s("people")), ("limit", JsonValue::Number(JsonNumber::PosInt(0)))]);
    match dispatch_tool(&"read_table_data".to_string(), Some(&m), &args(false)) {
        ToolAction::ReadData { limit, .. } => assert_eq!(limit, 0),
        _ => panic!("not a read"),
    }
}

#[test]
fn read_count_is_the_smaller() {
    assert_eq!(read_count(0, 10), 0);
    assert_eq!(read_count(5, 10), 5);
    assert_eq!(read_count(100, 10), 10);
    assert_eq!(read_count(0, 0), 0);
}

#[test]
fn update_carries_index_and_record() {
    let rec = vec![("Qty".to_string(), JsonValue::Number(JsonNumber::PosInt(4)))];
    let m = obj(vec![
        ("table_name", s("t")),
        ("index", JsonValue::Number(JsonNumber::PosInt(7))),
        ("record", JsonValue::Object(rec)),
    ]);
    match dispatch_tool(&"update_record".to_string(), Some(&m), &args(true)) {
        ToolAction::WriteRecord { table, index, record } => {
            assert_eq!(table, "t");
            assert_eq!(index, Some(7));
            assert_eq!(record.len(), 1);
        },
        _ => panic!("not a write"),
    }
    match dispatch_tool(&"insert_record".to_string(), Some(&m), &args(true)) {
        ToolAction::WriteRecord { index, .. } => assert_eq!(index, None),
        _ => panic!("not a write"),
    }
}

#[test]
fn server_status_text() {
    match dispatch_tool(&"get_server_status".to_string(), None, &args(true)) {
        ToolAction::Reply(r) => {
            assert!(!r.is_error);
            assert_eq!(r.texts[0], "Paradox Server Configuration:\n- Location: /data\n- Permit Editing: true");
        },
        _ => panic!("not a reply"),
    }
}

#[test]
fn create_table_field_lengths() {
    let qty = JsonValue::Object(obj(vec![("name", s("Qty")), ("type", s("SHORT"))]));
    let f = field_spec(&qty);
    assert_eq!(f.name, "Qty");
    assert_eq!(f.ftype, PX_SHORT);
    assert_eq!(f.len, 2);
    let price = JsonValue::Object(obj(vec![
        ("name", s("Price")),
        ("type", s("NUMBER")),
        ("length", JsonValue::Number(JsonNumber::PosInt(8))),
    ]));
    let f = field_spec(&price);
    assert_eq!(f.ftype, PX_NUMBER);
    assert_eq!(f.len, 8);
}

#[test]
fn field_spec_defaults() {
    let f = field_spec(&JsonValue::Object(Vec::new()));
    assert_eq!(f.name, "UNKNOWN");
    assert_eq!(f.ftype, PX_ALPHA);
    assert_eq!(f.len, 0);
    let f = field_spec(&JsonValue::Object(obj(vec![("name", s("n")), ("type", s("long")), ("length", JsonValue::Number(JsonNumber::NegInt(-3)))])));
    assert_eq!(f.ftype, PX_LONG);
    assert_eq!(f.len, 4);
    let f = field_spec(&JsonValue::Object(obj(vec![("name", s("a\0b")), ("type", s("weird")), ("length", JsonValue::Number(JsonNumber::PosInt(20)))])));
    assert_eq!(f.name, "INVALID");
    assert_eq!(f.ftype, PX_ALPHA);
    assert_eq!(f.len, 20);
    assert_eq!(type_label(PX_LONG), "LONG");
    assert_eq!(type_label(0x7F), "UNKNOWN");
}

#[test]
fn create_table_builds_descriptors() {
    let fields = JsonValue::Array(vec![
        JsonValue::Object(obj(vec![("name", s("Qty")), ("type", s("SHORT"))])),
        JsonValue::Object(obj(vec![("name", s("Note")), ("type", s("ALPHA")), ("length", JsonValue::Number(JsonNumber::PosInt(30)))])),
    ]);
    let m = obj(vec![("table_name", s("t")), ("fields", fields)]);
    match dispatch_tool(&"create_table".to_string(), Some(&m), &args(true)) {
        ToolAction::CreateTable { fields, .. } => {
            assert_eq!(fields.len(), 2);
            assert_eq!(fields[0].len, 2);
            assert_eq!(fields[1].len, 30);
        },
        _ => panic!("not a create"),
    }
}

#[test]
fn request_methods() {
    let a = args(false);
    assert!(matches!(handle_request(&"initialize".to_string(), None, &a), RequestPlan::Initialize));
    assert!(matches!(handle_request(&"tools/list".to_string(), None, &a), RequestPlan::ListTools));
    assert!(matches!(handle_request(&"ping".to_string(), None, &a), RequestPlan::Empty));
    match handle_request(&"tools/call".to_string(), None, &a) {
        RequestPlan::Call(act) => assert_eq!(error_text(&act), "Missing params"),
        _ => panic!("not a call"),
    }
    let p = JsonValue::Object(Vec::new());
    match handle_request(&"tools/call".to_string(), Some(&p), &a) {
        RequestPlan::Call(act) => assert_eq!(error_text(&act), "Missing tool name"),
        _ => panic!("not a call"),
    }
    let p = JsonValue::Object(obj(vec![("name", s("nope"))]));
    match handle_request(&"tools/call".to_string(), Some(&p), &a) {
        RequestPlan::Call(act) => assert_eq!(error_text(&act), "Tool not found: nope"),
        _ => panic!("not a call"),
    }
    let p = JsonValue::Object(obj(vec![
        ("name", s("read_table_schema")),
        ("arguments", JsonValue::Object(obj(vec![("table_name", s("x"))]))),
    ]));
    match handle_request(&"tools/call".to_string(), Some(&p), &a) {
        RequestPlan::Call(ToolAction::ReadSchema { table }) => assert_eq!(table, "x"),
        _ => panic!("not a schema read"),
    }
}

#[test]
fn notifications_get_no_response() {
    assert!(!needs_response(None));
    assert!(!needs_response(Some(&JsonValue::Null)));
    assert!(needs_response(Some(&JsonValue::Number(JsonNumber::PosInt(1)))));
    assert!(needs_response(Some(&s("abc"))));
}
