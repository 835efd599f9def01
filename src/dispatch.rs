//! The tool dispatcher: turns one JSON-RPC request into the table operation
//! it asks for, or into its answer when no table is involved. Validation goes
//! in a fixed order: the editing permission, then `table_name`, then the
//! tool's own arguments.

use crate::args::Args;
use crate::json::{get_member, member, str_member, u64_member, JsonNumber, JsonValue};
use crate::record::FieldDesc;
use crate::schema::{field_specs, is_field_for, members_of};
use crate::text::{concat2, concat3, same};
use vstd::prelude::*;

verus! {

/// How many records `read_table_data` returns when no limit is given.
pub const DEFAULT_LIMIT: u64 = 100;

/// What a tool call answers: an error flag and lines of text.
pub struct ToolResult {
    pub is_error: bool,
    pub texts: Vec<String>,
}

/// Whether `r` answers with the one line `text`, flagged as an error or not.
pub open spec fn is_reply(r: ToolResult, err: bool, text: Seq<char>) -> bool {
    r.is_error == err && r.texts@.len() == 1 && r.texts@[0]@ == text
}

/// An answer of one line.
pub fn reply(err: bool, text: String) -> (r: ToolResult)
    ensures
        is_reply(r, err, text@),
{
    let mut texts: Vec<String> = Vec::new();
    texts.push(text);
    ToolResult { is_error: err, texts }
}

/// What a tool call comes to.
pub enum ToolAction<'a> {
    /// Answered at once, without a table.
    Reply(ToolResult),
    /// List the table files of the configured directory.
    ListTables,
    ReadSchema { table: &'a String },
    ReadData { table: &'a String, limit: u64 },
    Search { table: &'a String, query: &'a Vec<(String, JsonValue)> },
    CreateTable { table: &'a String, fields: Vec<FieldDesc> },
    /// Insert a record (`index` is `None`) or update the record at `index`.
    WriteRecord { table: &'a String, index: Option<u64>, record: &'a Vec<(String, JsonValue)> },
}

/// What a JSON-RPC request comes to.
pub enum RequestPlan<'a> {
    /// The static protocol descriptor.
    Initialize,
    /// The catalog of tools.
    ListTools,
    Call(ToolAction<'a>),
    /// An empty result object.
    Empty,
}

pub open spec fn denied_text() -> Seq<char> {
    "Editing is not permitted on this server."@
}

pub open spec fn status_text(location: Seq<char>, permit: bool) -> Seq<char> {
    "Paradox Server Configuration:\n- Location: "@ + location + "\n- Permit Editing: "@ + if permit {
        "true"@
    } else {
        "false"@
    }
}

pub open spec fn is_error_action(r: ToolAction, text: Seq<char>) -> bool {
    r matches ToolAction::Reply(t) && is_reply(t, true, text)
}

pub open spec fn is_editing_tool(name: Seq<char>) -> bool {
    name == "create_table"@ || name == "insert_record"@ || name == "update_record"@
}

/// The action that tool `name` with arguments `m` comes to.
pub open spec fn dispatched(
    name: Seq<char>,
    m: Seq<(String, JsonValue)>,
    location: Seq<char>,
    permit: bool,
    r: ToolAction,
) -> bool {
    if name == "get_server_status"@ {
        r matches ToolAction::Reply(t) && is_reply(t, false, status_text(location, permit))
    } else if name == "list_tables"@ {
        r is ListTables
    } else if is_editing_tool(name) && !permit {
        is_error_action(r, denied_text())
    } else if name == "read_table_schema"@ || name == "read_table_data"@ || name == "search_table"@
        || is_editing_tool(name) {
        match str_member(m, "table_name"@) {
            None => is_error_action(r, "Missing table_name"@),
            Some(t) => if name == "read_table_schema"@ {
                r matches ToolAction::ReadSchema { table } && table@ == t
            } else if name == "read_table_data"@ {
                r matches ToolAction::ReadData { table, limit } && table@ == t && limit == match u64_member(m, "limit"@) {
                    Some(l) => l,
                    None => DEFAULT_LIMIT,
                }
            } else if name == "search_table"@ {
                match member(m, "query"@) {
                    Some(JsonValue::Object(q)) => r matches ToolAction::Search { table, query }
                        && table@ == t && query@ == q@,
                    _ => is_error_action(r, "Missing or invalid query object"@),
                }
            } else if name == "create_table"@ {
                match member(m, "fields"@) {
                    Some(JsonValue::Array(a)) => r matches ToolAction::CreateTable { table, fields }
                        && table@ == t && fields@.len() == a@.len() && forall|i: int|
                        0 <= i < a@.len() ==> is_field_for(a@[i], #[trigger] fields@[i]),
                    _ => is_error_action(r, "Missing or invalid fields array"@),
                }
            } else {
                match member(m, "record"@) {
                    Some(JsonValue::Object(rec)) => if name == "insert_record"@ {
                        r matches ToolAction::WriteRecord { table, index, record } && table@ == t
                            && index is None && record@ == rec@
                    } else {
                        match u64_member(m, "index"@) {
                            Some(i) => r matches ToolAction::WriteRecord { table, index, record }
                                && table@ == t && index == Some(i) && record@ == rec@,
                            None => is_error_action(r, "Missing record index"@),
                        }
                    },
                    _ => is_error_action(r, "Missing record object"@),
                }
            },
        }
    } else {
        is_error_action(r, "Tool not found: "@ + name)
    }
}

/// The members of an optional arguments object.
pub open spec fn members_or_empty(m: Option<&Vec<(String, JsonValue)>>) -> Seq<(String, JsonValue)> {
    match m {
        Some(v) => v@,
        None => Seq::empty(),
    }
}

fn arg<'a>(m: Option<&'a Vec<(String, JsonValue)>>, key: &str) -> (r: Option<&'a JsonValue>)
    ensures
        match r {
            Some(v) => member(members_or_empty(m), key@) == Some(*v),
            None => member(members_or_empty(m), key@) is None,
        },
{
    match m {
        Some(v) => {
            let k = String::from_str(key);
            get_member(v, &k)
        },
        None => None,
    }
}

fn error_action<'a>(text: &str) -> (r: ToolAction<'a>)
    ensures
        is_error_action(r, text@),
{
    ToolAction::Reply(reply(true, String::from_str(text)))
}

fn status_reply(args: &Args) -> (r: ToolResult)
    ensures
        is_reply(r, false, status_text(args.location@, args.permit_editing)),
{
    let mut s = concat3(
        "Paradox Server Configuration:\n- Location: ",
        &args.location,
        "\n- Permit Editing: ",
    );
    if args.permit_editing {
        s.append("true");
    } else {
        s.append("false");
    }
    reply(false, s)
}

/// The action that tool `name` asks for with `arguments` (none: an empty
/// object).
pub fn dispatch_tool<'a>(
    name: &String,
    arguments: Option<&'a Vec<(String, JsonValue)>>,
    args: &Args,
) -> (r: ToolAction<'a>)
    ensures
        dispatched(name@, members_or_empty(arguments), args.location@, args.permit_editing, r),
{
    if same(name, "get_server_status") {
        return ToolAction::Reply(status_reply(args));
    }
    if same(name, "list_tables") {
        return ToolAction::ListTables;
    }
    let schema = same(name, "read_table_schema");
    let data = same(name, "read_table_data");
    let search = same(name, "search_table");
    let create = same(name, "create_table");
    let insert = same(name, "insert_record");
    let update = same(name, "update_record");
    if !(schema || data || search || create || insert || update) {
        let text = concat2("Tool not found: ", name);
        return ToolAction::Reply(reply(true, text));
    }
    if (create || insert || update) && !args.permit_editing {
        return error_action("Editing is not permitted on this server.");
    }
    let table: &'a String = match arg(arguments, "table_name") {
        Some(JsonValue::Str(t)) => t,
        _ => {
            return error_action("Missing table_name");
        },
    };
    if schema {
        return ToolAction::ReadSchema { table };
    }
    if data {
        let limit: u64 = match arg(arguments, "limit") {
            Some(JsonValue::Number(JsonNumber::PosInt(l))) => *l,
            _ => DEFAULT_LIMIT,
        };
        return ToolAction::ReadData { table, limit };
    }
    if search {
        return match arg(arguments, "query") {
            Some(JsonValue::Object(q)) => ToolAction::Search { table, query: q },
            _ => error_action("Missing or invalid query object"),
        };
    }
    if create {
        return match arg(arguments, "fields") {
            Some(JsonValue::Array(a)) => {
                let fields = field_specs(a);
                ToolAction::CreateTable { table, fields }
            },
            _ => error_action("Missing or invalid fields array"),
        };
    }
    let record: &'a Vec<(String, JsonValue)> = match arg(arguments, "record") {
        Some(JsonValue::Object(rec)) => rec,
        _ => {
            return error_action("Missing record object");
        },
    };
    if insert {
        return ToolAction::WriteRecord { table, index: None, record };
    }
    match arg(arguments, "index") {
        Some(JsonValue::Number(JsonNumber::PosInt(i))) => ToolAction::WriteRecord {
            table,
            index: Some(*i),
            record,
        },
        _ => error_action("Missing record index"),
    }
}

/// The arguments object of a `tools/call`'s parameters, when there is one.
pub open spec fn arguments_of(p: JsonValue) -> Seq<(String, JsonValue)> {
    match member(members_of(p), "arguments"@) {
        Some(JsonValue::Object(a)) => a@,
        _ => Seq::empty(),
    }
}

/// What request `method` with parameters `params` comes to.
pub open spec fn planned(
    method: Seq<char>,
    params: Option<JsonValue>,
    location: Seq<char>,
    permit: bool,
    r: RequestPlan,
) -> bool {
    if method == "initialize"@ {
        r is Initialize
    } else if method == "tools/list"@ {
        r is ListTools
    } else if method == "tools/call"@ {
        match params {
            None => r matches RequestPlan::Call(a) && is_error_action(a, "Missing params"@),
            Some(p) => match str_member(members_of(p), "name"@) {
                None => r matches RequestPlan::Call(a) && is_error_action(a, "Missing tool name"@),
                Some(n) => r matches RequestPlan::Call(a) && dispatched(
                    n,
                    arguments_of(p),
                    location,
                    permit,
                    a,
                ),
            },
        }
    } else {
        r is Empty
    }
}

/// What a JSON-RPC request comes to: `initialize` and `tools/list` are
/// answered from static data, `tools/call` goes to the dispatcher, and any
/// other method gets an empty result.
pub fn handle_request<'a>(method: &String, params: Option<&'a JsonValue>, args: &Args) -> (r:
    RequestPlan<'a>)
    ensures
        planned(
            method@,
            match params {
                Some(p) => Some(*p),
                None => None,
            },
            args.location@,
            args.permit_editing,
            r,
        ),
{
    if same(method, "initialize") {
        return RequestPlan::Initialize;
    }
    if same(method, "tools/list") {
        return RequestPlan::ListTools;
    }
    if !same(method, "tools/call") {
        return RequestPlan::Empty;
    }
    let p: &'a JsonValue = match params {
        Some(p) => p,
        None => {
            return RequestPlan::Call(error_action("Missing params"));
        },
    };
    let m: Option<&'a Vec<(String, JsonValue)>> = match p {
        JsonValue::Object(m) => Some(m),
        _ => None,
    };
    proof {
        assert(members_or_empty(m) == members_of(*p));
    }
    let name: &'a String = match arg(m, "name") {
        Some(JsonValue::Str(n)) => n,
        _ => {
            return RequestPlan::Call(error_action("Missing tool name"));
        },
    };
    let arguments: Option<&'a Vec<(String, JsonValue)>> = match arg(m, "arguments") {
        Some(JsonValue::Object(a)) => Some(a),
        _ => None,
    };
    RequestPlan::Call(dispatch_tool(name, arguments, args))
}

/// Whether a request with this `id` gets a response: only one whose `id` is
/// present and not null. Notifications get none.
pub fn needs_response(id: Option<&JsonValue>) -> (r: bool)
    ensures
        r == (id matches Some(v) && !(*v is Null)),
{
    match id {
        Some(JsonValue::Null) => false,
        Some(_) => true,
        None => false,
    }
}


/// Without the editing permission, every tool that creates or changes a table
/// answers with the permission error, whatever its arguments.
pub proof fn lemma_editing_denied(
    name: Seq<char>,
    m: Seq<(String, JsonValue)>,
    location: Seq<char>,
    r: ToolAction,
)
    requires
        is_editing_tool(name),
        dispatched(name, m, location, false, r),
    ensures
        is_error_action(r, denied_text()),
{
    reveal_strlit("create_table");
    reveal_strlit("insert_record");
    reveal_strlit("update_record");
    reveal_strlit("get_server_status");
    reveal_strlit("list_tables");
    assert(name[0] != "get_server_status"@[0]);
    assert(name[0] != "list_tables"@[0]);
}

/// A tool name outside the catalog is answered with an error that names it.
pub proof fn lemma_unknown_tool(
    name: Seq<char>,
    m: Seq<(String, JsonValue)>,
    location: Seq<char>,
    permit: bool,
    r: ToolAction,
)
    requires
        name != "get_server_status"@,
        name != "list_tables"@,
        name != "read_table_schema"@,
        name != "read_table_data"@,
        name != "search_table"@,
        !is_editing_tool(name),
        dispatched(name, m, location, permit, r),
    ensures
        is_error_action(r, "Tool not found: "@ + name),
{
}

} // verus!
