//! The answers of tool calls that touched a table.

use crate::dispatch::{is_reply, reply, ToolResult};
use crate::text::{concat2, concat3, decimal, u64_text};
use vstd::prelude::*;

verus! {

/// How many records `read_table_data` returns: the limit, or every record
/// when the table has fewer.
pub fn read_count(limit: u64, total: u64) -> (r: u64)
    ensures
        r == if limit < total { limit } else { total },
        limit == 0 ==> r == 0,
{
    if limit < total { limit } else { total }
}

/// The first line of a schema answer.
pub fn schema_header(table: &String) -> (r: String)
    ensures
        r@ == "Schema for table '"@ + table@ + "':"@,
{
    concat3("Schema for table '", table, "':")
}

/// The first line of a data answer.
pub fn data_header(table: &String, count: u64) -> (r: String)
    ensures
        r@ == "Data for table '"@ + table@ + "' ("@ + decimal(count as nat) + " records):"@,
{
    let mut s = concat3("Data for table '", table, "' (");
    let n = u64_text(count);
    s.append(n.as_str());
    s.append(" records):");
    s
}

/// The first line of a search answer.
pub fn search_header(table: &String, found: u64) -> (r: String)
    ensures
        r@ == "Search results for table '"@ + table@ + "' ("@ + decimal(found as nat)
            + " found):"@,
{
    let mut s = concat3("Search results for table '", table, "' (");
    let n = u64_text(found);
    s.append(n.as_str());
    s.append(" found):");
    s
}

/// The answer to `create_table`, once the table was (`ok`) or was not
/// created.
pub fn create_result(table: &String, n_fields: u64, ok: bool) -> (r: ToolResult)
    ensures
        ok ==> is_reply(
            r,
            false,
            "Successfully created table '"@ + table@ + "' with "@ + decimal(n_fields as nat)
                + " fields."@,
        ),
        !ok ==> is_reply(r, true, "Failed to create table '"@ + table@ + "'."@),
{
    if ok {
        let mut s = concat3("Successfully created table '", table, "' with ");
        let n = u64_text(n_fields);
        s.append(n.as_str());
        s.append(" fields.");
        reply(false, s)
    } else {
        reply(true, concat3("Failed to create table '", table, "'."))
    }
}

/// The answer to `insert_record` (`updated` false) or `update_record`, once
/// the record was (`ok`) or was not written.
pub fn write_result(table: &String, updated: bool, ok: bool) -> (r: ToolResult)
    ensures
        ok ==> is_reply(
            r,
            false,
            "Successfully "@ + (if updated {
                "updated"@
            } else {
                "inserted"@
            }) + " record in table '"@ + table@ + "'."@,
        ),
        !ok ==> is_reply(r, true, "Failed to write record to table '"@ + table@ + "'."@),
{
    if ok {
        let mut s = String::from_str("Successfully ");
        if updated {
            s.append("updated");
        } else {
            s.append("inserted");
        }
        s.append(" record in table '");
        s.append(table.as_str());
        s.append("'.");
        reply(false, s)
    } else {
        reply(true, concat3("Failed to write record to table '", table, "'."))
    }
}

/// The answer to an update of a record that is not there.
pub fn not_found_result(index: u64) -> (r: ToolResult)
    ensures
        is_reply(r, true, "Record at index "@ + decimal(index as nat) + " not found."@),
{
    let mut s = String::from_str("Record at index ");
    let n = u64_text(index);
    s.append(n.as_str());
    s.append(" not found.");
    reply(true, s)
}

/// The answer when the table file at `path` does not open, for reading or for
/// `writing`.
pub fn open_failed_result(path: &String, writing: bool) -> (r: ToolResult)
    ensures
        !writing ==> is_reply(r, true, "Failed to open table '"@ + path@ + "'"@),
        writing ==> is_reply(
            r,
            true,
            "Failed to open table '"@ + path@ + "' for writing. Ensure it's not locked."@,
        ),
{
    if writing {
        reply(true, concat3("Failed to open table '", path, "' for writing. Ensure it's not locked."))
    } else {
        reply(true, concat3("Failed to open table '", path, "'"))
    }
}

/// Whether file name `n` has the table extension: it ends in `.db` with
/// something before the dot.
pub open spec fn is_table_file(n: Seq<char>) -> bool {
    n.len() > 3 && n.subrange(n.len() - 3, n.len() as int) == ".db"@
}

/// The names joined with `, `.
pub open spec fn joined(names: Seq<Seq<char>>) -> Seq<char>
    decreases names.len(),
{
    if names.len() == 0 {
        Seq::empty()
    } else if names.len() == 1 {
        names[0]
    } else {
        joined(names.drop_last()) + ", "@ + names.last()
    }
}

/// The table files among `names`, in their order.
pub open spec fn table_files(names: Seq<String>) -> Seq<Seq<char>>
    decreases names.len(),
{
    if names.len() == 0 {
        Seq::empty()
    } else if is_table_file(names.last()@) {
        table_files(names.drop_last()).push(names.last()@)
    } else {
        table_files(names.drop_last())
    }
}

fn ends_with_db(n: &String) -> (r: bool)
    ensures
        r == is_table_file(n@),
{
    let s = n.as_str();
    let len = s.unicode_len();
    if len <= 3 {
        return false;
    }
    proof {
        reveal_strlit(".db");
    }
    let a = s.get_char(len - 3);
    let b = s.get_char(len - 2);
    let c = s.get_char(len - 1);
    let r = a == '.' && b == 'd' && c == 'b';
    proof {
        let tail = n@.subrange(len - 3, len as int);
        if r {
            assert(tail =~= ".db"@);
        } else {
            if tail == ".db"@ {
                assert(tail[0] == a && tail[1] == b && tail[2] == c);
            }
        }
    }
    r
}

/// The answer to `list_tables`, given the names of the files in the
/// configured directory: the table files among them, or a message that there
/// are none.
pub fn list_tables_result(names: &Vec<String>) -> (r: ToolResult)
    ensures
        table_files(names@).len() == 0 ==> is_reply(r, false, "No .db files found in location."@),
        table_files(names@).len() > 0 ==> is_reply(
            r,
            false,
            "Found tables: "@ + joined(table_files(names@)),
        ),
{
    let mut text = String::new();
    let mut count: usize = 0;
    let mut i: usize = 0;
    while i < names.len()
        invariant
            i <= names@.len(),
            count <= i,
            count == table_files(names@.take(i as int)).len(),
            text@ == joined(table_files(names@.take(i as int))),
        decreases names@.len() - i,
    {
        proof {
            assert(names@.take(i + 1).drop_last() =~= names@.take(i as int));
        }
        let ghost prev = table_files(names@.take(i as int));
        if ends_with_db(&names[i]) {
            if count > 0 {
                text.append(", ");
            }
            text.append(names[i].as_str());
            count = count + 1;
            proof {
                let x = names@[i as int]@;
                assert(names@.take(i + 1).last() == names@[i as int]);
                assert(table_files(names@.take(i + 1)) == prev.push(x));
                assert(prev.push(x).drop_last() =~= prev);
                if prev.len() == 0 {
                    assert(text@ =~= x);
                }
            }
        } else {
            proof {
                assert(names@.take(i + 1).last() == names@[i as int]);
            }
        }
        i = i + 1;
    }
    proof {
        assert(names@.take(names@.len() as int) =~= names@);
    }
    if count == 0 {
        reply(false, String::from_str("No .db files found in location."))
    } else {
        reply(false, concat2("Found tables: ", &text))
    }
}


/// The answer when a table's fields do not add up to its record size.
pub fn layout_mismatch_result(table: &String) -> (r: ToolResult)
    ensures
        is_reply(
            r,
            true,
            "Field lengths of table '"@ + table@ + "' do not match its record size."@,
        ),
{
    reply(true, concat3("Field lengths of table '", table, "' do not match its record size."))
}

} // verus!
