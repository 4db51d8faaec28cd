//! The execution of one request against the hash table, and the lines that
//! the server prints for it.

use vstd::prelude::*;
use vstd::string::StringExecFns;
use crate::request::{text_of, Operation, Request};
use crate::table::{table_delete, table_get, table_insert, Buckets, HashTable};

verus! {

/// The line that announces an insert.
pub open spec fn insert_lines(key: Seq<char>) -> Seq<Seq<char>> {
    seq!["Inserting key: "@ + key]
}

/// The lines that report a lookup: the announcement, then the value or the
/// miss.
pub open spec fn get_lines(key: Seq<char>, found: Option<Seq<char>>) -> Seq<Seq<char>> {
    match found {
        Some(value) => seq!["Getting key: "@ + key, "Value: "@ + value],
        None => seq!["Getting key: "@ + key, "Key not found: "@ + key],
    }
}

/// The lines that report a delete: the announcement, then the success or the
/// miss.
pub open spec fn delete_lines(key: Seq<char>, removed: bool) -> Seq<Seq<char>> {
    if removed {
        seq!["Deleting key: "@ + key, "Key deleted successfully"@]
    } else {
        seq!["Deleting key: "@ + key, "Key not found: "@ + key]
    }
}

/// The table after `request` was executed against it.
pub open spec fn table_after(table: Buckets, request: Request) -> Buckets {
    let key = text_of(request.key@);
    match request.operation {
        Operation::INSERT => table_insert(table, key, text_of(request.value@)),
        Operation::DELETE => table_delete(table, key),
        Operation::GET => table,
    }
}

/// The lines that the execution of `request` against `table` prints: the
/// request itself, then the report of its operation.
pub open spec fn lines_for(table: Buckets, request: Request) -> Seq<Seq<char>> {
    let key = text_of(request.key@);
    seq!["Processing request: "@ + request.spec_describe()] + match request.operation {
        Operation::INSERT => insert_lines(key),
        Operation::DELETE => delete_lines(key, table_get(table, key) is Some),
        Operation::GET => get_lines(key, table_get(table, key)),
    }
}

/// `prefix` followed by `text`.
fn labelled(prefix: &str, text: &str) -> (line: String)
    ensures
        line@ == prefix@ + text@,
{
    let mut line = String::from_str(prefix);
    line.append(text);
    line
}

/// The line that announces the execution of `request`.
pub fn report_request(request: &Request) -> (lines: Vec<String>)
    ensures
        lines.deep_view() == seq!["Processing request: "@ + request.spec_describe()],
{
    let text = request.describe();
    let lines = vec![labelled("Processing request: ", text.as_str())];
    assert(lines.deep_view() =~= seq!["Processing request: "@ + request.spec_describe()]);
    lines
}

/// The line that announces an insert of `key`.
pub fn report_insert(key: &str) -> (lines: Vec<String>)
    ensures
        lines.deep_view() == insert_lines(key@),
{
    let lines = vec![labelled("Inserting key: ", key)];
    assert(lines.deep_view() =~= insert_lines(key@));
    lines
}

/// The lines that report a lookup of `key` which found `found`.
pub fn report_get(key: &str, found: Option<&str>) -> (lines: Vec<String>)
    ensures
        lines.deep_view() == get_lines(
            key@,
            match found {
                Some(value) => Some(value@),
                None => None,
            },
        ),
{
    let second = match found {
        Some(value) => labelled("Value: ", value),
        None => labelled("Key not found: ", key),
    };
    let lines = vec![labelled("Getting key: ", key), second];
    assert(lines.deep_view() =~= get_lines(
        key@,
        match found {
            Some(value) => Some(value@),
            None => None,
        },
    ));
    lines
}

/// The lines that report a delete of `key` which removed a cell or not.
pub fn report_delete(key: &str, removed: bool) -> (lines: Vec<String>)
    ensures
        lines.deep_view() == delete_lines(key@, removed),
{
    let second = if removed {
        String::from_str("Key deleted successfully")
    } else {
        labelled("Key not found: ", key)
    };
    let lines = vec![labelled("Deleting key: ", key), second];
    assert(lines.deep_view() =~= delete_lines(key@, removed));
    lines
}

/// Executes `request` against `table` and returns the lines to print.
pub fn process_request(request: &Request, table: &mut HashTable) -> (lines: Vec<String>)
    requires
        old(table).wf(),
        old(table).spec_size() > 0,
    ensures
        final(table).wf(),
        final(table).spec_size() == old(table).spec_size(),
        final(table)@ == table_after(old(table)@, *request),
        lines.deep_view() == lines_for(old(table)@, *request),
{
    let mut lines = report_request(request);
    let key = request.key_str();
    let mut report = match request.operation {
        Operation::INSERT => {
            table.insert(key, request.value_str());
            report_insert(key)
        },
        Operation::DELETE => {
            let removed = table.delete(key);
            report_delete(key, removed)
        },
        Operation::GET => {
            match table.get(key) {
                Some(value) => report_get(key, Some(value.as_str())),
                None => report_get(key, None),
            }
        },
    };
    let ghost head = lines.deep_view();
    let ghost tail = report.deep_view();
    lines.append(&mut report);
    assert(lines.deep_view() =~= head + tail);
    lines
}

} // verus!
