//! The statements that are sent to the storage engine.

use vstd::prelude::*;
use vstd::string::StringExecFns;

verus! {

/// The statement that makes the table of molecules unless it is there: a key,
/// which identifies the row, the molecule's document, which may be missing,
/// and the properties' document.
pub open spec fn create_table_text(table: Seq<char>) -> Seq<char> {
    "CREATE TABLE IF NOT EXISTS "@ + table
        + " (key TEXT PRIMARY KEY NOT NULL, molecule JSON, properties JSON NOT NULL)"@
}

/// The statement that adds one row; its three values are bound when it runs.
pub open spec fn insert_text(table: Seq<char>) -> Seq<char> {
    "INSERT INTO "@ + table + " (key, molecule, properties) VALUES (?, ?, ?)"@
}

/// The statement that makes the table `table` unless it is there.
pub fn create_table_statement(table: &str) -> (statement: String)
    ensures
        statement@ == create_table_text(table@),
{
    let mut statement = String::from_str("CREATE TABLE IF NOT EXISTS ");
    statement.append(table);
    statement.append(" (key TEXT PRIMARY KEY NOT NULL, molecule JSON, properties JSON NOT NULL)");
    statement
}

/// The statement that adds one row to the table `table`.
pub fn insert_statement(table: &str) -> (statement: String)
    ensures
        statement@ == insert_text(table@),
{
    let mut statement = String::from_str("INSERT INTO ");
    statement.append(table);
    statement.append(" (key, molecule, properties) VALUES (?, ?, ?)");
    statement
}

} // verus!
