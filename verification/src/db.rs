//! The SQL text of the cache store's queries, built from the table, the
//! field, and the kind of query.

use vstd::prelude::*;

verus! {

/// The kind of query to build.
#[derive(Debug, Clone, Copy, PartialEq, Eq, Structural)]
pub enum Query {
    /// An upsert of one field keyed by year and day.
    Insert,
    /// A read of one field keyed by year and day.
    Select,
}

/// The cache store's tables.
#[derive(Debug, Clone, Copy, PartialEq, Eq, Structural)]
pub enum Table {
    /// Cached puzzle inputs, real and test.
    Inputs,
    /// Recorded results.
    Results,
    /// Expected results of test inputs.
    TestResults,
}

/// A table's name in the store.
pub open spec fn spec_table_name(t: Table) -> Seq<char> {
    match t {
        Table::Inputs => "Inputs"@,
        Table::Results => "Results"@,
        Table::TestResults => "Test_Results"@,
    }
}

/// The table's name.
pub fn table_name(t: Table) -> (r: &'static str)
    ensures
        r@ == spec_table_name(t),
{
    match t {
        Table::Inputs => "Inputs",
        Table::Results => "Results",
        Table::TestResults => "Test_Results",
    }
}

/// The SQL of a query on one field of a table, keyed by year and day.
pub open spec fn spec_query(table: Table, field: Seq<char>, query: Query) -> Seq<char> {
    match query {
        Query::Insert => "INSERT INTO "@ + spec_table_name(table) + " (year, day, "@ + field
            + ") VALUES (?1, ?2, ?3) ON CONFLICT(year, day) DO UPDATE SET "@ + field + " = ?3"@,
        Query::Select => "SELECT "@ + field + " FROM "@ + spec_table_name(table)
            + " WHERE year = ?1 AND day = ?2"@,
    }
}

/// Builds the SQL of a query on one field of a table.
pub fn build_query(table: Table, field: &str, query: Query) -> (r: String)
    ensures
        r@ == spec_query(table, field@, query),
{
    match query {
        Query::Insert => {
            let mut r = String::from_str("INSERT INTO ");
            r.append(table_name(table));
            r.append(" (year, day, ");
            r.append(field);
            r.append(") VALUES (?1, ?2, ?3) ON CONFLICT(year, day) DO UPDATE SET ");
            r.append(field);
            r.append(" = ?3");
            r
        },
        Query::Select => {
            let mut r = String::from_str("SELECT ");
            r.append(field);
            r.append(" FROM ");
            r.append(table_name(table));
            r.append(" WHERE year = ?1 AND day = ?2");
            r
        },
    }
}

/// The SQL asking whether a field is stored for a year and day.
pub open spec fn spec_has_field_query(field: Seq<char>) -> Seq<char> {
    "SELECT COUNT("@ + field + ") FROM Inputs WHERE year = ? AND day = ? AND "@ + field
        + " IS NOT NULL"@
}

/// Builds the SQL asking whether an input field is stored.
pub fn build_has_field_query(field: &str) -> (r: String)
    ensures
        r@ == spec_has_field_query(field@),
{
    let mut r = String::from_str("SELECT COUNT(");
    r.append(field);
    r.append(") FROM Inputs WHERE year = ? AND day = ? AND ");
    r.append(field);
    r.append(" IS NOT NULL");
    r
}

/// The input field read in test mode and in real mode.
pub fn input_field(test: bool) -> (r: &'static str)
    ensures
        r@ == (if test {
            "test_input"@
        } else {
            "input"@
        }),
{
    if test {
        "test_input"
    } else {
        "input"
    }
}

/// The result field of a part.
pub fn result_field(part: crate::Parts) -> (r: &'static str)
    ensures
        r@ == (match part {
            crate::Parts::Part1 => "part_1"@,
            crate::Parts::Part2 => "part_2"@,
        }),
{
    match part {
        crate::Parts::Part1 => "part_1",
        crate::Parts::Part2 => "part_2",
    }
}

} // verus!
