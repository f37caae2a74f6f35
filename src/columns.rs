//! How a column's declared SQL type is read back into JSON.

use vstd::prelude::*;

verus! {

/// The JSON kind a column's values are read as.
#[derive(Debug, Clone, Copy, PartialEq, Eq, Structural)]
pub enum ColumnKind {
    /// Read as a 64-bit integer.
    Integer,
    /// Read as a double.
    Real,
    /// Read as a boolean.
    Boolean,
    /// Read as text (dates and times included).
    Text,
    /// Always null: the `NULL` type, blobs, and types not handled.
    Null,
}

/// The kind of a declared column type: `INTEGER`; `REAL` or `NUMERIC`;
/// `BOOLEAN`; `TEXT`, `DATE`, `TIME` or `DATETIME`; anything else is null.
pub open spec fn column_kind_of(declared: Seq<char>) -> ColumnKind {
    if declared == "INTEGER"@ {
        ColumnKind::Integer
    } else if declared == "REAL"@ || declared == "NUMERIC"@ {
        ColumnKind::Real
    } else if declared == "BOOLEAN"@ {
        ColumnKind::Boolean
    } else if declared == "TEXT"@ || declared == "DATE"@ || declared == "TIME"@
        || declared == "DATETIME"@ {
        ColumnKind::Text
    } else {
        ColumnKind::Null
    }
}

fn is(declared: &String, word: &str) -> (r: bool)
    ensures
        r == (declared@ == word@),
{
    declared.eq(&String::from_str(word))
}

/// The kind a column of declared type `declared` is read as.
pub fn column_kind(declared: &str) -> (r: ColumnKind)
    ensures
        r == column_kind_of(declared@),
{
    let t = String::from_str(declared);
    if is(&t, "INTEGER") {
        ColumnKind::Integer
    } else if is(&t, "REAL") || is(&t, "NUMERIC") {
        ColumnKind::Real
    } else if is(&t, "BOOLEAN") {
        ColumnKind::Boolean
    } else if is(&t, "TEXT") || is(&t, "DATE") || is(&t, "TIME") || is(&t, "DATETIME") {
        ColumnKind::Text
    } else {
        ColumnKind::Null
    }
}

} // verus!
