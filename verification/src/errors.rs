//! The single closed error enumeration of the library.
//!
//! Every failure of the core is one of these kinds; all of them are terminal
//! for a run. Input/output failures never arise here: the library works on
//! in-memory bytes, and the surrounding program deals with its own streams.

use vstd::prelude::*;
use vstd::string::StringExecFns;

verus! {

/// Why a run, or the column resolution that precedes it, failed.
#[derive(Debug)]
pub enum Error {
    /// A non-numeric column spec was looked up in the header row and no
    /// field matched it exactly.
    ColumnNotFound,
    /// The column spec is not a non-negative integer, and no header row is
    /// available to resolve a name against.
    InvalidColumnSpec,
    /// The regular expression did not compile; the engine's diagnostic is kept.
    PatternCompile(String),
    /// The row source or sink reported a malformed record; the original
    /// diagnostic is kept.
    RowFormat(String),
}

impl Error {
    /// The single human-readable line for this failure; an engine diagnostic
    /// is passed on as it came.
    pub open spec fn message_spec(&self) -> Seq<char> {
        match self {
            Error::ColumnNotFound => "column not found"@,
            Error::InvalidColumnSpec => "invalid column spec: expected a non-negative integer or, with headers, a column name"@,
            Error::PatternCompile(m) => m@,
            Error::RowFormat(m) => m@,
        }
    }

    pub fn message(&self) -> (r: String)
        ensures
            r@ == self.message_spec(),
    {
        match self {
            Error::ColumnNotFound => String::from_str("column not found"),
            Error::InvalidColumnSpec => String::from_str(
                "invalid column spec: expected a non-negative integer or, with headers, a column name",
            ),
            Error::PatternCompile(m) => m.clone(),
            Error::RowFormat(m) => m.clone(),
        }
    }
}

} // verus!
