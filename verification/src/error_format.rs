//! The diagnostic line that reports a lexical error.

use crate::text::{decimal, push_decimal, push_signed_decimal, signed_decimal};
use vstd::prelude::*;
use vstd::string::*;

verus! {

/// The column reported while columns are not tracked.
pub const UNKNOWN_COLUMN: i64 = -1;

/// The diagnostic line for `message` at the given position.
pub open spec fn error_line(message: Seq<char>, line: nat, col: int) -> Seq<char> {
    "Error "@ + message + " at line "@ + decimal(line) + " col: "@ + signed_decimal(col)
}

/// Builds the diagnostic line `Error <message> at line <line> col: <col>`.
/// Writing it to the diagnostic stream is left to the caller.
pub fn format_error(message: &str, line: usize, col: i64) -> (report: String)
    ensures
        report@ == error_line(message@, line as nat, col as int),
{
    let mut report = String::from_str("Error ");
    report.append(message);
    report.append(" at line ");
    push_decimal(&mut report, line as u64);
    report.append(" col: ");
    push_signed_decimal(&mut report, col);
    report
}

} // verus!
