//! The one form in which failures that do not end the session are shown.

use vstd::prelude::*;

verus! {

/// A failure as shown to the operator: a marker, what was being done, and
/// what went wrong, on one line.
pub open spec fn error_text(context: Seq<char>, cause: Seq<char>) -> Seq<char> {
    "[ERROR] "@ + context + ": "@ + cause + "\n"@
}

/// Writes the line that reports a failure.
pub fn error_report(context: &str, cause: &str) -> (out: String)
    ensures
        out@ == error_text(context@, cause@),
{
    let mut out = "[ERROR] ".to_owned();
    out.append(context);
    out.append(": ");
    out.append(cause);
    out.append("\n");
    out
}

} // verus!
