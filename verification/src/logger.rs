//! The lines of the diagnostic stream.

use crate::command_handler::Severity;
use vstd::prelude::*;
use vstd::string::StringExecFns;

verus! {

/// What a line of the given severity begins with.
pub open spec fn prefix_text(severity: Severity) -> Seq<char> {
    match severity {
        Severity::Warning => "Warning! "@,
        Severity::Error => "ERROR! "@,
    }
}

/// The text of a logged message: on a line of its own, after the prefix of
/// its severity and a space.
pub open spec fn line_text(severity: Severity, msg: Seq<char>) -> Seq<char> {
    "\n"@ + prefix_text(severity) + " "@ + msg + "\n"@
}

/// The text that is written to the diagnostic stream for a message.
pub fn log_line(severity: Severity, msg: &str) -> (line: String)
    ensures
        line@ == line_text(severity, msg@),
{
    let mut line = String::from_str("\n");
    match severity {
        Severity::Warning => line.append("Warning! "),
        Severity::Error => line.append("ERROR! "),
    }
    line.append(" ");
    line.append(msg);
    line.append("\n");
    line
}

} // verus!
