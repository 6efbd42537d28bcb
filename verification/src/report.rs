//! What to write to the log when a call has failed.

use vstd::prelude::*;
use vstd::string::StringExecFns;

verus! {

/// The line that says which call failed, and with what message.
pub open spec fn failure_line(method_name: Seq<char>, message: Seq<char>) -> Seq<char> {
    method_name + "() failed: "@ + message
}

/// The line that names one of the errors behind a failure.
pub open spec fn cause_line(message: Seq<char>) -> Seq<char> {
    "  Caused by: "@ + message
}

/// The lines to log for an error that the call `method_name` returned.
/// `chain` holds the message of the error and then, in order, that of each
/// error behind it: its source, the source of that one, and so on. The first
/// line names the call and the error, each further line one cause.
pub fn log_error(method_name: &str, chain: &Vec<String>) -> (lines: Vec<String>)
    ensures
        lines@.len() == chain@.len(),
        forall|i: int|
            0 <= i < lines@.len() ==> (#[trigger] lines@[i])@ == if i == 0 {
                failure_line(method_name@, chain@[0]@)
            } else {
                cause_line(chain@[i]@)
            },
{
    let mut lines: Vec<String> = Vec::new();
    let mut i: usize = 0;
    while i < chain.len()
        invariant
            i <= chain@.len(),
            lines@.len() == i,
            forall|k: int|
                0 <= k < i ==> (#[trigger] lines@[k])@ == if k == 0 {
                    failure_line(method_name@, chain@[0]@)
                } else {
                    cause_line(chain@[k]@)
                },
        decreases chain.len() - i,
    {
        let mut line = if i == 0 {
            String::from_str(method_name).concat("() failed: ")
        } else {
            String::from_str("  Caused by: ")
        };
        line.append(chain[i].as_str());
        lines.push(line);
        i += 1;
    }
    lines
}

} // verus!
