//! The line that announces a command call in the debug log.
use vstd::prelude::*;

verus! {

/// The debug-log line for a call of command `cmd`: a cyan arrow tag, then the name.
pub fn log_call(cmd: &str) -> (r: String)
    ensures
        r@ == "\x1b[36m[IPC →]\x1b[0m "@ + cmd@,
{
    String::from_str("\x1b[36m[IPC →]\x1b[0m ").concat(cmd)
}

} // verus!
