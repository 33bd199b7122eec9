//! The diagnostic log: whether it is open, and the lines written to it.

use vstd::prelude::*;

verus! {

/// Whether the log file has been opened.
#[derive(Clone, Copy, Debug, PartialEq, Eq, Structural)]
pub struct LogState {
    pub open: bool,
}

impl LogState {
    /// A log that has not been opened.
    pub fn new() -> (r: LogState)
        ensures
            !r.open,
    {
        LogState { open: false }
    }

    /// Whether starting the log should open the log file: only the first
    /// time.
    pub fn should_open(&self) -> (r: bool)
        ensures
            r == !self.open,
    {
        !self.open
    }
}

/// Record that the log file was opened; returns the header line written
/// first.
pub fn init(state: &mut LogState) -> (header: String)
    ensures
        final(state).open,
        header@ == "=== rs-ddraw log started ===\n"@,
{
    state.open = true;
    "=== rs-ddraw log started ===\n".to_string()
}

/// The line to append for `msg`: the message and a line break, when the
/// log is open; nothing otherwise.
pub fn log(state: &LogState, msg: &str) -> (line: Option<String>)
    ensures
        !state.open ==> line is None,
        state.open ==> (line matches Some(l) && l@ == msg@ + "\n"@),
{
    if state.open {
        let s = msg.to_string();
        Some(s.concat("\n"))
    } else {
        None
    }
}

} // verus!
