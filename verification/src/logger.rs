//! The console logger's state. Writing to the console happens outside the
//! library; the state here only says whether diagnostics are wanted.

use vstd::prelude::*;

verus! {

/// Whether diagnostic messages should be written at all.
pub struct Logger {
    pub quiet: bool,
}

impl Logger {
    /// Should a diagnostic message be written?
    pub fn enabled(&self) -> (r: bool)
        ensures
            r == !self.quiet,
    {
        !self.quiet
    }
}

} // verus!
