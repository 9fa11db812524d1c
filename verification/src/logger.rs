use vstd::prelude::*;

verus! {

/// Per-run reporting switch: per-file log lines are printed only when the
/// run asked for them; error lines are always printed. The printing itself
/// is the reporting collaborator's work and happens outside the library.
pub struct Logger {
    pub print_logs: bool,
}

impl Logger {
    pub fn new(print_logs: bool) -> (r: Logger)
        ensures
            r.print_logs == print_logs,
    {
        Logger { print_logs }
    }
}

} // verus!
