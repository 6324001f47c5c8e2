use vstd::prelude::*;

verus! {

/// What the command line asks for.
pub struct AppParams {
    /// Where the line goes: `x11` or `stdout`.
    pub backend: String,
    /// Whether to log what the scheduler does.
    pub verbose: bool,
    /// Whether to leave a change of the configuration unnoticed.
    pub noautoreload: bool,
}

impl AppParams {
    /// Whether the scheduler probes the configuration for a change.
    pub fn autoreload(&self) -> (r: bool)
        ensures
            r == !self.noautoreload,
    {
        !self.noautoreload
    }
}

} // verus!
