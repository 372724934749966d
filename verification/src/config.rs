use vstd::prelude::*;

verus! {

/// Settings of a compiler run.
#[derive(Debug, Clone, Copy, PartialEq, Eq)]
pub struct Config {
    pub verbose: bool,
    pub visualize: bool,
}

impl Config {
    /// Everything off.
    pub fn new() -> (r: Config)
        ensures
            !r.verbose,
            !r.visualize,
    {
        Config { verbose: false, visualize: false }
    }
}

} // verus!
