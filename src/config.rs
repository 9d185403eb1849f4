use std::collections::BTreeMap;
use vstd::prelude::*;

verus! {

/// A remote host that reports system snapshots.
#[derive(Clone, Debug)]
pub struct Remote {
    pub ip: String,
    pub enable: bool,
}

/// The value `enable` takes when a configuration leaves it out.
pub fn truer() -> (r: bool)
    ensures
        r,
{
    true
}

/// The remote hosts to poll, by name.
#[derive(Clone, Debug)]
pub struct Config {
    pub remotes: BTreeMap<String, Remote>,
}

impl Config {
    /// A configuration with no remote host.
    pub fn new() -> (r: Self)
        ensures
            r.remotes@.len() == 0,
    {
        Config { remotes: BTreeMap::new() }
    }
}

} // verus!
