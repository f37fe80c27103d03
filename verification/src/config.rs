//! What the caller can switch on or off.

use vstd::prelude::*;

verus! {

/// The options of a run.
#[derive(Debug, Clone, Copy, PartialEq, Eq, Structural)]
pub struct Config {
    /// Whether links to the web are fetched. When it is off, every such link
    /// counts as valid and nothing is asked of the network.
    pub follow_web_links: bool,
}

impl Default for Config {
    /// The default leaves the network alone.
    fn default() -> (cfg: Config)
        ensures
            cfg.follow_web_links == false,
    {
        Config { follow_web_links: false }
    }
}

} // verus!
