//! The foundation for loading and managing transformation plugins.
use vstd::prelude::*;

verus! {

/// Keeps track of transformation plugins; none are defined yet.
pub struct PluginManager {}

impl PluginManager {
    /// Creates a new plugin manager
    pub fn new() -> (r: Self)
        ensures
            r == (PluginManager {}),
    {
        PluginManager {}
    }
}

impl Default for PluginManager {
    fn default() -> (r: Self)
        ensures
            r == (PluginManager {}),
    {
        Self::new()
    }
}

} // verus!
