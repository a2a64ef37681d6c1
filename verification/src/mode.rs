//! How much filesystem metadata an archive keeps.

use vstd::prelude::*;

verus! {

/// Metadata policy of an archive.
#[derive(Debug, PartialEq, Eq, Structural)]
pub enum Mode {
    /// Entries carry a fixed, synthetic attribute set, so that equal trees
    /// give equal archives whoever builds them and whenever.
    Minimal,
    /// Entries carry owner, permissions and modification time as found.
    Normal,
}

impl Default for Mode {
    fn default() -> (r: Mode)
        ensures
            r == Mode::Normal,
    {
        Mode::Normal
    }
}

} // verus!
