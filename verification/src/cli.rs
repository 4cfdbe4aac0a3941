//! The command line of the daemon, as plain values.

use vstd::prelude::*;

verus! {

/// The flags that the daemon was started with.
#[derive(Clone, Copy, Debug, PartialEq, Eq, Structural)]
pub struct Cli {
    /// Initialize the service: apply the active profile and keep listening for changes.
    pub init: bool,
    /// Apply the active profile at once.
    pub force: bool,
    /// Reload states. It has no effect.
    pub reload: bool,
}

} // verus!
