//! Events that the global hotkey watcher and the console send to the event loop.

use vstd::prelude::*;

verus! {

#[derive(Clone, Copy, PartialEq, Eq, Debug, Structural)]
pub enum Trigger {
    /// Freeze the screen and open the selection overlay.
    Capture,
    /// Leave the program.
    Quit,
}

} // verus!
