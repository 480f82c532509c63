//! How far a workspace is open.

use vstd::prelude::*;

verus! {

/// Whether a workspace is open, and whether it has the focus.
#[derive(Debug, Clone, Copy, PartialEq, Eq, Structural)]
pub enum Stage {
    Closed,
    Open,
    Focused,
}

/// How far a workspace is open, and whether it can be seen.
#[derive(Debug, Clone, Copy, PartialEq, Eq, Structural)]
pub struct OpenState {
    pub stage: Stage,
    pub visible: bool,
}

impl OpenState {
    /// Whether the workspace can be seen.
    pub fn is_visible(self) -> (result: bool)
        ensures
            result == self.visible,
    {
        self.visible
    }
}

} // verus!
