//! Errors of the core.
use vstd::prelude::*;

use crate::physics::Handle;

verus! {

/// A failure that aborts the current operation.
#[derive(Clone, Copy, Debug, PartialEq, Eq, Structural)]
pub enum CoreError {
    /// The handle names no live object of the physics world: the link between
    /// colliders and physics objects was broken.
    StaleHandle { handle: Handle },
}

} // verus!
