//! Per-entity data: motion, gameplay state and the link into the physics world.
use vstd::prelude::*;

use crate::fixed::{in_range, Vector2};
use crate::physics::Handle;

verus! {

/// Velocity and the acceleration gathered during the current tick.
#[derive(Clone, Copy, Debug, PartialEq, Eq, Structural)]
pub struct Motion {
    pub velocity: Vector2,
    pub acceleration: Vector2,
}

impl Motion {
    pub open spec fn wf(self) -> bool {
        self.velocity.wf() && self.acceleration.wf()
    }
}

/// Objects without one are not affected by gravity sources.
#[derive(Clone, Copy, Debug, PartialEq, Eq, Structural)]
pub struct Mass {}

/// State of the player: contact with the ground, the jump request, and the
/// tangential run speed that grows by `run_acceleration` every tick.
#[derive(Clone, Copy, Debug, PartialEq, Eq, Structural)]
pub struct Player {
    pub on_ground: bool,
    pub jumping: bool,
    pub velocity: i64,
    pub run_acceleration: i64,
}

impl Player {
    pub open spec fn wf(self) -> bool {
        in_range(self.velocity as int) && in_range(self.run_acceleration as int)
    }
}

/// Handle of the entity's object in the physics world, which holds its pose.
#[derive(Clone, Copy, Debug, PartialEq, Eq, Structural)]
pub struct Collider {
    pub object_handle: Handle,
}

/// Marks an entity that is drawn with the player sprite.
#[derive(Clone, Copy, Debug, PartialEq, Eq, Structural)]
pub struct Sprite {}

/// Marks an obstacle standing on the planet.
#[derive(Clone, Copy, Debug, PartialEq, Eq, Structural)]
pub struct Obstacle {}

/// Gravity force; together with a Collider it makes the entity a source.
#[derive(Clone, Copy, Debug, PartialEq, Eq, Structural)]
pub struct Gravity {
    pub force: i64,
}

impl Gravity {
    pub open spec fn wf(self) -> bool {
        in_range(self.force as int)
    }
}

} // verus!
