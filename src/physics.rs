//! The physics world: the owner of every object's pose, shape and group,
//! keyed by handle. Slots are never reused, so a handle to a removed object
//! stays detectable as stale.
use vstd::prelude::*;

use crate::error::CoreError;
use crate::fixed::{Vector2, SCALE};

verus! {

/// Identifies an entity of the world.
#[derive(Clone, Copy, Debug, PartialEq, Eq, Structural)]
pub struct Entity {
    pub id: usize,
}

/// Identifies an object of the physics world.
#[derive(Clone, Copy, Debug, PartialEq, Eq, Structural)]
pub struct Handle {
    pub index: usize,
}

/// An orientation as the cosine and sine of its angle, in fixed point.
#[derive(Clone, Copy, Debug, PartialEq, Eq, Structural)]
pub struct Rotation {
    pub cos: i64,
    pub sin: i64,
}

impl Rotation {
    pub open spec fn wf(self) -> bool {
        -SCALE <= self.cos <= SCALE && -SCALE <= self.sin <= SCALE
    }

    /// The angle zero.
    pub fn identity() -> (r: Rotation)
        ensures
            r.cos == SCALE,
            r.sin == 0,
            r.wf(),
    {
        Rotation { cos: SCALE, sin: 0 }
    }
}

/// Position and orientation.
#[derive(Clone, Copy, Debug, PartialEq, Eq, Structural)]
pub struct Pose {
    pub translation: Vector2,
    pub rotation: Rotation,
}

impl Pose {
    pub open spec fn wf(self) -> bool {
        self.translation.wf() && self.rotation.wf()
    }
}

/// Collision shape, in fixed-point units.
#[derive(Clone, Copy, Debug, PartialEq, Eq, Structural)]
pub enum Shape {
    Ball { radius: i64 },
    Cuboid { half_width: i64, half_height: i64 },
}

/// Collision group of the terrain.
pub const GROUP_TERRAIN: u32 = 1;

/// Collision group of the player.
pub const GROUP_PLAYER: u32 = 2;

/// Collision group of obstacles.
pub const GROUP_OBSTACLE: u32 = 3;

/// An object of the physics world. It only reports contacts: no impulse is
/// ever computed for it. `owner` points back to the entity it belongs to.
#[derive(Clone, Copy, Debug, PartialEq, Eq, Structural)]
pub struct CollisionObject {
    pub pose: Pose,
    pub shape: Shape,
    pub group: u32,
    pub owner: Entity,
}

pub struct PhysicsWorld {
    objects: Vec<Option<CollisionObject>>,
}

impl View for PhysicsWorld {
    type V = Seq<Option<CollisionObject>>;

    closed spec fn view(&self) -> Seq<Option<CollisionObject>> {
        self.objects@
    }
}

/// `h` names a live object of `objects`.
pub open spec fn is_live(objects: Seq<Option<CollisionObject>>, h: Handle) -> bool {
    h.index < objects.len() && objects[h.index as int].is_some()
}

impl PhysicsWorld {
    pub fn new() -> (r: PhysicsWorld)
        ensures
            r@ == Seq::<Option<CollisionObject>>::empty(),
    {
        PhysicsWorld { objects: Vec::new() }
    }

    /// Number of slots, live or not.
    pub fn len(&self) -> (r: usize)
        ensures
            r == self@.len(),
    {
        self.objects.len()
    }

    /// Registers `obj`; its handle is the next slot.
    pub fn add(&mut self, obj: CollisionObject) -> (r: Handle)
        ensures
            r.index == old(self)@.len(),
            final(self)@ == old(self)@.push(Some(obj)),
    {
        let index = self.objects.len();
        self.objects.push(Some(obj));
        Handle { index }
    }

    /// The object that `h` names.
    pub fn collision_object(&self, h: Handle) -> (r: Result<CollisionObject, CoreError>)
        ensures
            is_live(self@, h) ==> r == Ok::<CollisionObject, CoreError>(self@[h.index as int].unwrap()),
            !is_live(self@, h) ==> r == Err::<CollisionObject, CoreError>(CoreError::StaleHandle { handle: h }),
    {
        if h.index < self.objects.len() {
            match self.objects[h.index] {
                Some(o) => Ok(o),
                None => Err(CoreError::StaleHandle { handle: h }),
            }
        } else {
            Err(CoreError::StaleHandle { handle: h })
        }
    }

    /// Moves the object that `h` names to `pose`.
    pub fn set_position(&mut self, h: Handle, pose: Pose) -> (r: Result<(), CoreError>)
        ensures
            is_live(old(self)@, h) ==> r is Ok && final(self)@ == old(self)@.update(
                h.index as int,
                Some(CollisionObject { pose, ..old(self)@[h.index as int].unwrap() }),
            ),
            !is_live(old(self)@, h) ==> r == Err::<(), CoreError>(CoreError::StaleHandle { handle: h })
                && final(self)@ == old(self)@,
    {
        if h.index < self.objects.len() {
            match self.objects[h.index] {
                Some(o) => {
                    self.objects.set(h.index, Some(CollisionObject { pose, ..o }));
                    Ok(())
                },
                None => Err(CoreError::StaleHandle { handle: h }),
            }
        } else {
            Err(CoreError::StaleHandle { handle: h })
        }
    }

    /// Removes the object that `h` names and hands it back.
    pub fn remove(&mut self, h: Handle) -> (r: Result<CollisionObject, CoreError>)
        ensures
            is_live(old(self)@, h) ==> r == Ok::<CollisionObject, CoreError>(old(self)@[h.index as int].unwrap())
                && final(self)@ == old(self)@.update(h.index as int, None),
            !is_live(old(self)@, h) ==> r == Err::<CollisionObject, CoreError>(CoreError::StaleHandle { handle: h })
                && final(self)@ == old(self)@,
    {
        if h.index < self.objects.len() {
            match self.objects[h.index] {
                Some(o) => {
                    self.objects.set(h.index, None);
                    Ok(o)
                },
                None => Err(CoreError::StaleHandle { handle: h }),
            }
        } else {
            Err(CoreError::StaleHandle { handle: h })
        }
    }
}

} // verus!
