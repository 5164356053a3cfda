//! The world: the component store of every entity together with the physics
//! world that owns their poses, kept linked one to one through colliders.
use vstd::prelude::*;

use crate::components::{Collider, Gravity, Mass, Motion, Obstacle, Player, Sprite};
use crate::error::CoreError;
use crate::fixed::in_range;
use crate::physics::{is_live, CollisionObject, Entity, Handle, PhysicsWorld, Pose, Shape};

verus! {

/// The components of one entity. A destroyed entity keeps its slot, with
/// `alive` false and no component.
#[derive(Clone, Copy, Debug, PartialEq, Eq, Structural)]
pub struct EntityData {
    pub alive: bool,
    pub motion: Option<Motion>,
    pub mass: Option<Mass>,
    pub player: Option<Player>,
    pub gravity: Option<Gravity>,
    pub collider: Option<Collider>,
    pub sprite: Option<Sprite>,
    pub obstacle: Option<Obstacle>,
}

pub open spec fn vacant() -> EntityData {
    EntityData {
        alive: false,
        motion: None,
        mass: None,
        player: None,
        gravity: None,
        collider: None,
        sprite: None,
        obstacle: None,
    }
}

impl EntityData {
    pub open spec fn wf(self) -> bool {
        &&& (self.motion is Some ==> self.motion.unwrap().wf())
        &&& (self.player is Some ==> self.player.unwrap().wf())
        &&& (self.gravity is Some ==> self.gravity.unwrap().wf())
        &&& (!self.alive ==> self == vacant())
    }

    /// A live entity without components.
    pub fn new() -> (r: EntityData)
        ensures
            r == (EntityData { alive: true, ..vacant() }),
            r.wf(),
    {
        EntityData {
            alive: true,
            motion: None,
            mass: None,
            player: None,
            gravity: None,
            collider: None,
            sprite: None,
            obstacle: None,
        }
    }
}

/// What a world holds: every entity's components, and every physics slot.
pub struct WorldView {
    pub entities: Seq<EntityData>,
    pub objects: Seq<Option<CollisionObject>>,
    /// The game should end.
    pub quit: bool,
}

impl WorldView {
    /// The handle of entity `i`'s collider names a live object that points
    /// back to `i`.
    pub open spec fn entity_linked(self, i: int) -> bool {
        let h = self.entities[i].collider.unwrap().object_handle;
        is_live(self.objects, h) && self.objects[h.index as int].unwrap().owner.id == i
    }

    /// The live object in slot `j` points to an entity whose collider names `j`.
    pub open spec fn object_linked(self, j: int) -> bool {
        let o = self.objects[j].unwrap();
        &&& o.owner.id < self.entities.len()
        &&& self.entities[o.owner.id as int].collider is Some
        &&& self.entities[o.owner.id as int].collider.unwrap().object_handle.index == j
        &&& o.pose.wf()
    }

    pub open spec fn wf(self) -> bool {
        &&& forall|i: int| 0 <= i < self.entities.len() ==> (#[trigger] self.entities[i]).wf()
        &&& forall|i: int|
            0 <= i < self.entities.len() && (#[trigger] self.entities[i]).collider is Some
                ==> self.entity_linked(i)
        &&& forall|j: int|
            0 <= j < self.objects.len() && (#[trigger] self.objects[j]) is Some
                ==> self.object_linked(j)
    }

    /// The object that entity `i`'s collider names.
    pub open spec fn object_of(self, i: int) -> CollisionObject {
        self.objects[self.entities[i].collider.unwrap().object_handle.index as int].unwrap()
    }

    /// Entity `i` with its motion replaced by `m`.
    pub open spec fn with_motion(self, i: int, m: Motion) -> WorldView {
        WorldView {
            entities: self.entities.update(i, EntityData { motion: Some(m), ..self.entities[i] }),
            objects: self.objects,
            quit: self.quit,
        }
    }

    /// Entity `i` with its player state replaced by `p`.
    pub open spec fn with_player(self, i: int, p: Player) -> WorldView {
        WorldView {
            entities: self.entities.update(i, EntityData { player: Some(p), ..self.entities[i] }),
            objects: self.objects,
            quit: self.quit,
        }
    }

    /// The object of entity `i` moved to `pose`.
    pub open spec fn with_pose(self, i: int, pose: Pose) -> WorldView {
        let h = self.entities[i].collider.unwrap().object_handle;
        WorldView {
            entities: self.entities,
            objects: self.objects.update(
                h.index as int,
                Some(CollisionObject { pose, ..self.objects[h.index as int].unwrap() }),
            ),
            quit: self.quit,
        }
    }
}

/// Every entity with a collider is the owner of exactly one live physics
/// object, the one its handle names; and every live object belongs to an
/// entity whose collider names it.
pub proof fn collider_bijection(w: WorldView, i: int)
    requires
        w.wf(),
        0 <= i < w.entities.len(),
        w.entities[i].collider is Some,
    ensures
        is_live(w.objects, w.entities[i].collider.unwrap().object_handle),
        w.object_of(i).owner.id == i,
        forall|j: int|
            0 <= j < w.objects.len() && (#[trigger] w.objects[j]) is Some && w.objects[j].unwrap().owner.id
                == i ==> j == w.entities[i].collider.unwrap().object_handle.index,
{
    assert(w.entity_linked(i));
    assert forall|j: int|
        0 <= j < w.objects.len() && (#[trigger] w.objects[j]) is Some && w.objects[j].unwrap().owner.id
            == i implies j == w.entities[i].collider.unwrap().object_handle.index by {
        assert(w.object_linked(j));
    }
}

/// `w` with one more entity, made of `bundle` and a collider that names a
/// new object with the given pose, shape and group.
pub open spec fn spawned(w: WorldView, bundle: EntityData, pose: Pose, shape: Shape, group: u32) -> WorldView {
    WorldView {
        entities: w.entities.push(
            EntityData {
                collider: Some(Collider { object_handle: Handle { index: w.objects.len() as usize } }),
                ..bundle
            },
        ),
        objects: w.objects.push(
            Some(
                CollisionObject { pose, shape, group, owner: Entity { id: w.entities.len() as usize } },
            ),
        ),
        quit: w.quit,
    }
}

pub struct World {
    entities: Vec<EntityData>,
    physics: PhysicsWorld,
    quit: bool,
}

impl View for World {
    type V = WorldView;

    closed spec fn view(&self) -> WorldView {
        WorldView { entities: self.entities@, objects: self.physics@, quit: self.quit }
    }
}

impl World {
    pub open spec fn wf(&self) -> bool {
        self@.wf()
    }

    pub fn new() -> (r: World)
        ensures
            r@.entities.len() == 0,
            r@.objects.len() == 0,
            r.wf(),
            !r@.quit,
    {
        World { entities: Vec::new(), physics: PhysicsWorld::new(), quit: false }
    }

    /// The game should end.
    pub fn quit(&self) -> (r: bool)
        ensures
            r == self@.quit,
    {
        self.quit
    }

    pub fn set_quit(&mut self, quit: bool)
        requires
            old(self).wf(),
        ensures
            final(self)@ == (WorldView { quit, ..old(self)@ }),
            final(self).wf(),
    {
        self.quit = quit;
    }

    pub fn entity_count(&self) -> (r: usize)
        ensures
            r == self@.entities.len(),
    {
        self.entities.len()
    }

    /// Number of physics slots, live or not; handles index them.
    pub fn object_count(&self) -> (r: usize)
        ensures
            r == self@.objects.len(),
    {
        self.physics.len()
    }

    /// The components of entity `e`, if it was ever created.
    pub fn entity(&self, e: Entity) -> (r: Option<EntityData>)
        ensures
            e.id < self@.entities.len() ==> r == Some(self@.entities[e.id as int]),
            e.id >= self@.entities.len() ==> r is None,
    {
        if e.id < self.entities.len() {
            Some(self.entities[e.id])
        } else {
            None
        }
    }

    /// The object that `h` names.
    pub fn collision_object(&self, h: Handle) -> (r: Result<CollisionObject, CoreError>)
        ensures
            is_live(self@.objects, h) ==> r == Ok::<CollisionObject, CoreError>(
                self@.objects[h.index as int].unwrap(),
            ),
            !is_live(self@.objects, h) ==> r == Err::<CollisionObject, CoreError>(
                CoreError::StaleHandle { handle: h },
            ),
    {
        self.physics.collision_object(h)
    }

    /// Pose of entity `e`, read from the physics world; `None` where it has no
    /// collider.
    pub fn pose_of(&self, e: Entity) -> (r: Option<Pose>)
        requires
            self.wf(),
        ensures
            e.id < self@.entities.len() && self@.entities[e.id as int].collider is Some ==> r == Some(
                self@.object_of(e.id as int).pose,
            ),
            !(e.id < self@.entities.len() && self@.entities[e.id as int].collider is Some) ==> r is None,
    {
        if e.id < self.entities.len() {
            match self.entities[e.id].collider {
                Some(c) => {
                    proof {
                        assert(self@.entity_linked(e.id as int));
                    }
                    match self.physics.collision_object(c.object_handle) {
                        Ok(o) => Some(o.pose),
                        Err(_) => None,
                    }
                },
                None => None,
            }
        } else {
            None
        }
    }

    /// Replaces the motion of entity `i`.
    pub fn set_motion(&mut self, i: usize, m: Motion)
        requires
            old(self).wf(),
            i < old(self)@.entities.len(),
            old(self)@.entities[i as int].motion is Some,
            m.wf(),
        ensures
            final(self)@ == old(self)@.with_motion(i as int, m),
            final(self).wf(),
    {
        let d = self.entities[i];
        self.entities.set(i, EntityData { motion: Some(m), ..d });
        proof {
            let w = self@;
            assert forall|k: int| 0 <= k < w.entities.len() && (#[trigger] w.entities[k]).collider is Some
                implies w.entity_linked(k) by {
                assert(old(self)@.entity_linked(k));
            }
            assert forall|j: int| 0 <= j < w.objects.len() && (#[trigger] w.objects[j]) is Some
                implies w.object_linked(j) by {
                assert(old(self)@.object_linked(j));
            }
        }
    }

    /// Replaces the player state of entity `i`.
    pub fn set_player(&mut self, i: usize, p: Player)
        requires
            old(self).wf(),
            i < old(self)@.entities.len(),
            old(self)@.entities[i as int].player is Some,
            p.wf(),
        ensures
            final(self)@ == old(self)@.with_player(i as int, p),
            final(self).wf(),
    {
        let d = self.entities[i];
        self.entities.set(i, EntityData { player: Some(p), ..d });
        proof {
            let w = self@;
            assert forall|k: int| 0 <= k < w.entities.len() && (#[trigger] w.entities[k]).collider is Some
                implies w.entity_linked(k) by {
                assert(old(self)@.entity_linked(k));
            }
            assert forall|j: int| 0 <= j < w.objects.len() && (#[trigger] w.objects[j]) is Some
                implies w.object_linked(j) by {
                assert(old(self)@.object_linked(j));
            }
        }
    }

    /// Moves the physics object of entity `i`, which has a collider, to `pose`.
    pub fn set_pose(&mut self, i: usize, pose: Pose)
        requires
            old(self).wf(),
            i < old(self)@.entities.len(),
            old(self)@.entities[i as int].collider is Some,
            pose.wf(),
        ensures
            final(self)@ == old(self)@.with_pose(i as int, pose),
            final(self).wf(),
    {
        let c = self.entities[i].collider.unwrap();
        proof {
            assert(old(self)@.entity_linked(i as int));
        }
        let _ = self.physics.set_position(c.object_handle, pose);
        proof {
            let w = self@;
            let hi = c.object_handle.index as int;
            assert forall|k: int| 0 <= k < w.entities.len() && (#[trigger] w.entities[k]).collider is Some
                implies w.entity_linked(k) by {
                assert(old(self)@.entity_linked(k));
            }
            assert forall|j: int| 0 <= j < w.objects.len() && (#[trigger] w.objects[j]) is Some
                implies w.object_linked(j) by {
                assert(old(self)@.object_linked(j));
            }
        }
    }

    /// Creates an entity with the components of `bundle` and, in the same
    /// step, its physics object with the given pose, shape and group; the
    /// entity's collider names that object.
    pub fn spawn(&mut self, bundle: EntityData, pose: Pose, shape: Shape, group: u32) -> (r: Entity)
        requires
            old(self).wf(),
            bundle.wf(),
            bundle.alive,
            bundle.collider is None,
            pose.wf(),
        ensures
            r.id == old(self)@.entities.len(),
            final(self)@ == spawned(old(self)@, bundle, pose, shape, group),
            final(self).wf(),
    {
        let e = Entity { id: self.entities.len() };
        let h = self.physics.add(CollisionObject { pose, shape, group, owner: e });
        self.entities.push(EntityData { collider: Some(Collider { object_handle: h }), ..bundle });
        proof {
            let w = self@;
            let o = old(self)@;
            assert forall|k: int| 0 <= k < w.entities.len() && (#[trigger] w.entities[k]).collider is Some
                implies w.entity_linked(k) by {
                if k < o.entities.len() {
                    assert(o.entities[k] == w.entities[k]);
                    assert(o.entity_linked(k));
                }
            }
            assert forall|j: int| 0 <= j < w.objects.len() && (#[trigger] w.objects[j]) is Some
                implies w.object_linked(j) by {
                if j < o.objects.len() {
                    assert(o.objects[j] == w.objects[j]);
                    assert(o.object_linked(j));
                }
            }
        }
        e
    }

    /// Destroys entity `e`: its physics object is removed and its slot is
    /// left vacant. Returns false, changing nothing, where `e` is not a live
    /// entity.
    pub fn destroy(&mut self, e: Entity) -> (r: bool)
        requires
            old(self).wf(),
        ensures
            r == (e.id < old(self)@.entities.len() && old(self)@.entities[e.id as int].alive),
            !r ==> final(self)@ == old(self)@,
            r && old(self)@.entities[e.id as int].collider is Some ==> final(self)@ == (WorldView {
                entities: old(self)@.entities.update(e.id as int, vacant()),
                objects: old(self)@.objects.update(
                    old(self)@.entities[e.id as int].collider.unwrap().object_handle.index as int,
                    None,
                ),
                quit: old(self)@.quit,
            }),
            r && old(self)@.entities[e.id as int].collider is None ==> final(self)@ == (WorldView {
                entities: old(self)@.entities.update(e.id as int, vacant()),
                ..old(self)@
            }),
            final(self).wf(),
    {
        if e.id >= self.entities.len() || !self.entities[e.id].alive {
            return false;
        }
        match self.entities[e.id].collider {
            Some(c) => {
                proof {
                    assert(old(self)@.entity_linked(e.id as int));
                }
                let _ = self.physics.remove(c.object_handle);
            },
            None => {},
        }
        self.entities.set(
            e.id,
            EntityData {
                alive: false,
                motion: None,
                mass: None,
                player: None,
                gravity: None,
                collider: None,
                sprite: None,
                obstacle: None,
            },
        );
        proof {
            let w = self@;
            let o = old(self)@;
            assert forall|k: int| 0 <= k < w.entities.len() && (#[trigger] w.entities[k]).collider is Some
                implies w.entity_linked(k) by {
                assert(o.entity_linked(k));
                if o.entities[e.id as int].collider is Some {
                    let hk = o.entities[k].collider.unwrap().object_handle.index as int;
                    let he = o.entities[e.id as int].collider.unwrap().object_handle.index as int;
                    assert(hk != he);
                }
            }
            assert forall|j: int| 0 <= j < w.objects.len() && (#[trigger] w.objects[j]) is Some
                implies w.object_linked(j) by {
                assert(o.object_linked(j));
                if o.entities[e.id as int].collider is None {
                    assert(o.objects[j].unwrap().owner.id != e.id);
                }
            }
        }
        true
    }

    /// Sets the jump request of entity `e`'s player state. Returns false,
    /// changing nothing, where `e` has none.
    pub fn set_jumping(&mut self, e: Entity, jumping: bool) -> (r: bool)
        requires
            old(self).wf(),
        ensures
            r == (e.id < old(self)@.entities.len() && old(self)@.entities[e.id as int].player is Some),
            r ==> final(self)@ == old(self)@.with_player(
                e.id as int,
                Player { jumping, ..old(self)@.entities[e.id as int].player.unwrap() },
            ),
            !r ==> final(self)@ == old(self)@,
            final(self).wf(),
    {
        if e.id >= self.entities.len() {
            return false;
        }
        match self.entities[e.id].player {
            Some(p) => {
                self.set_player(e.id, Player { jumping, ..p });
                true
            },
            None => false,
        }
    }

    /// Sets the tangential run speed of entity `e`'s player state. Returns
    /// false, changing nothing, where `e` has none.
    pub fn set_run_speed(&mut self, e: Entity, speed: i64) -> (r: bool)
        requires
            old(self).wf(),
            in_range(speed as int),
        ensures
            r == (e.id < old(self)@.entities.len() && old(self)@.entities[e.id as int].player is Some),
            r ==> final(self)@ == old(self)@.with_player(
                e.id as int,
                Player { velocity: speed, ..old(self)@.entities[e.id as int].player.unwrap() },
            ),
            !r ==> final(self)@ == old(self)@,
            final(self).wf(),
    {
        if e.id >= self.entities.len() {
            return false;
        }
        match self.entities[e.id].player {
            Some(p) => {
                proof {
                    assert(old(self)@.entities[e.id as int].wf());
                }
                self.set_player(e.id, Player { velocity: speed, ..p });
                true
            },
            None => false,
        }
    }
}

} // verus!
