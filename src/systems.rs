//! The per-tick passes over all entities: gravity accumulation, kinematic
//! integration, and a report of every moving entity's state.
use vstd::prelude::*;

use crate::components::Motion;
use crate::fixed::{clamp, clamp_wide, sum_clamped, Vector2};
use crate::gravity::{total_gravity, total_gravity_at, GravitySource};
use crate::physics::{CollisionObject, Entity, Pose};
use crate::world::{EntityData, World, WorldView};

verus! {

/// Entity `d` pulls others: it has a collider and a gravity force.
pub open spec fn is_source(d: EntityData) -> bool {
    d.collider is Some && d.gravity is Some
}

/// Entity `d` is pulled by sources: it has motion, a collider and mass.
pub open spec fn is_affected(d: EntityData) -> bool {
    d.motion is Some && d.collider is Some && d.mass is Some
}

/// Entity `d` is moved by the integrator: it has a collider and motion.
pub open spec fn is_moving(d: EntityData) -> bool {
    d.collider is Some && d.motion is Some
}

pub open spec fn source_of(w: WorldView, i: int) -> GravitySource {
    GravitySource {
        position: w.object_of(i).pose.translation,
        force: w.entities[i].gravity.unwrap().force,
    }
}

/// The gravity sources among the first `n` entities, in entity order.
pub open spec fn sources_upto(w: WorldView, n: nat) -> Seq<GravitySource>
    decreases n,
{
    if n == 0 {
        Seq::empty()
    } else {
        let s = sources_upto(w, (n - 1) as nat);
        if is_source(w.entities[n - 1]) {
            s.push(source_of(w, n - 1))
        } else {
            s
        }
    }
}

/// All gravity sources of the world, in entity order.
pub open spec fn gravity_sources(w: WorldView) -> Seq<GravitySource> {
    sources_upto(w, w.entities.len())
}

/// Entity `i` after the gravity pass: an affected entity's acceleration grows
/// by the total pull of all sources at its position.
pub open spec fn accelerated(w: WorldView, i: int) -> EntityData {
    let d = w.entities[i];
    if is_affected(d) {
        let m = d.motion.unwrap();
        let g = total_gravity(gravity_sources(w), w.object_of(i).pose.translation);
        EntityData {
            motion: Some(
                Motion {
                    acceleration: Vector2 {
                        x: clamp(m.acceleration.x + g.0) as i64,
                        y: clamp(m.acceleration.y + g.1) as i64,
                    },
                    ..m
                },
            ),
            ..d
        }
    } else {
        d
    }
}

/// The world after the gravity pass. Poses are not touched.
pub open spec fn gravity_pass(w: WorldView) -> WorldView {
    WorldView { entities: Seq::new(w.entities.len(), |i: int| accelerated(w, i)), ..w }
}

/// Motion after integration: the acceleration is added to the velocity and
/// then cleared.
pub open spec fn integrated(m: Motion) -> Motion {
    Motion {
        velocity: sum_clamped(m.velocity, m.acceleration),
        acceleration: Vector2 { x: 0, y: 0 },
    }
}

pub open spec fn moved_entity(w: WorldView, i: int) -> EntityData {
    let d = w.entities[i];
    if is_moving(d) {
        EntityData { motion: Some(integrated(d.motion.unwrap())), ..d }
    } else {
        d
    }
}

/// Slot `j` after integration: the object of a moving entity is translated
/// by that entity's new velocity; its rotation is kept.
pub open spec fn moved_object(w: WorldView, j: int) -> Option<CollisionObject> {
    let s = w.objects[j];
    if s is Some && s.unwrap().owner.id < w.entities.len() && is_moving(
        w.entities[s.unwrap().owner.id as int],
    ) {
        let o = s.unwrap();
        let v = integrated(w.entities[o.owner.id as int].motion.unwrap()).velocity;
        Some(
            CollisionObject {
                pose: Pose { translation: sum_clamped(o.pose.translation, v), ..o.pose },
                ..o
            },
        )
    } else {
        s
    }
}

/// The world after the integration pass.
pub open spec fn integrate_pass(w: WorldView) -> WorldView {
    WorldView {
        entities: Seq::new(w.entities.len(), |i: int| moved_entity(w, i)),
        objects: Seq::new(w.objects.len(), |j: int| moved_object(w, j)),
        quit: w.quit,
    }
}

/// The gravity sources of the world, in entity order.
fn collect_sources(world: &World) -> (r: Vec<GravitySource>)
    requires
        world.wf(),
    ensures
        r@ == gravity_sources(world@),
        forall|i: int| 0 <= i < r@.len() ==> (#[trigger] r@[i]).wf(),
{
    let mut sources: Vec<GravitySource> = Vec::new();
    let n = world.entity_count();
    let mut i: usize = 0;
    while i < n
        invariant
            world.wf(),
            n == world@.entities.len(),
            i <= n,
            sources@ == sources_upto(world@, i as nat),
            forall|k: int| 0 <= k < sources@.len() ==> (#[trigger] sources@[k]).wf(),
        decreases n - i,
    {
        let d = world.entity(Entity { id: i }).unwrap();
        match (d.collider, d.gravity) {
            (Some(_), Some(g)) => {
                match world.pose_of(Entity { id: i }) {
                    Some(p) => {
                        proof {
                            assert(world@.entities[i as int].wf());
                            assert(world@.entity_linked(i as int));
                            let h = world@.entities[i as int].collider.unwrap().object_handle;
                            assert(world@.object_linked(h.index as int));
                        }
                        sources.push(GravitySource { position: p.translation, force: g.force });
                    },
                    None => {},
                }
            },
            _ => {},
        }
        i = i + 1;
    }
    sources
}

pub struct GravitySystem {}

impl GravitySystem {
    /// Adds to the acceleration of every entity with motion, collider and
    /// mass the pull of every gravity source (collider and gravity) at its
    /// position. A source at most 0.1 units away gives nothing.
    pub fn run(&mut self, world: &mut World)
        requires
            old(world).wf(),
        ensures
            final(world)@ == gravity_pass(old(world)@),
            final(world).wf(),
    {
        let sources = collect_sources(world);
        let n = world.entity_count();
        let mut i: usize = 0;
        while i < n
            invariant
                world.wf(),
                n == world@.entities.len(),
                n == old(world)@.entities.len(),
                i <= n,
                world@.objects == old(world)@.objects,
                world@.quit == old(world)@.quit,
                sources@ == gravity_sources(old(world)@),
                forall|k: int| 0 <= k < sources@.len() ==> (#[trigger] sources@[k]).wf(),
                forall|k: int| 0 <= k < i ==> world@.entities[k] == accelerated(old(world)@, k),
                forall|k: int| i <= k < n ==> world@.entities[k] == old(world)@.entities[k],
            decreases n - i,
        {
            let d = world.entity(Entity { id: i }).unwrap();
            match (d.motion, d.collider, d.mass) {
                (Some(m), Some(_), Some(_)) => {
                    match world.pose_of(Entity { id: i }) {
                        Some(p) => {
                            proof {
                                assert(world@.entities[i as int].wf());
                                assert(world@.entity_linked(i as int));
                                let h = world@.entities[i as int].collider.unwrap().object_handle;
                                assert(world@.object_linked(h.index as int));
                                assert(world@.object_of(i as int) == old(world)@.object_of(i as int));
                            }
                            let g = total_gravity_at(&sources, p.translation);
                            let acc = Vector2 {
                                x: clamp_wide(m.acceleration.x as i128 + g.0),
                                y: clamp_wide(m.acceleration.y as i128 + g.1),
                            };
                            world.set_motion(i, Motion { acceleration: acc, ..m });
                        },
                        None => {},
                    }
                },
                _ => {},
            }
            i = i + 1;
        }
        proof {
            assert(world@.entities =~= gravity_pass(old(world)@).entities);
        }
    }
}

pub struct NCollideMotionSystem {}

impl NCollideMotionSystem {
    /// For every entity with collider and motion: adds the acceleration to
    /// the velocity, clears the acceleration, then translates the entity's
    /// physics object by the new velocity.
    pub fn run(&mut self, world: &mut World)
        requires
            old(world).wf(),
        ensures
            final(world)@ == integrate_pass(old(world)@),
            final(world).wf(),
    {
        let n = world.entity_count();
        let mut i: usize = 0;
        while i < n
            invariant
                world.wf(),
                old(world).wf(),
                n == world@.entities.len(),
                n == old(world)@.entities.len(),
                i <= n,
                world@.objects.len() == old(world)@.objects.len(),
                world@.quit == old(world)@.quit,
                forall|k: int| 0 <= k < i ==> world@.entities[k] == moved_entity(old(world)@, k),
                forall|k: int| i <= k < n ==> world@.entities[k] == old(world)@.entities[k],
                forall|j: int|
                    0 <= j < world@.objects.len() ==> world@.objects[j] == if old(world)@.objects[j] is Some
                        && old(world)@.objects[j].unwrap().owner.id < i {
                        moved_object(old(world)@, j)
                    } else {
                        old(world)@.objects[j]
                    },
            decreases n - i,
        {
            let d = world.entity(Entity { id: i }).unwrap();
            match (d.collider, d.motion) {
                (Some(c), Some(m)) => {
                    proof {
                        assert(world@.entities[i as int].wf());
                        assert(old(world)@.entity_linked(i as int));
                        assert(world@.entity_linked(i as int));
                    }
                    let pose = world.pose_of(Entity { id: i });
                    let nm = Motion {
                        velocity: m.velocity.add_clamped(m.acceleration),
                        acceleration: Vector2::zero(),
                    };
                    world.set_motion(i, nm);
                    match pose {
                        Some(p) => {
                            proof {
                                let h = world@.entities[i as int].collider.unwrap().object_handle;
                                assert(world@.object_linked(h.index as int));
                            }
                            let np = Pose { translation: p.translation.add_clamped(nm.velocity), ..p };
                            world.set_pose(i, np);
                        },
                        None => {},
                    }
                    proof {
                        let h = c.object_handle.index as int;
                        assert forall|j: int| 0 <= j < world@.objects.len() implies world@.objects[j] == if old(world)@.objects[j] is Some
                            && old(world)@.objects[j].unwrap().owner.id < i + 1 {
                            moved_object(old(world)@, j)
                        } else {
                            old(world)@.objects[j]
                        } by {
                            if j != h && old(world)@.objects[j] is Some {
                                assert(old(world)@.object_linked(j));
                            }
                        }
                    }
                },
                _ => {
                    proof {
                        assert forall|j: int| 0 <= j < world@.objects.len() implies world@.objects[j] == if old(world)@.objects[j] is Some
                            && old(world)@.objects[j].unwrap().owner.id < i + 1 {
                            moved_object(old(world)@, j)
                        } else {
                            old(world)@.objects[j]
                        } by {
                            if old(world)@.objects[j] is Some {
                                assert(old(world)@.object_linked(j));
                            }
                        }
                    }
                },
            }
            i = i + 1;
        }
        proof {
            assert(world@.entities =~= integrate_pass(old(world)@).entities);
            assert forall|j: int| 0 <= j < world@.objects.len() implies world@.objects[j] == integrate_pass(old(world)@).objects[j] by {
                if old(world)@.objects[j] is Some {
                    assert(old(world)@.object_linked(j));
                }
            }
            assert(world@.objects =~= integrate_pass(old(world)@).objects);
        }
    }
}

/// The state of one moving entity, for diagnostics.
#[derive(Clone, Copy, Debug, PartialEq, Eq, Structural)]
pub struct DebugRecord {
    pub entity: Entity,
    pub pose: Pose,
    pub velocity: Vector2,
}

/// Records of the moving entities among the first `n`, in entity order.
pub open spec fn debug_records_upto(w: WorldView, n: nat) -> Seq<DebugRecord>
    decreases n,
{
    if n == 0 {
        Seq::empty()
    } else {
        let s = debug_records_upto(w, (n - 1) as nat);
        let d = w.entities[n - 1];
        if is_moving(d) {
            s.push(
                DebugRecord {
                    entity: Entity { id: (n - 1) as usize },
                    pose: w.object_of(n - 1).pose,
                    velocity: d.motion.unwrap().velocity,
                },
            )
        } else {
            s
        }
    }
}

pub struct DebugPrinterSystem {}

impl DebugPrinterSystem {
    /// The pose and velocity of every entity with motion and collider, in
    /// entity order, for a caller to print.
    pub fn run(&mut self, world: &World) -> (r: Vec<DebugRecord>)
        requires
            world.wf(),
        ensures
            r@ == debug_records_upto(world@, world@.entities.len()),
    {
        let mut records: Vec<DebugRecord> = Vec::new();
        let n = world.entity_count();
        let mut i: usize = 0;
        while i < n
            invariant
                world.wf(),
                n == world@.entities.len(),
                i <= n,
                records@ == debug_records_upto(world@, i as nat),
            decreases n - i,
        {
            let d = world.entity(Entity { id: i }).unwrap();
            match (d.collider, d.motion) {
                (Some(_), Some(m)) => {
                    proof {
                        assert(world@.entity_linked(i as int));
                    }
                    match world.pose_of(Entity { id: i }) {
                        Some(p) => {
                            records.push(DebugRecord { entity: Entity { id: i }, pose: p, velocity: m.velocity });
                        },
                        None => {},
                    }
                },
                _ => {},
            }
            i = i + 1;
        }
        records
    }
}

} // verus!
