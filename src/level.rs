//! The level: a planet, the player running on it, and obstacles; and the
//! order of the passes in one tick.
use vstd::prelude::*;

use crate::components::{Gravity, Mass, Motion, Obstacle, Player};
use crate::contact::{apply_reports, resolve_contacts, ContactReport};
use crate::error::CoreError;
use crate::fixed::{div_trunc, div_trunc_wide, Vector2, LIMIT, SCALE};
use crate::locomotion::{locomotion_step, stepped_motion, stepped_player, stepped_pose};
use crate::physics::{Entity, Pose, Rotation, Shape, GROUP_OBSTACLE, GROUP_PLAYER, GROUP_TERRAIN};
use crate::gravity::{contribution, total_gravity};
use crate::systems::{
    gravity_pass, integrate_pass, is_source, source_of, sources_upto, GravitySystem, NCollideMotionSystem,
};
use crate::world::{spawned, vacant, EntityData, World, WorldView};

verus! {

/// Radius of the planet: 2000 units.
pub const PLANET_RADIUS: i64 = 2000 * SCALE;

/// Gravity force of the planet: 200 units.
pub const PLANET_GRAVITY: i64 = 200 * SCALE;

pub const PLAYER_HALF_WIDTH: i64 = 10 * SCALE;

pub const PLAYER_HALF_HEIGHT: i64 = 20 * SCALE;

/// Run acceleration of the player: 0.01 units per tick, rounded down.
pub const PLAYER_RUN_ACCELERATION: i64 = 167772;

/// Initial tangential speed of the player: 1.5 units per tick.
pub const PLAYER_START_SPEED: i64 = 25165824;

pub const OBSTACLE_HALF_WIDTH: i64 = 10 * SCALE;

pub open spec fn at_rest() -> Rotation {
    Rotation { cos: SCALE, sin: 0 }
}

pub open spec fn planet_bundle() -> EntityData {
    EntityData { alive: true, gravity: Some(Gravity { force: PLANET_GRAVITY }), ..vacant() }
}

pub open spec fn planet_pose() -> Pose {
    Pose { translation: Vector2 { x: 0, y: 0 }, rotation: at_rest() }
}

pub open spec fn player_bundle() -> EntityData {
    EntityData {
        alive: true,
        player: Some(
            Player { on_ground: false, jumping: false, velocity: 0, run_acceleration: PLAYER_RUN_ACCELERATION },
        ),
        motion: Some(
            Motion {
                velocity: Vector2 { x: PLAYER_START_SPEED, y: 0 },
                acceleration: Vector2 { x: 0, y: 0 },
            },
        ),
        mass: Some(Mass {}),
        ..vacant()
    }
}

/// The player starts above the planet's top, three half heights clear of it.
pub open spec fn player_pose(planet_radius: int) -> Pose {
    Pose {
        translation: Vector2 { x: 0, y: -(planet_radius + 3 * PLAYER_HALF_HEIGHT) as i64 },
        rotation: at_rest(),
    }
}

pub open spec fn obstacle_bundle() -> EntityData {
    EntityData { alive: true, obstacle: Some(Obstacle {}), ..vacant() }
}

/// An obstacle stands on the surface in `direction`, turned that way.
pub open spec fn obstacle_pose(planet_radius: int, direction: Rotation) -> Pose {
    let d = planet_radius + OBSTACLE_HALF_WIDTH;
    Pose {
        translation: Vector2 {
            x: div_trunc(direction.cos * d, SCALE as int) as i64,
            y: div_trunc(direction.sin * d, SCALE as int) as i64,
        },
        rotation: direction,
    }
}

pub open spec fn with_obstacles(w: WorldView, planet_radius: int, directions: Seq<Rotation>) -> WorldView
    decreases directions.len(),
{
    if directions.len() == 0 {
        w
    } else {
        spawned(
            with_obstacles(w, planet_radius, directions.drop_last()),
            obstacle_bundle(),
            obstacle_pose(planet_radius, directions.last()),
            Shape::Cuboid { half_width: OBSTACLE_HALF_WIDTH, half_height: OBSTACLE_HALF_WIDTH },
            GROUP_OBSTACLE,
        )
    }
}

/// Position of the ground body, where it has a collider.
pub open spec fn ground_of(w: WorldView, planet: Entity) -> Option<Vector2> {
    if planet.id < w.entities.len() && w.entities[planet.id as int].collider is Some {
        Some(w.object_of(planet.id as int).pose.translation)
    } else {
        None
    }
}

/// Entity `e` has what a locomotion step needs: player state, motion, collider.
pub open spec fn can_step(w: WorldView, e: Entity) -> bool {
    e.id < w.entities.len() && w.entities[e.id as int].player is Some && w.entities[e.id as int].motion is Some
        && w.entities[e.id as int].collider is Some
}

/// The world after the locomotion step of `player` on `planet`.
pub open spec fn locomotion_pass(w: WorldView, player: Entity, planet: Entity) -> WorldView {
    if can_step(w, player) {
        let i = player.id as int;
        let d = w.entities[i];
        let pose = w.object_of(i).pose;
        let g = ground_of(w, planet);
        let p = d.player.unwrap();
        let m = d.motion.unwrap();
        w.with_player(i, stepped_player(p, pose, g)).with_motion(i, stepped_motion(p, m, pose, g)).with_pose(
            i,
            stepped_pose(p, m, pose, g),
        )
    } else {
        w
    }
}

/// Where the camera looks after the locomotion step: the player's new position.
pub open spec fn focus_after(w: WorldView, player: Entity, planet: Entity, focus: Vector2) -> Vector2 {
    if can_step(w, player) {
        let i = player.id as int;
        let d = w.entities[i];
        stepped_pose(
            d.player.unwrap(),
            d.motion.unwrap(),
            w.object_of(i).pose,
            ground_of(w, planet),
        ).translation
    } else {
        focus
    }
}

/// One tick's passes before the contact refresh: locomotion, gravity, integration.
pub open spec fn tick(w: WorldView, player: Entity, planet: Entity) -> WorldView {
    integrate_pass(gravity_pass(locomotion_pass(w, player, planet)))
}

pub struct LevelScene {
    pub done: bool,
    pub player_entity: Entity,
    pub planet_entity: Entity,
    pub camera_focus: Vector2,
}

impl LevelScene {
    /// Creates the planet: a gravity source with a ball collider at the origin.
    pub fn create_planet(world: &mut World, planet_radius: i64) -> (r: Entity)
        requires
            old(world).wf(),
        ensures
            r.id == old(world)@.entities.len(),
            final(world)@ == spawned(
                old(world)@,
                planet_bundle(),
                planet_pose(),
                Shape::Ball { radius: planet_radius },
                GROUP_TERRAIN,
            ),
            final(world).wf(),
    {
        let bundle = EntityData { gravity: Some(Gravity { force: PLANET_GRAVITY }), ..EntityData::new() };
        let pose = Pose { translation: Vector2::zero(), rotation: Rotation::identity() };
        world.spawn(bundle, pose, Shape::Ball { radius: planet_radius }, GROUP_TERRAIN)
    }

    /// Creates the player above the planet's top.
    pub fn create_player(world: &mut World, planet_radius: i64) -> (r: Entity)
        requires
            old(world).wf(),
            0 <= planet_radius <= LIMIT - 3 * PLAYER_HALF_HEIGHT,
        ensures
            r.id == old(world)@.entities.len(),
            final(world)@ == spawned(
                old(world)@,
                player_bundle(),
                player_pose(planet_radius as int),
                Shape::Cuboid { half_width: PLAYER_HALF_WIDTH, half_height: PLAYER_HALF_HEIGHT },
                GROUP_PLAYER,
            ),
            final(world).wf(),
    {
        let bundle = EntityData {
            player: Some(
                Player {
                    on_ground: false,
                    jumping: false,
                    velocity: 0,
                    run_acceleration: PLAYER_RUN_ACCELERATION,
                },
            ),
            motion: Some(
                Motion { velocity: Vector2::new(PLAYER_START_SPEED, 0), acceleration: Vector2::zero() },
            ),
            mass: Some(Mass {}),
            ..EntityData::new()
        };
        let pose = Pose {
            translation: Vector2::new(0, -(planet_radius + 3 * PLAYER_HALF_HEIGHT)),
            rotation: Rotation::identity(),
        };
        world.spawn(
            bundle,
            pose,
            Shape::Cuboid { half_width: PLAYER_HALF_WIDTH, half_height: PLAYER_HALF_HEIGHT },
            GROUP_PLAYER,
        )
    }

    /// Creates an obstacle standing on the planet in `direction`.
    pub fn create_obstacle(world: &mut World, planet_radius: i64, direction: Rotation) -> (r: Entity)
        requires
            old(world).wf(),
            0 <= planet_radius <= LIMIT - OBSTACLE_HALF_WIDTH,
            direction.wf(),
        ensures
            r.id == old(world)@.entities.len(),
            final(world)@ == spawned(
                old(world)@,
                obstacle_bundle(),
                obstacle_pose(planet_radius as int, direction),
                Shape::Cuboid { half_width: OBSTACLE_HALF_WIDTH, half_height: OBSTACLE_HALF_WIDTH },
                GROUP_OBSTACLE,
            ),
            final(world).wf(),
    {
        let d = planet_radius + OBSTACLE_HALF_WIDTH;
        proof {
            assert(-SCALE * d <= direction.cos * d <= SCALE * d) by (nonlinear_arith)
                requires -SCALE <= direction.cos <= SCALE, d >= 0;
            assert(-SCALE * d <= direction.sin * d <= SCALE * d) by (nonlinear_arith)
                requires -SCALE <= direction.sin <= SCALE, d >= 0;
            assert(SCALE * d <= SCALE * LIMIT) by (nonlinear_arith)
                requires d <= LIMIT;
            assert((SCALE * d) / (SCALE as int) == d) by (nonlinear_arith);
            assert(direction.cos * d >= 0 ==> (direction.cos * d) / (SCALE as int) <= d) by (nonlinear_arith)
                requires direction.cos * d <= SCALE * d, d >= 0;
            assert(direction.cos * d < 0 ==> (-(direction.cos * d)) / (SCALE as int) <= d) by (nonlinear_arith)
                requires -(direction.cos * d) <= SCALE * d, d >= 0;
            assert(direction.sin * d >= 0 ==> (direction.sin * d) / (SCALE as int) <= d) by (nonlinear_arith)
                requires direction.sin * d <= SCALE * d, d >= 0;
            assert(direction.sin * d < 0 ==> (-(direction.sin * d)) / (SCALE as int) <= d) by (nonlinear_arith)
                requires -(direction.sin * d) <= SCALE * d, d >= 0;
        }
        let x = div_trunc_wide(direction.cos as i128 * d as i128, SCALE as i128);
        let y = div_trunc_wide(direction.sin as i128 * d as i128, SCALE as i128);
        let bundle = EntityData { obstacle: Some(Obstacle {}), ..EntityData::new() };
        let pose = Pose { translation: Vector2::new(x as i64, y as i64), rotation: direction };
        world.spawn(
            bundle,
            pose,
            Shape::Cuboid { half_width: OBSTACLE_HALF_WIDTH, half_height: OBSTACLE_HALF_WIDTH },
            GROUP_OBSTACLE,
        )
    }

    /// Builds the level in `world`: the planet, then the player, then one
    /// obstacle for each of `obstacle_directions`, in order.
    pub fn new(world: &mut World, obstacle_directions: &Vec<Rotation>) -> (r: LevelScene)
        requires
            old(world).wf(),
            forall|i: int| 0 <= i < obstacle_directions@.len() ==> (#[trigger] obstacle_directions@[i]).wf(),
        ensures
            r.planet_entity.id == old(world)@.entities.len(),
            r.player_entity.id == old(world)@.entities.len() + 1,
            !r.done,
            r.camera_focus == (Vector2 { x: 0, y: 0 }),
            final(world)@ == with_obstacles(
                spawned(
                    spawned(
                        old(world)@,
                        planet_bundle(),
                        planet_pose(),
                        Shape::Ball { radius: PLANET_RADIUS },
                        GROUP_TERRAIN,
                    ),
                    player_bundle(),
                    player_pose(PLANET_RADIUS as int),
                    Shape::Cuboid { half_width: PLAYER_HALF_WIDTH, half_height: PLAYER_HALF_HEIGHT },
                    GROUP_PLAYER,
                ),
                PLANET_RADIUS as int,
                obstacle_directions@,
            ),
            final(world).wf(),
    {
        let planet_entity = Self::create_planet(world, PLANET_RADIUS);
        let player_entity = Self::create_player(world, PLANET_RADIUS);
        let ghost base = world@;
        let n = obstacle_directions.len();
        let mut i: usize = 0;
        while i < n
            invariant
                n == obstacle_directions@.len(),
                i <= n,
                forall|k: int| 0 <= k < n ==> (#[trigger] obstacle_directions@[k]).wf(),
                world.wf(),
                world@ == with_obstacles(base, PLANET_RADIUS as int, obstacle_directions@.take(i as int)),
            decreases n - i,
        {
            proof {
                let next = obstacle_directions@.take(i + 1);
                assert(next.drop_last() =~= obstacle_directions@.take(i as int));
                assert(next.last() == obstacle_directions@[i as int]);
            }
            let _ = Self::create_obstacle(world, PLANET_RADIUS, obstacle_directions[i]);
            i = i + 1;
        }
        proof {
            assert(obstacle_directions@.take(n as int) =~= obstacle_directions@);
        }
        LevelScene { done: false, player_entity, planet_entity, camera_focus: Vector2::zero() }
    }

    /// The player's locomotion step: reads the player's pose and the ground
    /// body's position, writes back the player's state, motion and pose, and
    /// points the camera at the player. Does nothing where the player entity
    /// lacks player state, motion or collider.
    pub fn run_player_motion(&mut self, world: &mut World)
        requires
            old(world).wf(),
        ensures
            final(world)@ == locomotion_pass(old(world)@, old(self).player_entity, old(self).planet_entity),
            final(self).camera_focus == focus_after(
                old(world)@,
                old(self).player_entity,
                old(self).planet_entity,
                old(self).camera_focus,
            ),
            final(self).player_entity == old(self).player_entity,
            final(self).planet_entity == old(self).planet_entity,
            final(self).done == old(self).done,
            final(world).wf(),
    {
        let pe = self.player_entity;
        let d = match world.entity(pe) {
            Some(d) => d,
            None => return ,
        };
        match (d.player, d.motion, d.collider) {
            (Some(p), Some(m), Some(_)) => {
                proof {
                    let w = world@;
                    assert(w.entities[pe.id as int].wf());
                    assert(w.entity_linked(pe.id as int));
                    assert(w.object_linked(w.entities[pe.id as int].collider.unwrap().object_handle.index as int));
                    let pl = self.planet_entity.id as int;
                    if pl < w.entities.len() && w.entities[pl].collider is Some {
                        assert(w.entity_linked(pl));
                        assert(w.object_linked(w.entities[pl].collider.unwrap().object_handle.index as int));
                    }
                }
                let pose = match world.pose_of(pe) {
                    Some(pose) => pose,
                    None => return ,
                };
                let ground = match world.pose_of(self.planet_entity) {
                    Some(gp) => Some(gp.translation),
                    None => None,
                };
                let (np, nm, npose) = locomotion_step(p, m, pose, ground);
                world.set_player(pe.id, np);
                world.set_motion(pe.id, nm);
                world.set_pose(pe.id, npose);
                self.camera_focus = npose.translation;
            },
            _ => {},
        }
    }

    /// One tick up to the contact refresh: the player's locomotion, then
    /// gravity, then integration.
    pub fn advance(&mut self, world: &mut World)
        requires
            old(world).wf(),
        ensures
            final(world)@ == tick(old(world)@, old(self).player_entity, old(self).planet_entity),
            final(self).camera_focus == focus_after(
                old(world)@,
                old(self).player_entity,
                old(self).planet_entity,
                old(self).camera_focus,
            ),
            final(self).player_entity == old(self).player_entity,
            final(self).planet_entity == old(self).planet_entity,
            final(self).done == old(self).done,
            final(world).wf(),
    {
        self.run_player_motion(world);
        let mut gravity = GravitySystem {};
        gravity.run(world);
        let mut motion = NCollideMotionSystem {};
        motion.run(world);
    }

    /// Resolves the contact reports of this tick's refresh, in order; see
    /// `resolve_contacts`.
    pub fn handle_contact_events(&mut self, world: &mut World, reports: &Vec<ContactReport>) -> (r: Result<(), CoreError>)
        requires
            old(world).wf(),
        ensures
            r is Ok <==> forall|j: int|
                0 <= j < reports@.len() ==> crate::contact::report_ok(old(world)@, #[trigger] reports@[j]),
            r is Ok ==> final(world)@ == apply_reports(old(world)@, reports@),
            r is Err ==> final(world)@ == old(world)@ && exists|j: int|
                0 <= j < reports@.len() && !crate::contact::report_ok(old(world)@, #[trigger] reports@[j]) && (r
                    == Err::<(), CoreError>(
                    CoreError::StaleHandle { handle: crate::contact::first_handle(reports@[j].event) },
                ) || r == Err::<(), CoreError>(
                    CoreError::StaleHandle { handle: crate::contact::second_handle(reports@[j].event) },
                )),
            final(world).wf(),
    {
        resolve_contacts(world, reports)
    }

    /// Input: the menu button ends the game; the jump button held sets the
    /// player's jump request.
    pub fn input(&mut self, world: &mut World, menu_pressed: bool, jump_pressed: bool)
        requires
            old(world).wf(),
        ensures
            final(world)@.quit == (old(world)@.quit || menu_pressed),
            final(world)@.objects == old(world)@.objects,
            ({
                let e = old(self).player_entity.id as int;
                if 0 <= e < old(world)@.entities.len() && old(world)@.entities[e].player is Some {
                    final(world)@.entities == old(world)@.entities.update(
                        e,
                        EntityData {
                            player: Some(Player { jumping: jump_pressed, ..old(world)@.entities[e].player.unwrap() }),
                            ..old(world)@.entities[e]
                        },
                    )
                } else {
                    final(world)@.entities == old(world)@.entities
                }
            }),
            final(world).wf(),
    {
        if menu_pressed {
            world.set_quit(true);
        }
        let _ = world.set_jumping(self.player_entity, jump_pressed);
    }
}

proof fn lemma_silent_sources(w: WorldView, n: nat, at: Vector2)
    requires
        n <= w.entities.len(),
        forall|k: int|
            0 <= k < n && is_source(#[trigger] w.entities[k]) ==> contribution(source_of(w, k), at) == (0int, 0int),
    ensures
        total_gravity(sources_upto(w, n), at) == (0int, 0int),
    decreases n,
{
    if n > 0 {
        lemma_silent_sources(w, (n - 1) as nat, at);
        let s = sources_upto(w, (n - 1) as nat);
        if is_source(w.entities[n - 1]) {
            let t = s.push(source_of(w, n - 1));
            assert(t.drop_last() =~= s);
            assert(t.last() == source_of(w, n - 1));
        }
    }
}

/// Idempotent no-op tick: an entity other than the player, at rest (zero
/// velocity and acceleration), that no gravity source reaches (every source,
/// none of them the player, gives it zero pull), keeps its pose and its
/// motion through a tick with no contacts.
pub proof fn quiet_tick(w: WorldView, player: Entity, planet: Entity, i: int)
    requires
        w.wf(),
        0 <= i < w.entities.len(),
        i != player.id,
        w.entities[i].collider is Some,
        w.entities[i].motion == Some(
            Motion { velocity: Vector2 { x: 0, y: 0 }, acceleration: Vector2 { x: 0, y: 0 } },
        ),
        forall|k: int|
            0 <= k < w.entities.len() && is_source(#[trigger] w.entities[k]) ==> k != player.id
                && contribution(source_of(w, k), w.object_of(i).pose.translation) == (0int, 0int),
    ensures
        ({
            let after = apply_reports(tick(w, player, planet), Seq::<ContactReport>::empty());
            &&& after.entities[i].motion == w.entities[i].motion
            &&& after.entities[i].collider == w.entities[i].collider
            &&& after.object_of(i).pose == w.object_of(i).pose
        }),
{
    let w1 = locomotion_pass(w, player, planet);
    let hi = w.entities[i].collider.unwrap().object_handle.index as int;
    assert(w.entity_linked(i));
    assert(w.object_linked(hi));
    if can_step(w, player) {
        let p = player.id as int;
        assert(w.entity_linked(p));
    }
    assert(w1.entities.len() == w.entities.len());
    assert(w1.objects.len() == w.objects.len());
    assert(w1.entities[i] == w.entities[i]);
    assert(w1.objects[hi] == w.objects[hi]);
    let at = w.object_of(i).pose.translation;
    assert(w1.object_of(i).pose.translation == at);
    assert forall|k: int|
        0 <= k < w1.entities.len() && is_source(#[trigger] w1.entities[k]) implies contribution(
        source_of(w1, k),
        at,
    ) == (0int, 0int) by {
        assert(w1.entities[k].collider == w.entities[k].collider);
        assert(w1.entities[k].gravity == w.entities[k].gravity);
        assert(is_source(w.entities[k]));
        assert(k != player.id);
        assert(w1.entities[k] == w.entities[k]);
        let hk = w.entities[k].collider.unwrap().object_handle.index as int;
        assert(w.entity_linked(k));
        if can_step(w, player) {
            assert(w.entity_linked(player.id as int));
        }
        assert(w1.objects[hk] == w.objects[hk]);
        assert(source_of(w1, k) == source_of(w, k));
    }
    lemma_silent_sources(w1, w1.entities.len(), at);
    let w2 = gravity_pass(w1);
    assert(w2.entities[i].motion == w.entities[i].motion);
    let w3 = integrate_pass(w2);
    assert(w3.entities[i].motion == w.entities[i].motion);
    assert(w3.objects[hi] == w.objects[hi]);
    assert(apply_reports(w3, Seq::<ContactReport>::empty()) == w3);
}

} // verus!
