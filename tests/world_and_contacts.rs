use space_runner::contact::{reflect_velocity, resolve_bounces, resolve_contacts};
use space_runner::gravity::{contribution_at, GravitySource};
use space_runner::level::{LevelScene, PLANET_RADIUS, PLAYER_RUN_ACCELERATION};
use space_runner::physics::{GROUP_OBSTACLE, GROUP_PLAYER, GROUP_TERRAIN};
use space_runner::{
    ContactEvent, ContactReport, CoreError, DebugPrinterSystem, Entity, EntityData, Handle, Mass, Motion,
    NCollideMotionSystem, Pose, Rotation, Shape, Vector2, World, SCALE,
};

fn units(x: f64) -> i64 {
    (x * SCALE as f64).round() as i64
}

fn at(x: f64, y: f64) -> Vector2 {
    Vector2::new(units(x), units(y))
}

fn handle_of(world: &World, e: Entity) -> Handle {
    world.entity(e).unwrap().collider.unwrap().object_handle
}

fn level() -> (World, LevelScene) {
    let mut world = World::new();
    let scene = LevelScene::new(&mut world, &vec![]);
    (world, scene)
}

fn on_ground(world: &World, scene: &LevelScene) -> bool {
    world.entity(scene.player_entity).unwrap().player.unwrap().on_ground
}

fn started(a: Handle, b: Handle) -> ContactReport {
    ContactReport { event: ContactEvent::Started(a, b), normal: Some(Vector2::new(0, -SCALE)) }
}

fn stopped(a: Handle, b: Handle) -> ContactReport {
    ContactReport { event: ContactEvent::Stopped(a, b), normal: None }
}

#[test]
fn contact_start_then_stop_toggles_ground_flag() {
    let (mut world, mut scene) = level();
    let hp = handle_of(&world, scene.player_entity);
    let ht = handle_of(&world, scene.planet_entity);
    assert!(!on_ground(&world, &scene));
    assert_eq!(scene.handle_contact_events(&mut world, &vec![started(hp, ht)]), Ok(()));
    assert!(on_ground(&world, &scene));
    assert_eq!(scene.handle_contact_events(&mut world, &vec![stopped(hp, ht)]), Ok(()));
    assert!(!on_ground(&world, &scene));
}

#[test]
fn start_and_stop_in_one_batch_end_off_ground() {
    let (mut world, mut scene) = level();
    let hp = handle_of(&world, scene.player_entity);
    let ht = handle_of(&world, scene.planet_entity);
    assert_eq!(scene.handle_contact_events(&mut world, &vec![started(ht, hp), stopped(ht, hp)]), Ok(()));
    assert!(!on_ground(&world, &scene));
}

#[test]
fn start_without_contact_points_is_ignored() {
    let (mut world, mut scene) = level();
    let hp = handle_of(&world, scene.player_entity);
    let ht = handle_of(&world, scene.planet_entity);
    let empty = ContactReport { event: ContactEvent::Started(hp, ht), normal: None };
    assert_eq!(scene.handle_contact_events(&mut world, &vec![empty]), Ok(()));
    assert!(!on_ground(&world, &scene));
    // Even with a stale handle it is no error.
    let ghost = ContactReport { event: ContactEvent::Started(hp, Handle { index: 99 }), normal: None };
    assert_eq!(resolve_contacts(&mut world, &vec![ghost]), Ok(()));
}

#[test]
fn stale_handle_aborts_and_changes_nothing() {
    let (mut world, mut scene) = level();
    let hp = handle_of(&world, scene.player_entity);
    let ht = handle_of(&world, scene.planet_entity);
    let bad = Handle { index: 42 };
    let r = scene.handle_contact_events(&mut world, &vec![started(hp, ht), started(hp, bad)]);
    assert_eq!(r, Err(CoreError::StaleHandle { handle: bad }));
    assert!(!on_ground(&world, &scene));
}

#[test]
fn removed_object_handle_is_stale() {
    let mut world = World::new();
    let e = world.spawn(
        EntityData { mass: Some(Mass {}), ..EntityData::new() },
        Pose { translation: at(1.0, 2.0), rotation: Rotation::identity() },
        Shape::Ball { radius: units(1.0) },
        GROUP_OBSTACLE,
    );
    let h = handle_of(&world, e);
    assert_eq!(world.collision_object(h).unwrap().owner, e);
    assert!(world.destroy(e));
    assert!(!world.destroy(e));
    assert_eq!(world.collision_object(h), Err(CoreError::StaleHandle { handle: h }));
    let d = world.entity(e).unwrap();
    assert!(!d.alive);
    assert!(d.collider.is_none() && d.mass.is_none());
    assert_eq!(world.pose_of(e), None);
    let mut scene = LevelScene::new(&mut world, &vec![]);
    let hp = handle_of(&world, scene.player_entity);
    assert_eq!(
        scene.handle_contact_events(&mut world, &vec![stopped(hp, h)]),
        Err(CoreError::StaleHandle { handle: h })
    );
}

#[test]
fn every_collider_owns_exactly_its_object() {
    let mut world = World::new();
    let directions = vec![Rotation { cos: -SCALE, sin: 0 }, Rotation { cos: 0, sin: SCALE }];
    let _scene = LevelScene::new(&mut world, &directions);
    assert_eq!(world.entity_count(), 4);
    for id in 0..world.entity_count() {
        let e = Entity { id };
        let h = handle_of(&world, e);
        assert_eq!(world.collision_object(h).unwrap().owner, e);
        for other in 0..world.entity_count() {
            if other != id {
                assert_ne!(handle_of(&world, Entity { id: other }), h);
            }
        }
    }
}

#[test]
fn level_layout() {
    let mut world = World::new();
    let directions = vec![Rotation { cos: -SCALE, sin: 0 }, Rotation { cos: 0, sin: SCALE }];
    let scene = LevelScene::new(&mut world, &directions);
    assert_eq!(scene.planet_entity, Entity { id: 0 });
    assert_eq!(scene.player_entity, Entity { id: 1 });
    assert!(!scene.done);
    let planet = world.collision_object(handle_of(&world, scene.planet_entity)).unwrap();
    assert_eq!(planet.shape, Shape::Ball { radius: PLANET_RADIUS });
    assert_eq!(planet.group, GROUP_TERRAIN);
    assert_eq!(planet.pose.translation, Vector2::zero());
    assert_eq!(world.entity(scene.planet_entity).unwrap().gravity.unwrap().force, units(200.0));
    let player = world.collision_object(handle_of(&world, scene.player_entity)).unwrap();
    assert_eq!(player.group, GROUP_PLAYER);
    assert_eq!(player.pose.translation, at(0.0, -2060.0));
    let p = world.entity(scene.player_entity).unwrap();
    assert_eq!(p.player.unwrap().run_acceleration, PLAYER_RUN_ACCELERATION);
    assert_eq!(p.motion.unwrap().velocity, at(1.5, 0.0));
    let first = world.collision_object(handle_of(&world, Entity { id: 2 })).unwrap();
    assert_eq!(first.pose.translation, at(-2010.0, 0.0));
    assert_eq!(first.group, GROUP_OBSTACLE);
    let second = world.collision_object(handle_of(&world, Entity { id: 3 })).unwrap();
    assert_eq!(second.pose.translation, at(0.0, 2010.0));
    assert_eq!(second.pose.rotation, Rotation { cos: 0, sin: SCALE });
}

#[test]
fn integrator_moves_by_new_velocity() {
    let mut world = World::new();
    let e = world.spawn(
        EntityData {
            motion: Some(Motion { velocity: at(1.0, -1.0), acceleration: at(0.25, 0.5) }),
            ..EntityData::new()
        },
        Pose { translation: at(10.0, 10.0), rotation: Rotation { cos: 0, sin: SCALE } },
        Shape::Ball { radius: units(1.0) },
        GROUP_OBSTACLE,
    );
    let mut system = NCollideMotionSystem {};
    system.run(&mut world);
    let m = world.entity(e).unwrap().motion.unwrap();
    assert_eq!(m.velocity, at(1.25, -0.5));
    assert_eq!(m.acceleration, Vector2::zero());
    let pose = world.pose_of(e).unwrap();
    assert_eq!(pose.translation, at(11.25, 9.5));
    assert_eq!(pose.rotation, Rotation { cos: 0, sin: SCALE });
}

#[test]
fn resting_entity_is_unchanged_by_a_tick() {
    let mut world = World::new();
    let mut scene = LevelScene::new(&mut world, &vec![]);
    let e = world.spawn(
        EntityData {
            motion: Some(Motion { velocity: Vector2::zero(), acceleration: Vector2::zero() }),
            ..EntityData::new()
        },
        Pose { translation: at(5000.0, 5000.0), rotation: Rotation::identity() },
        Shape::Ball { radius: units(1.0) },
        GROUP_OBSTACLE,
    );
    let before_pose = world.pose_of(e).unwrap();
    let before = world.entity(e).unwrap();
    scene.advance(&mut world);
    assert_eq!(scene.handle_contact_events(&mut world, &vec![]), Ok(()));
    assert_eq!(world.pose_of(e).unwrap(), before_pose);
    assert_eq!(world.entity(e).unwrap(), before);
}

#[test]
fn resting_massive_entity_without_sources_is_unchanged() {
    let mut world = World::new();
    let e = world.spawn(
        EntityData {
            motion: Some(Motion { velocity: Vector2::zero(), acceleration: Vector2::zero() }),
            mass: Some(Mass {}),
            ..EntityData::new()
        },
        Pose { translation: at(-3.0, 7.0), rotation: Rotation::identity() },
        Shape::Ball { radius: units(1.0) },
        GROUP_OBSTACLE,
    );
    let mut scene = LevelScene {
        done: false,
        player_entity: Entity { id: 7 },
        planet_entity: Entity { id: 8 },
        camera_focus: Vector2::zero(),
    };
    let before_pose = world.pose_of(e).unwrap();
    let before = world.entity(e).unwrap();
    scene.advance(&mut world);
    assert_eq!(world.pose_of(e).unwrap(), before_pose);
    assert_eq!(world.entity(e).unwrap(), before);
}

#[test]
fn tick_pulls_the_player_toward_the_planet() {
    let (mut world, mut scene) = level();
    scene.advance(&mut world);
    // Locomotion first (free fall, no contact yet) moves the player by
    // (1.5, 0); gravity then acts at that position; the integrator adds it
    // to the velocity and moves the player again.
    let moved = at(1.5, -2060.0);
    let pull = contribution_at(GravitySource { position: Vector2::zero(), force: units(200.0) }, moved);
    let m = world.entity(scene.player_entity).unwrap().motion.unwrap();
    let v = Vector2::new(units(1.5) + pull.0 as i64, pull.1 as i64);
    assert_eq!(m.velocity, v);
    assert!(m.velocity.y > 0 && m.velocity.x < units(1.5));
    assert_eq!(m.acceleration, Vector2::zero());
    let pose = world.pose_of(scene.player_entity).unwrap();
    assert_eq!(pose.translation, Vector2::new(moved.x + v.x, moved.y + v.y));
    assert_eq!(scene.camera_focus, moved);
}

#[test]
fn bounce_reflects_across_the_normal() {
    assert_eq!(reflect_velocity(at(1.0, -1.0), Vector2::new(0, SCALE)), at(1.0, 1.0));
    assert_eq!(reflect_velocity(at(2.0, 3.0), Vector2::new(SCALE, 0)), at(-2.0, 3.0));
}

#[test]
fn bounce_variant_reflects_both_owners() {
    let mut world = World::new();
    let mk = |world: &mut World, v: Vector2, x: f64| {
        world.spawn(
            EntityData { motion: Some(Motion { velocity: v, acceleration: Vector2::zero() }), ..EntityData::new() },
            Pose { translation: at(x, 0.0), rotation: Rotation::identity() },
            Shape::Ball { radius: units(1.0) },
            GROUP_OBSTACLE,
        )
    };
    let a = mk(&mut world, at(1.0, 0.0), 0.0);
    let b = mk(&mut world, at(-2.0, 0.5), 2.0);
    let (ha, hb) = (handle_of(&world, a), handle_of(&world, b));
    let report = ContactReport { event: ContactEvent::Started(ha, hb), normal: Some(Vector2::new(SCALE, 0)) };
    assert_eq!(resolve_bounces(&mut world, &vec![report, stopped(ha, hb)]), Ok(()));
    assert_eq!(world.entity(a).unwrap().motion.unwrap().velocity, at(-1.0, 0.0));
    assert_eq!(world.entity(b).unwrap().motion.unwrap().velocity, at(2.0, 0.5));
    let bad = ContactReport { event: ContactEvent::Started(ha, Handle { index: 9 }), normal: Some(Vector2::new(SCALE, 0)) };
    assert_eq!(resolve_bounces(&mut world, &vec![bad]), Err(CoreError::StaleHandle { handle: Handle { index: 9 } }));
    assert_eq!(world.entity(a).unwrap().motion.unwrap().velocity, at(-1.0, 0.0));
}

#[test]
fn debug_report_lists_moving_entities() {
    let (world, scene) = level();
    let mut printer = DebugPrinterSystem {};
    let records = printer.run(&world);
    assert_eq!(records.len(), 1);
    assert_eq!(records[0].entity, scene.player_entity);
    assert_eq!(records[0].velocity, at(1.5, 0.0));
    assert_eq!(records[0].pose.translation, at(0.0, -2060.0));
}

#[test]
fn input_sets_jump_and_quit() {
    let (mut world, mut scene) = level();
    scene.input(&mut world, false, true);
    assert!(world.entity(scene.player_entity).unwrap().player.unwrap().jumping);
    assert!(!world.quit());
    scene.input(&mut world, true, false);
    assert!(!world.entity(scene.player_entity).unwrap().player.unwrap().jumping);
    assert!(world.quit());
}
