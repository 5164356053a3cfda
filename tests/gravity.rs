use space_runner::gravity::{contribution_at, total_gravity_at, GravitySource};
use space_runner::level::{LevelScene, PLANET_RADIUS};
use space_runner::{EntityData, GravitySystem, Mass, Motion, Pose, Rotation, Shape, Vector2, World, SCALE};

fn units(x: f64) -> i64 {
    (x * SCALE as f64).round() as i64
}

fn at(x: f64, y: f64) -> Vector2 {
    Vector2::new(units(x), units(y))
}

fn body_at(world: &mut World, x: f64, y: f64) -> space_runner::Entity {
    let bundle = EntityData {
        motion: Some(Motion { velocity: Vector2::zero(), acceleration: Vector2::zero() }),
        mass: Some(Mass {}),
        ..EntityData::new()
    };
    let pose = Pose { translation: at(x, y), rotation: Rotation::identity() };
    world.spawn(bundle, pose, Shape::Ball { radius: units(1.0) }, 3)
}

#[test]
fn planet_pull_at_surface_distance() {
    let mut world = World::new();
    let _planet = LevelScene::create_planet(&mut world, PLANET_RADIUS);
    let body = body_at(&mut world, 0.0, -2030.0);
    let mut system = GravitySystem {};
    system.run(&mut world);
    let m = world.entity(body).unwrap().motion.unwrap();
    assert_eq!(m.acceleration.x, 0);
    assert_eq!(m.acceleration.y, 1652927);
    // offset * (force / distance^2): the coefficient is 200 / 2030^2.
    let coefficient = m.acceleration.y as f64 / SCALE as f64 / 2030.0;
    assert!((coefficient - 4.853e-5).abs() < 1e-8);
    assert_eq!(m.velocity, Vector2::zero());
}

#[test]
fn single_contribution_points_at_source() {
    let src = GravitySource { position: at(0.0, 0.0), force: units(200.0) };
    let c = contribution_at(src, at(0.0, -2030.0));
    assert_eq!(c, (0, 1652927));
    let c = contribution_at(src, at(2030.0, 0.0));
    assert_eq!(c, (-1652927, 0));
}

#[test]
fn near_source_contributes_nothing() {
    let src = GravitySource { position: at(5.0, 5.0), force: units(200.0) };
    assert_eq!(contribution_at(src, at(5.0, 5.0)), (0, 0));
    assert_eq!(contribution_at(src, at(5.05, 5.0)), (0, 0));
    // Just inside 0.1 units (0.1 * SCALE is 1677721.6 raw units).
    let inside = Vector2::new(src.position.x, src.position.y + 1677721);
    assert_eq!(contribution_at(src, inside), (0, 0));
    let beyond = contribution_at(src, Vector2::new(src.position.x, src.position.y + 1677722));
    assert!(beyond.1 < 0);
    assert_eq!(beyond.0, 0);
}

#[test]
fn close_source_leaves_world_unchanged() {
    let mut world = World::new();
    let _planet = LevelScene::create_planet(&mut world, PLANET_RADIUS);
    let body = body_at(&mut world, 0.05, 0.0);
    let mut system = GravitySystem {};
    system.run(&mut world);
    let m = world.entity(body).unwrap().motion.unwrap();
    assert_eq!(m.acceleration, Vector2::zero());
}

#[test]
fn two_sources_add_up_in_any_order() {
    let s1 = GravitySource { position: at(0.0, 0.0), force: units(200.0) };
    let s2 = GravitySource { position: at(300.0, 400.0), force: units(50.0) };
    let p = at(100.0, -50.0);
    let c1 = contribution_at(s1, p);
    let c2 = contribution_at(s2, p);
    let forward = total_gravity_at(&vec![s1, s2], p);
    let backward = total_gravity_at(&vec![s2, s1], p);
    assert_eq!(forward, (c1.0 + c2.0, c1.1 + c2.1));
    assert_eq!(forward, backward);
    assert!(c1.0 != 0 && c2.0 != 0);
}

#[test]
fn gravity_pass_sums_sources_of_the_world() {
    let mut a = World::new();
    let mut b = World::new();
    let source = |force: f64| EntityData {
        gravity: Some(space_runner::Gravity { force: units(force) }),
        ..EntityData::new()
    };
    let pose = |x: f64, y: f64| Pose { translation: at(x, y), rotation: Rotation::identity() };
    a.spawn(source(200.0), pose(0.0, 0.0), Shape::Ball { radius: units(10.0) }, 1);
    a.spawn(source(50.0), pose(300.0, 400.0), Shape::Ball { radius: units(10.0) }, 1);
    let ea = body_at(&mut a, 100.0, -50.0);
    b.spawn(source(50.0), pose(300.0, 400.0), Shape::Ball { radius: units(10.0) }, 1);
    b.spawn(source(200.0), pose(0.0, 0.0), Shape::Ball { radius: units(10.0) }, 1);
    let eb = body_at(&mut b, 100.0, -50.0);
    let mut system = GravitySystem {};
    system.run(&mut a);
    system.run(&mut b);
    let acc_a = a.entity(ea).unwrap().motion.unwrap().acceleration;
    let acc_b = b.entity(eb).unwrap().motion.unwrap().acceleration;
    assert_eq!(acc_a, acc_b);
    let expected = total_gravity_at(
        &vec![
            GravitySource { position: at(0.0, 0.0), force: units(200.0) },
            GravitySource { position: at(300.0, 400.0), force: units(50.0) },
        ],
        at(100.0, -50.0),
    );
    assert_eq!((acc_a.x as i128, acc_a.y as i128), expected);
}

#[test]
fn gravity_accumulates_onto_existing_acceleration() {
    let mut world = World::new();
    let _planet = LevelScene::create_planet(&mut world, PLANET_RADIUS);
    let body = body_at(&mut world, 0.0, -2030.0);
    let mut system = GravitySystem {};
    system.run(&mut world);
    system.run(&mut world);
    let m = world.entity(body).unwrap().motion.unwrap();
    assert_eq!(m.acceleration.y, 2 * 1652927);
}

#[test]
fn entity_without_mass_is_not_pulled() {
    let mut world = World::new();
    let _planet = LevelScene::create_planet(&mut world, PLANET_RADIUS);
    let bundle = EntityData {
        motion: Some(Motion { velocity: Vector2::zero(), acceleration: Vector2::zero() }),
        ..EntityData::new()
    };
    let e = world.spawn(
        bundle,
        Pose { translation: at(0.0, -2030.0), rotation: Rotation::identity() },
        Shape::Ball { radius: units(1.0) },
        3,
    );
    let mut system = GravitySystem {};
    system.run(&mut world);
    assert_eq!(world.entity(e).unwrap().motion.unwrap().acceleration, Vector2::zero());
}
