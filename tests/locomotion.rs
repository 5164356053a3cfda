use space_runner::level::{LevelScene, PLANET_RADIUS};
use space_runner::locomotion::{isqrt, locomotion_step};
use space_runner::{ContactEvent, ContactReport, Motion, Player, Pose, Rotation, Vector2, World, SCALE};

fn units(x: f64) -> i64 {
    (x * SCALE as f64).round() as i64
}

fn at(x: f64, y: f64) -> Vector2 {
    Vector2::new(units(x), units(y))
}

fn grounded_player(velocity: i64, jumping: bool) -> Player {
    Player { on_ground: true, jumping, velocity, run_acceleration: units(0.01) }
}

fn pose_at(x: f64, y: f64) -> Pose {
    Pose { translation: at(x, y), rotation: Rotation::identity() }
}

#[test]
fn grounded_step_removes_radial_velocity() {
    let motion = Motion { velocity: at(1.5, 0.5), acceleration: Vector2::zero() };
    let (player, motion, pose) =
        locomotion_step(grounded_player(0, false), motion, pose_at(0.0, -2060.0), Some(at(0.0, 0.0)));
    assert_eq!(motion.velocity, at(1.5, 0.0));
    assert_eq!(motion.acceleration, Vector2::zero());
    assert!(player.on_ground);
    assert_eq!(player.velocity, units(0.01));
    assert_eq!(pose.translation, at(1.5, -2060.0));
    // Upright: the angle atan2(0, 2060) is zero.
    assert_eq!(pose.rotation, Rotation { cos: SCALE, sin: 0 });
}

#[test]
fn radial_component_vanishes_on_a_slant() {
    let ground = at(10.0, 20.0);
    let pose = pose_at(10.0 + 1500.0, 20.0 - 1400.0);
    let motion = Motion { velocity: at(0.7, -1.3), acceleration: Vector2::zero() };
    let (_, motion, _) = locomotion_step(grounded_player(0, false), motion, pose, Some(ground));
    let ox = (pose.translation.x - ground.x) as i128;
    let oy = (pose.translation.y - ground.y) as i128;
    let radial = motion.velocity.x as i128 * ox + motion.velocity.y as i128 * oy;
    assert!(radial.abs() < ox.abs() + oy.abs());
    assert!(motion.velocity != Vector2::zero());
}

#[test]
fn jump_leaves_the_ground_with_a_radial_push() {
    let motion = Motion { velocity: Vector2::zero(), acceleration: Vector2::zero() };
    let (player, motion, _) =
        locomotion_step(grounded_player(0, true), motion, pose_at(0.0, -2060.0), Some(at(0.0, 0.0)));
    assert!(!player.on_ground);
    assert!(player.jumping);
    assert_eq!(motion.velocity, Vector2::new(0, -SCALE));
}

#[test]
fn run_pushes_along_the_surface() {
    let motion = Motion { velocity: Vector2::zero(), acceleration: Vector2::zero() };
    let run_speed = units(2.0);
    let (player, motion, _) =
        locomotion_step(grounded_player(run_speed, false), motion, pose_at(0.0, -2060.0), Some(at(0.0, 0.0)));
    // normal (0, -1) turned a quarter: (1, 0); times 2 * 0.01.
    let expected = (SCALE as i128 * run_speed as i128 * units(0.01) as i128 / (SCALE as i128 * SCALE as i128)) as i64;
    assert_eq!(motion.velocity, Vector2::new(expected, 0));
    assert_eq!(player.velocity, run_speed + units(0.01));
}

#[test]
fn airborne_step_integrates_gathered_acceleration() {
    let player = Player { on_ground: false, jumping: false, velocity: 0, run_acceleration: units(0.01) };
    let motion = Motion { velocity: at(1.0, 2.0), acceleration: at(0.5, -0.25) };
    let (_, motion, pose) = locomotion_step(player, motion, pose_at(0.0, -2060.0), Some(at(0.0, 0.0)));
    assert_eq!(motion.velocity, at(1.5, 1.75));
    assert_eq!(motion.acceleration, Vector2::zero());
    assert_eq!(pose.translation, at(1.5, -2058.25));
}

#[test]
fn without_ground_reference_the_player_falls_freely() {
    let motion = Motion { velocity: at(1.0, 0.0), acceleration: at(0.0, 0.5) };
    let start = Pose { translation: at(3.0, 4.0), rotation: Rotation { cos: 0, sin: SCALE } };
    let (player, motion, pose) = locomotion_step(grounded_player(0, true), motion, start, None);
    assert!(player.on_ground);
    assert_eq!(motion.velocity, at(1.0, 0.5));
    assert_eq!(pose.translation, at(4.0, 4.5));
    assert_eq!(pose.rotation, start.rotation);
}

#[test]
fn upright_rotation_follows_the_offset() {
    let motion = Motion { velocity: Vector2::zero(), acceleration: Vector2::zero() };
    let player = Player { on_ground: false, jumping: false, velocity: 0, run_acceleration: 0 };
    let (_, _, pose) = locomotion_step(player, motion, pose_at(2060.0, 0.0), Some(at(0.0, 0.0)));
    // atan2(2060, 0) is a quarter turn.
    assert_eq!(pose.rotation, Rotation { cos: 0, sin: SCALE });
}

#[test]
fn velocities_saturate_at_the_bound() {
    let player = Player { on_ground: false, jumping: false, velocity: 0, run_acceleration: 0 };
    let motion = Motion {
        velocity: Vector2::new(space_runner::LIMIT, 0),
        acceleration: Vector2::new(space_runner::LIMIT, 0),
    };
    let (_, motion, _) = locomotion_step(player, motion, pose_at(0.0, 0.0), None);
    assert_eq!(motion.velocity.x, space_runner::LIMIT);
}

#[test]
fn integer_square_roots() {
    assert_eq!(isqrt(0), 0);
    assert_eq!(isqrt(1), 1);
    assert_eq!(isqrt(15), 3);
    assert_eq!(isqrt(16), 4);
    assert_eq!(isqrt(1 << 85), 6219777023950);
}

#[test]
fn scene_step_writes_the_player_back() {
    let mut world = World::new();
    let mut scene = LevelScene::new(&mut world, &vec![]);
    let player = scene.player_entity;
    let h_player = world.entity(player).unwrap().collider.unwrap().object_handle;
    let h_planet = world.entity(scene.planet_entity).unwrap().collider.unwrap().object_handle;
    let started = ContactReport {
        event: ContactEvent::Started(h_player, h_planet),
        normal: Some(Vector2::new(0, -SCALE)),
    };
    scene.handle_contact_events(&mut world, &vec![started]).unwrap();
    scene.run_player_motion(&mut world);
    let m = world.entity(player).unwrap().motion.unwrap();
    assert_eq!(m.velocity, Vector2::new(units(1.5), 0));
    let pose = world.pose_of(player).unwrap();
    assert_eq!(pose.translation, Vector2::new(units(1.5), -(PLANET_RADIUS + units(60.0))));
    assert_eq!(scene.camera_focus, pose.translation);
    assert_eq!(world.entity(player).unwrap().player.unwrap().velocity, units(0.01));
}

#[test]
fn scene_step_without_player_changes_nothing() {
    let mut world = World::new();
    let mut scene = LevelScene::new(&mut world, &vec![]);
    scene.player_entity = scene.planet_entity;
    let before = world.pose_of(scene.planet_entity).unwrap();
    scene.run_player_motion(&mut world);
    assert_eq!(world.pose_of(scene.planet_entity).unwrap(), before);
    assert_eq!(scene.camera_focus, Vector2::zero());
}
