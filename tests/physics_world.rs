use space_runner::physics::GROUP_PLAYER;
use space_runner::{
    CollisionObject, CoreError, Entity, EntityData, Handle, PhysicsWorld, Player, Pose, Rotation, Shape, Vector2, World,
    SCALE,
};

fn object(x: i64, owner: usize) -> CollisionObject {
    CollisionObject {
        pose: Pose { translation: Vector2::new(x, 0), rotation: Rotation::identity() },
        shape: Shape::Cuboid { half_width: SCALE, half_height: 2 * SCALE },
        group: GROUP_PLAYER,
        owner: Entity { id: owner },
    }
}

#[test]
fn arena_hands_out_fresh_slots() {
    let mut physics = PhysicsWorld::new();
    assert_eq!(physics.len(), 0);
    let a = physics.add(object(1, 0));
    let b = physics.add(object(2, 1));
    assert_eq!(a, Handle { index: 0 });
    assert_eq!(b, Handle { index: 1 });
    assert_eq!(physics.collision_object(b), Ok(object(2, 1)));
    assert_eq!(physics.remove(a), Ok(object(1, 0)));
    assert_eq!(physics.remove(a), Err(CoreError::StaleHandle { handle: a }));
    let c = physics.add(object(3, 2));
    assert_eq!(c, Handle { index: 2 });
    assert_eq!(physics.len(), 3);
}

#[test]
fn arena_moves_only_live_objects() {
    let mut physics = PhysicsWorld::new();
    let a = physics.add(object(1, 0));
    let pose = Pose { translation: Vector2::new(5, 6), rotation: Rotation { cos: 0, sin: SCALE } };
    assert_eq!(physics.set_position(a, pose), Ok(()));
    assert_eq!(physics.collision_object(a).unwrap().pose, pose);
    assert_eq!(physics.collision_object(a).unwrap().owner, Entity { id: 0 });
    let missing = Handle { index: 7 };
    assert_eq!(physics.set_position(missing, pose), Err(CoreError::StaleHandle { handle: missing }));
    assert_eq!(physics.collision_object(missing), Err(CoreError::StaleHandle { handle: missing }));
}

#[test]
fn jump_request_needs_a_player() {
    let mut world = World::new();
    let plain = world.spawn(
        EntityData::new(),
        Pose { translation: Vector2::zero(), rotation: Rotation::identity() },
        Shape::Ball { radius: SCALE },
        1,
    );
    assert!(!world.set_jumping(plain, true));
    assert!(!world.set_jumping(Entity { id: 40 }, true));
    let runner = world.spawn(
        EntityData {
            player: Some(Player { on_ground: false, jumping: false, velocity: 0, run_acceleration: 1 }),
            ..EntityData::new()
        },
        Pose { translation: Vector2::zero(), rotation: Rotation::identity() },
        Shape::Ball { radius: SCALE },
        GROUP_PLAYER,
    );
    assert!(world.set_jumping(runner, true));
    assert!(world.entity(runner).unwrap().player.unwrap().jumping);
    assert_eq!(world.entity(Entity { id: 40 }), None);
}

#[test]
fn destroying_keeps_other_links() {
    let mut world = World::new();
    let pose = Pose { translation: Vector2::zero(), rotation: Rotation::identity() };
    let a = world.spawn(EntityData::new(), pose, Shape::Ball { radius: SCALE }, 1);
    let b = world.spawn(EntityData::new(), pose, Shape::Ball { radius: SCALE }, 1);
    assert!(world.destroy(a));
    let hb = world.entity(b).unwrap().collider.unwrap().object_handle;
    assert_eq!(world.collision_object(hb).unwrap().owner, b);
    assert_eq!(world.object_count(), 2);
    assert_eq!(world.entity_count(), 2);
}

#[test]
fn run_speed_is_set_on_players_only() {
    let mut world = World::new();
    let pose = Pose { translation: Vector2::zero(), rotation: Rotation::identity() };
    let plain = world.spawn(EntityData::new(), pose, Shape::Ball { radius: SCALE }, 1);
    assert!(!world.set_run_speed(plain, SCALE));
    let runner = world.spawn(
        EntityData {
            player: Some(Player { on_ground: true, jumping: false, velocity: 0, run_acceleration: 1 }),
            ..EntityData::new()
        },
        pose,
        Shape::Ball { radius: SCALE },
        GROUP_PLAYER,
    );
    assert!(world.set_run_speed(runner, 3 * SCALE));
    let p = world.entity(runner).unwrap().player.unwrap();
    assert_eq!(p.velocity, 3 * SCALE);
    assert!(p.on_ground);
}
