//! Physics and gameplay-state core of a planet-surface runner.
//!
//! Entities move under radial gravity toward point sources, a player walks
//! and jumps on the surface of a planet, and contact events from the physics
//! world change gameplay state. Quantities are fixed-point numbers (see
//! [`fixed`]): positions, velocities and accelerations are vectors of integers
//! counting `1 / SCALE` world units, saturated at `LIMIT`.
//!
//! One tick: [`LevelScene::advance`] (locomotion, gravity, integration), then
//! the caller refreshes contacts in its collision pipeline, then
//! [`LevelScene::handle_contact_events`].
pub mod components;
pub mod contact;
pub mod error;
pub mod fixed;
pub mod gravity;
pub mod level;
pub mod locomotion;
pub mod physics;
pub mod systems;
pub mod world;

pub use components::{Collider, Gravity, Mass, Motion, Obstacle, Player, Sprite};
pub use contact::{ContactEvent, ContactReport};
pub use error::CoreError;
pub use fixed::{Vector2, LIMIT, SCALE};
pub use level::LevelScene;
pub use physics::{CollisionObject, Entity, Handle, PhysicsWorld, Pose, Rotation, Shape};
pub use systems::{DebugPrinterSystem, DebugRecord, GravitySystem, NCollideMotionSystem};
pub use world::{EntityData, World};
