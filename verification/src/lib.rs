//! Core components of an ergonomic 2d/3d physics API: collision layers, rotation
//! constraints, rigid body kinds, collision events and the bookkeeping that turns the
//! physics engine's reports into those events.

pub mod body;
pub mod collisions;
pub mod constraints;
pub mod entity;
pub mod events;
pub mod layer_derive;
pub mod layers;
pub mod pipeline;
pub mod step;
pub mod time;

pub use body::{body_status, shape_attachment, BodyStatus, RigidBody, ShapeAttachment};
pub use constraints::RotationConstraints;
pub use entity::Entity;
pub use events::{CollisionData, CollisionEvent};
pub use layers::{CollisionLayers, PhysicsLayer};
pub use time::Duration;
pub use step::{should_run, PhysicsStepDuration, PhysicsSteps};
pub use collisions::{CollidingEntities, Collisions};
