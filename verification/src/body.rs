use vstd::prelude::*;

verus! {

/// Component that marks the entity as a rigid body.
///
/// It needs a `CollisionShape`, either on the same entity or on a direct child.
#[derive(Clone, Copy, Debug, PartialEq, Eq, Structural)]
pub enum RigidBody {
    /// Affected by physics forces, and affects the other bodies. The default.
    Dynamic,
    /// Not affected by physics forces and does not move, but affects the other bodies.
    Static,
    /// Not moved by the physics engine; moved by updating its transform, from which a
    /// velocity is computed.
    KinematicPositionBased,
    /// Not moved by the physics engine, but moved by a user-defined velocity.
    KinematicVelocityBased,
    /// Neither affected by nor affecting other bodies, but still part of collision events.
    Sensor,
}

/// The kind of body the physics engine simulates for a `RigidBody`.
#[derive(Clone, Copy, Debug, PartialEq, Eq, Structural)]
pub enum BodyStatus {
    /// Moved by forces.
    Dynamic,
    /// Never moves.
    Static,
    /// Moved by setting its next position.
    KinematicPositionBased,
    /// Moved by setting its velocity.
    KinematicVelocityBased,
}

impl RigidBody {
    /// Returns true if this body type can be moved by a `Velocity`: dynamic bodies and
    /// velocity-based kinematic bodies.
    pub fn can_have_velocity(self) -> (result: bool)
        ensures
            result == (self == RigidBody::Dynamic || self == RigidBody::KinematicVelocityBased),
    {
        match self {
            RigidBody::Dynamic | RigidBody::KinematicVelocityBased => true,
            RigidBody::Static | RigidBody::KinematicPositionBased | RigidBody::Sensor => false,
        }
    }
}

impl Default for RigidBody {
    /// Bodies are dynamic by default.
    fn default() -> (body: Self)
        ensures
            body == RigidBody::Dynamic,
    {
        RigidBody::Dynamic
    }
}

/// The kind of body the physics engine simulates for the given body type: sensors
/// are simulated as static bodies, every other type as its namesake.
pub fn body_status(body_type: RigidBody) -> (status: BodyStatus)
    ensures
        status == match body_type {
            RigidBody::Dynamic => BodyStatus::Dynamic,
            RigidBody::Static => BodyStatus::Static,
            RigidBody::Sensor => BodyStatus::Static,
            RigidBody::KinematicPositionBased => BodyStatus::KinematicPositionBased,
            RigidBody::KinematicVelocityBased => BodyStatus::KinematicVelocityBased,
        },
{
    match body_type {
        RigidBody::Dynamic => BodyStatus::Dynamic,
        RigidBody::Static | RigidBody::Sensor => BodyStatus::Static,
        RigidBody::KinematicPositionBased => BodyStatus::KinematicPositionBased,
        RigidBody::KinematicVelocityBased => BodyStatus::KinematicVelocityBased,
    }
}

/// How a collision shape is attached to a rigid body.
#[derive(Clone, Copy, Debug, PartialEq, Eq, Structural)]
pub struct ShapeAttachment {
    /// The body is that of the parent entity, and the shape keeps its own transform
    /// as an offset from it; otherwise the body is that of the shape's own entity.
    pub to_parent: bool,
    /// The collider is a sensor: it reports collisions without taking part in them.
    pub is_sensor: bool,
}

/// Where a collision shape is attached, given the body type of its own entity and
/// that of its parent, if they have one, and whether it is marked as a sensor: to the
/// body of its own entity if there is one, else to that of its parent; it is a sensor
/// if it is marked so or if the chosen body is a sensor. Nothing without a body.
pub fn shape_attachment(own: Option<RigidBody>, parent: Option<RigidBody>, sensor_shape: bool) -> (
    attachment: Option<ShapeAttachment>)
    ensures
        attachment == match (own, parent) {
            (Some(body), _) => Some(
                ShapeAttachment {
                    to_parent: false,
                    is_sensor: sensor_shape || body == RigidBody::Sensor,
                },
            ),
            (None, Some(body)) => Some(
                ShapeAttachment {
                    to_parent: true,
                    is_sensor: sensor_shape || body == RigidBody::Sensor,
                },
            ),
            (None, None) => None,
        },
{
    match (own, parent) {
        (Some(body), _) => Some(
            ShapeAttachment {
                to_parent: false,
                is_sensor: sensor_shape || matches!(body, RigidBody::Sensor),
            },
        ),
        (None, Some(body)) => Some(
            ShapeAttachment {
                to_parent: true,
                is_sensor: sensor_shape || matches!(body, RigidBody::Sensor),
            },
        ),
        (None, None) => None,
    }
}

/// Only bodies that the engine simulates as dynamic or velocity-based kinematic can
/// have a velocity: a body type can have a velocity exactly when its status moves by
/// forces or by velocity.
pub proof fn lemma_velocity_follows_status(body_type: RigidBody, status: BodyStatus)
    requires
        status == match body_type {
            RigidBody::Dynamic => BodyStatus::Dynamic,
            RigidBody::Static => BodyStatus::Static,
            RigidBody::Sensor => BodyStatus::Static,
            RigidBody::KinematicPositionBased => BodyStatus::KinematicPositionBased,
            RigidBody::KinematicVelocityBased => BodyStatus::KinematicVelocityBased,
        },
    ensures
        (body_type == RigidBody::Dynamic || body_type == RigidBody::KinematicVelocityBased) == (
        status == BodyStatus::Dynamic || status == BodyStatus::KinematicVelocityBased),
{
}

} // verus!
