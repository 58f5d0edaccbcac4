use vstd::prelude::*;

use crate::entity::Entity;
use crate::layers::CollisionLayers;

verus! {

/// Collision data concerning one of the two entities that collided.
#[derive(Clone, Copy, Debug, PartialEq, Eq, Structural)]
pub struct CollisionData {
    rigid_body_entity: Entity,
    collision_shape_entity: Entity,
    collision_layers: CollisionLayers,
}

/// An event fired when the collision state between two entities changed.
#[derive(Clone, Copy, Debug, PartialEq, Eq, Structural)]
pub enum CollisionEvent {
    /// The two entities started to collide
    Started(CollisionData, CollisionData),
    /// The two entities no longer collide
    Stopped(CollisionData, CollisionData),
}

impl CollisionData {
    /// The data with the given entities and layers.
    pub closed spec fn of(
        rigid_body_entity: Entity,
        collision_shape_entity: Entity,
        collision_layers: CollisionLayers,
    ) -> CollisionData {
        CollisionData { rigid_body_entity, collision_shape_entity, collision_layers }
    }

    /// The entity that holds the rigid body.
    pub closed spec fn rigid_body(self) -> Entity {
        self.rigid_body_entity
    }

    /// The entity that holds the collision shape.
    pub closed spec fn collision_shape(self) -> Entity {
        self.collision_shape_entity
    }

    /// The collision layers of the collision shape.
    pub closed spec fn layers(self) -> CollisionLayers {
        self.collision_layers
    }

    /// The accessors give back what `of` was given, and a value is what its accessors give.
    pub proof fn lemma_of(rigid_body: Entity, shape: Entity, layers: CollisionLayers, d: CollisionData)
        ensures
            CollisionData::of(rigid_body, shape, layers).rigid_body() == rigid_body,
            CollisionData::of(rigid_body, shape, layers).collision_shape() == shape,
            CollisionData::of(rigid_body, shape, layers).layers() == layers,
            d == CollisionData::of(d.rigid_body(), d.collision_shape(), d.layers()),
    {
    }

    /// Builds the data of one side of a collision.
    pub fn new(
        rigid_body_entity: Entity,
        collision_shape_entity: Entity,
        collision_layers: CollisionLayers,
    ) -> (data: Self)
        ensures
            data == CollisionData::of(rigid_body_entity, collision_shape_entity, collision_layers),
            data.rigid_body() == rigid_body_entity,
            data.collision_shape() == collision_shape_entity,
            data.layers() == collision_layers,
    {
        Self { rigid_body_entity, collision_shape_entity, collision_layers }
    }

    /// Returns the entity containing the `RigidBody`.
    pub fn rigid_body_entity(&self) -> (entity: Entity)
        ensures
            entity == self.rigid_body(),
    {
        self.rigid_body_entity
    }

    /// Returns the entity containing the `CollisionShape`.
    pub fn collision_shape_entity(&self) -> (entity: Entity)
        ensures
            entity == self.collision_shape(),
    {
        self.collision_shape_entity
    }

    /// Returns the `CollisionLayers` of the collision shape entity.
    pub fn collision_layers(&self) -> (layers: CollisionLayers)
        ensures
            layers == self.layers(),
    {
        self.collision_layers
    }
}

impl CollisionEvent {
    /// The data of the two entities, in the order the event holds them.
    pub open spec fn pair(self) -> (CollisionData, CollisionData) {
        match self {
            CollisionEvent::Started(d1, d2) => (d1, d2),
            CollisionEvent::Stopped(d1, d2) => (d1, d2),
        }
    }

    /// Returns true if the event represents the start of a collision.
    pub fn is_started(&self) -> (started: bool)
        ensures
            started == (*self is Started),
    {
        matches!(self, CollisionEvent::Started(_, _))
    }

    /// Returns true if the event represents the end of a collision.
    pub fn is_stopped(&self) -> (stopped: bool)
        ensures
            stopped == (*self is Stopped),
    {
        matches!(self, CollisionEvent::Stopped(_, _))
    }

    /// Returns the data of the two entities that collided.
    pub fn data(self) -> (pair: (CollisionData, CollisionData))
        ensures
            pair == self.pair(),
    {
        match self {
            CollisionEvent::Started(d1, d2) => (d1, d2),
            CollisionEvent::Stopped(d1, d2) => (d1, d2),
        }
    }

    /// Returns the entities containing the collision shapes involved in the collision.
    pub fn collision_shape_entities(&self) -> (entities: (Entity, Entity))
        ensures
            entities == (self.pair().0.collision_shape(), self.pair().1.collision_shape()),
    {
        match self {
            CollisionEvent::Started(d1, d2) => (d1.collision_shape_entity, d2.collision_shape_entity),
            CollisionEvent::Stopped(d1, d2) => (d1.collision_shape_entity, d2.collision_shape_entity),
        }
    }

    /// Returns the entities containing the rigid bodies involved in the collision.
    pub fn rigid_body_entities(&self) -> (entities: (Entity, Entity))
        ensures
            entities == (self.pair().0.rigid_body(), self.pair().1.rigid_body()),
    {
        match self {
            CollisionEvent::Started(d1, d2) => (d1.rigid_body_entity, d2.rigid_body_entity),
            CollisionEvent::Stopped(d1, d2) => (d1.rigid_body_entity, d2.rigid_body_entity),
        }
    }

    /// Returns the two `CollisionLayers` involved in the collision.
    pub fn collision_layers(&self) -> (layers: (CollisionLayers, CollisionLayers))
        ensures
            layers == (self.pair().0.layers(), self.pair().1.layers()),
    {
        match self {
            CollisionEvent::Started(d1, d2) => (d1.collision_layers, d2.collision_layers),
            CollisionEvent::Stopped(d1, d2) => (d1.collision_layers, d2.collision_layers),
        }
    }
}

impl From<CollisionEvent> for (CollisionData, CollisionData) {
    fn from(event: CollisionEvent) -> (pair: (CollisionData, CollisionData)) {
        event.data()
    }
}

impl vstd::std_specs::convert::FromSpecImpl<CollisionEvent> for (CollisionData, CollisionData) {
    open spec fn obeys_from_spec() -> bool {
        true
    }

    open spec fn from_spec(event: CollisionEvent) -> (CollisionData, CollisionData) {
        event.pair()
    }
}

/// Every event is either started or stopped, never both; and both kinds carry the data
/// they were built with.
pub proof fn lemma_event_kinds(d1: CollisionData, d2: CollisionData)
    ensures
        CollisionEvent::Started(d1, d2).pair() == (d1, d2),
        CollisionEvent::Stopped(d1, d2).pair() == (d1, d2),
        CollisionEvent::Started(d1, d2) != CollisionEvent::Stopped(d1, d2),
{
}

} // verus!
