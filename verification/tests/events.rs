use heron::{CollisionData, CollisionEvent, CollisionLayers, Entity};

fn sample() -> (CollisionData, CollisionData) {
    (
        CollisionData::new(Entity::from_bits(1), Entity::from_bits(10), CollisionLayers::from_bits(1, 2)),
        CollisionData::new(Entity::from_bits(2), Entity::from_bits(20), CollisionLayers::from_bits(3, 4)),
    )
}

#[test]
fn started_event_accessors() {
    let (d1, d2) = sample();
    let event = CollisionEvent::Started(d1, d2);
    assert!(event.is_started());
    assert!(!event.is_stopped());
    assert_eq!(event.data(), (d1, d2));
    assert_eq!(event.rigid_body_entities(), (Entity::from_bits(1), Entity::from_bits(2)));
    assert_eq!(event.collision_shape_entities(), (Entity::from_bits(10), Entity::from_bits(20)));
    assert_eq!(
        event.collision_layers(),
        (CollisionLayers::from_bits(1, 2), CollisionLayers::from_bits(3, 4))
    );
    let pair: (CollisionData, CollisionData) = event.into();
    assert_eq!(pair, (d1, d2));
}

#[test]
fn stopped_event_accessors() {
    let (d1, d2) = sample();
    let event = CollisionEvent::Stopped(d1, d2);
    assert!(!event.is_started());
    assert!(event.is_stopped());
    assert_eq!(event.data(), (d1, d2));
    assert_eq!(d1.rigid_body_entity().to_bits(), 1);
    assert_eq!(d1.collision_shape_entity().to_bits(), 10);
    assert_eq!(d2.collision_layers().groups_bits(), 3);
    assert_eq!(d2.collision_layers().masks_bits(), 4);
}
