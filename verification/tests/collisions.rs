use heron::{
    CollidingEntities, CollisionData, CollisionEvent, CollisionLayers, Collisions, Entity,
};

fn data(rigid_body: u64, shape: u64) -> CollisionData {
    CollisionData::new(
        Entity::from_bits(rigid_body),
        Entity::from_bits(shape),
        CollisionLayers::default(),
    )
}

#[test]
fn colliding_entities_updates() {
    let entity1 = Entity::from_bits(1);
    let entity2 = Entity::from_bits(2);
    let mut colliding_entities1 = CollidingEntities::default();
    let mut colliding_entities2 = CollidingEntities::default();

    let collision_data1 = CollisionData::new(entity1, Entity::from_bits(0), CollisionLayers::default());
    let collision_data2 = CollisionData::new(entity2, Entity::from_bits(0), CollisionLayers::default());
    let started = CollisionEvent::Started(collision_data1, collision_data2);
    colliding_entities1.record_event(entity1, &started);
    colliding_entities2.record_event(entity2, &started);

    assert_eq!(colliding_entities1.len(), 1, "There should be one colliding entity");
    assert_eq!(
        colliding_entities1.entities()[0],
        entity2,
        "Colliding entity should be equal to second entity"
    );
    assert_eq!(colliding_entities2.len(), 1, "There should be one colliding entity");
    assert_eq!(
        colliding_entities2.entities()[0],
        entity1,
        "Colliding entity should be equal to second entity"
    );

    let stopped = CollisionEvent::Stopped(collision_data1, collision_data2);
    colliding_entities1.record_event(entity1, &stopped);
    colliding_entities2.record_event(entity2, &stopped);

    assert_eq!(
        colliding_entities1.len(),
        0,
        "Colliding entity should be removed from the list when the collision ends"
    );
    assert_eq!(
        colliding_entities2.len(),
        0,
        "Colliding entity should be removed from the list when the collision ends"
    );
}

#[test]
fn collisions_updates() {
    let entity1 = Entity::from_bits(1);
    let entity2 = Entity::from_bits(2);
    let mut collisions1 = Collisions::default();
    let mut collisions2 = Collisions::default();

    let collision_data1 = CollisionData::new(entity1, Entity::from_bits(0), CollisionLayers::default());
    let collision_data2 = CollisionData::new(entity2, Entity::from_bits(0), CollisionLayers::default());
    let started = CollisionEvent::Started(collision_data1, collision_data2);
    collisions1.record_event(entity1, &started);
    collisions2.record_event(entity2, &started);

    assert_eq!(collisions1.len(), 1, "There should be one colliding entity");
    assert_eq!(
        collisions1.entities()[0],
        entity2,
        "Colliding entity should be equal to the second entity"
    );
    assert_eq!(
        collisions1.collision_data()[0],
        collision_data2,
        "Colliding entity data should be equal to the second collision data"
    );
    assert_eq!(collisions2.len(), 1, "There should be one colliding entity");
    assert_eq!(
        collisions2.entities()[0],
        entity1,
        "Colliding entity should be equal to the first entity"
    );
    assert_eq!(
        collisions2.collision_data()[0],
        collision_data1,
        "Colliding entity data should be equal to the first collision data"
    );

    let stopped = CollisionEvent::Stopped(collision_data1, collision_data2);
    collisions1.record_event(entity1, &stopped);
    collisions2.record_event(entity2, &stopped);
    assert!(
        collisions1.is_empty(),
        "Colliding entity should be removed from the Collisions component when the collision ends"
    );
    assert!(
        collisions2.is_empty(),
        "Colliding entity should be removed from the Collisions component when the collision ends"
    );
}

#[test]
fn collisions_react_on_entity_removal() {
    let removing_entity = Entity::from_bits(7);
    let mut collisions = Collisions::default();
    let started = CollisionEvent::Started(data(3, 0), CollisionData::new(removing_entity, Entity::from_bits(0), CollisionLayers::default()));
    collisions.record_event(Entity::from_bits(3), &started);
    assert!(collisions.contains(&removing_entity));

    collisions.forget(removing_entity);

    assert!(
        collisions.is_empty(),
        "Despawned entity should be removed from the Collisions component"
    );
}

#[test]
fn unrelated_events_change_nothing() {
    let mut collisions = Collisions::new();
    let mut entities = CollidingEntities::new();
    let event = CollisionEvent::Started(data(5, 50), data(6, 60));
    collisions.record_event(Entity::from_bits(9), &event);
    entities.record_event(Entity::from_bits(9), &event);
    assert!(collisions.is_empty());
    assert!(entities.is_empty());
}

#[test]
fn several_collisions_are_tracked() {
    let owner = Entity::from_bits(1);
    let mut collisions = Collisions::new();
    let mut entities = CollidingEntities::new();
    for other in [2u64, 3, 4] {
        let event = CollisionEvent::Started(data(1, 10), data(other, other * 10));
        collisions.record_event(owner, &event);
        entities.record_event(owner, &event);
    }
    // the owner may also be the second member of the pair
    let event = CollisionEvent::Started(data(8, 80), data(1, 10));
    collisions.record_event(owner, &event);
    entities.record_event(owner, &event);

    assert_eq!(collisions.len(), 4);
    assert_eq!(entities.len(), 4);
    let mut found: Vec<u64> = collisions.entities().iter().map(|e| e.to_bits()).collect();
    found.sort();
    assert_eq!(found, vec![2, 3, 4, 8]);
    let mut shapes: Vec<u64> = collisions
        .collision_data()
        .iter()
        .map(|d| d.collision_shape_entity().to_bits())
        .collect();
    shapes.sort();
    assert_eq!(shapes, vec![20, 30, 40, 80]);
    assert!(entities.contains(&Entity::from_bits(8)));

    let stop = CollisionEvent::Stopped(data(3, 30), data(1, 10));
    collisions.record_event(owner, &stop);
    entities.record_event(owner, &stop);
    assert!(!collisions.contains(&Entity::from_bits(3)));
    assert!(!entities.contains(&Entity::from_bits(3)));
    assert_eq!(collisions.len(), 3);
    assert_eq!(entities.entities().len(), 3);
}

#[test]
fn restarting_replaces_the_data() {
    let owner = Entity::from_bits(1);
    let mut collisions = Collisions::new();
    collisions.record_event(owner, &CollisionEvent::Started(data(1, 10), data(2, 20)));
    collisions.record_event(owner, &CollisionEvent::Started(data(1, 10), data(2, 21)));
    assert_eq!(collisions.len(), 1);
    assert_eq!(collisions.collision_data()[0], data(2, 21));
}

#[test]
fn iter_lists_the_same_entities_as_entities() {
    let owner = Entity::from_bits(1);
    let mut collisions = Collisions::new();
    collisions.record_event(owner, &CollisionEvent::Started(data(1, 10), data(2, 20)));
    collisions.record_event(owner, &CollisionEvent::Started(data(1, 10), data(3, 30)));
    let mut listed: Vec<u64> = collisions.iter().iter().map(|e| e.to_bits()).collect();
    listed.sort_unstable();
    assert_eq!(listed, vec![2, 3]);
    let mut entities: Vec<u64> = collisions.entities().iter().map(|e| e.to_bits()).collect();
    entities.sort_unstable();
    assert_eq!(entities, listed);
}
