use heron::pipeline::{
    collision_data_pair, collision_event, fire_events, find_collider_owner, ArenaHandle,
    ColliderRecord, ContactEvent, IntersectionEvent,
};
use heron::{CollisionEvent, CollisionLayers, Entity};
use rapier3d::dynamics::{RigidBodyBuilder, RigidBodySet};
use rapier3d::geometry::{ColliderBuilder, ColliderHandle, ColliderSet, InteractionGroups};

struct TestContext {
    bodies: RigidBodySet,
    colliders: ColliderSet,
    rb_entity_1: Entity,
    rb_entity_2: Entity,
    collider_entity_1: Entity,
    collider_entity_2: Entity,
    layers_1: CollisionLayers,
    layers_2: CollisionLayers,
    handle1: ArenaHandle,
    handle2: ArenaHandle,
}

fn arena(handle: ColliderHandle) -> ArenaHandle {
    let (index, generation) = handle.into_raw_parts();
    ArenaHandle { index, generation }
}

impl Default for TestContext {
    fn default() -> Self {
        let mut bodies = RigidBodySet::new();
        let mut colliders = ColliderSet::new();

        let rb_entity_1 = Entity::from_bits(0);
        let rb_entity_2 = Entity::from_bits(1);
        let collider_entity_1 = Entity::from_bits(2);
        let collider_entity_2 = Entity::from_bits(3);
        let layers_1 = CollisionLayers::from_bits(1, 2);
        let layers_2 = CollisionLayers::from_bits(3, 4);
        let body1 = bodies.insert(
            RigidBodyBuilder::new_dynamic()
                .user_data(rb_entity_1.to_bits().into())
                .build(),
        );
        let body2 = bodies.insert(
            RigidBodyBuilder::new_dynamic()
                .user_data(rb_entity_2.to_bits().into())
                .build(),
        );
        let handle1 = colliders.insert_with_parent(
            ColliderBuilder::ball(1.0)
                .user_data(collider_entity_1.to_bits().into())
                .collision_groups(InteractionGroups::new(
                    layers_1.groups_bits(),
                    layers_1.masks_bits(),
                ))
                .build(),
            body1,
            &mut bodies,
        );
        let handle2 = colliders.insert_with_parent(
            ColliderBuilder::ball(1.0)
                .user_data(collider_entity_2.to_bits().into())
                .collision_groups(InteractionGroups::new(
                    layers_2.groups_bits(),
                    layers_2.masks_bits(),
                ))
                .build(),
            body2,
            &mut bodies,
        );

        Self {
            bodies,
            colliders,
            rb_entity_1,
            rb_entity_2,
            collider_entity_1,
            collider_entity_2,
            layers_1,
            layers_2,
            handle1: arena(handle1),
            handle2: arena(handle2),
        }
    }
}

#[test]
fn contact_started_fires_collision_started() {
    let context = TestContext::default();
    let contacts = vec![ContactEvent::Started(context.handle1, context.handle2)];

    let events = fire_events(&context.bodies, &context.colliders, &contacts, &vec![]);

    assert_eq!(events.len(), 1);
    let event = events[0];
    assert!(matches!(event, CollisionEvent::Started(_, _)));
    assert_eq!(
        event.collision_shape_entities(),
        (context.collider_entity_1, context.collider_entity_2)
    );
}

#[test]
fn contact_stopped_fires_collision_stopped() {
    let context = TestContext::default();
    let contacts = vec![ContactEvent::Stopped(context.handle1, context.handle2)];

    let events = fire_events(&context.bodies, &context.colliders, &contacts, &vec![]);

    assert_eq!(events.len(), 1);
    let event = events[0];
    assert!(matches!(event, CollisionEvent::Stopped(_, _)));
    assert_eq!(
        event.collision_shape_entities(),
        (context.collider_entity_1, context.collider_entity_2)
    );
}

#[test]
fn intersection_true_fires_collision_started() {
    let context = TestContext::default();
    let intersections = vec![IntersectionEvent {
        collider1: context.handle1,
        collider2: context.handle2,
        intersecting: true,
    }];

    let events = fire_events(&context.bodies, &context.colliders, &vec![], &intersections);

    assert_eq!(events.len(), 1);
    let event = events[0];
    assert!(matches!(event, CollisionEvent::Started(_, _)));
    assert_eq!(
        event.collision_shape_entities(),
        (context.collider_entity_1, context.collider_entity_2)
    );
}

#[test]
fn intersection_false_fires_collision_stopped() {
    let context = TestContext::default();
    let intersections = vec![IntersectionEvent {
        collider1: context.handle1,
        collider2: context.handle2,
        intersecting: false,
    }];

    let events = fire_events(&context.bodies, &context.colliders, &vec![], &intersections);

    assert_eq!(events.len(), 1);
    let event = events[0];
    assert!(matches!(event, CollisionEvent::Stopped(_, _)));
    assert_eq!(
        event.collision_shape_entities(),
        (context.collider_entity_1, context.collider_entity_2)
    );
}

#[test]
fn contains_rigid_body_entities() {
    let context = TestContext::default();
    let contacts = vec![ContactEvent::Started(context.handle1, context.handle2)];

    let events = fire_events(&context.bodies, &context.colliders, &contacts, &vec![]);
    assert_eq!(
        events[0].rigid_body_entities(),
        (context.rb_entity_1, context.rb_entity_2)
    );
}

#[test]
fn contains_collision_layers() {
    let context = TestContext::default();
    let contacts = vec![ContactEvent::Started(context.handle1, context.handle2)];

    let events = fire_events(&context.bodies, &context.colliders, &contacts, &vec![]);
    assert_eq!(
        events[0].collision_layers(),
        (context.layers_1, context.layers_2)
    );
}

#[test]
fn reversed_report_gives_the_same_order() {
    let context = TestContext::default();
    let contacts = vec![ContactEvent::Started(context.handle2, context.handle1)];

    let events = fire_events(&context.bodies, &context.colliders, &contacts, &vec![]);
    assert_eq!(
        events[0].rigid_body_entities(),
        (context.rb_entity_1, context.rb_entity_2)
    );
    assert_eq!(
        events[0].collision_shape_entities(),
        (context.collider_entity_1, context.collider_entity_2)
    );
}

#[test]
fn unknown_colliders_fire_nothing_and_order_is_kept() {
    let context = TestContext::default();
    let missing = ArenaHandle { index: 99, generation: 0 };
    let contacts = vec![
        ContactEvent::Started(context.handle1, missing),
        ContactEvent::Stopped(context.handle1, context.handle2),
    ];
    let intersections = vec![IntersectionEvent {
        collider1: context.handle1,
        collider2: context.handle2,
        intersecting: true,
    }];

    let events = fire_events(&context.bodies, &context.colliders, &contacts, &intersections);
    assert_eq!(events.len(), 2);
    assert!(events[0].is_stopped());
    assert!(events[1].is_started());
}

#[test]
fn finds_owner_of_collider() {
    let context = TestContext::default();
    let (body, record) = find_collider_owner(&context.bodies, &context.colliders, context.handle2).unwrap();
    assert_eq!(body, 1);
    assert_eq!(record.user_data, 3);
    assert_eq!((record.memberships, record.filter), (3, 4));
    assert!(record.parent.is_some());
    let missing = ArenaHandle { index: context.handle1.index, generation: context.handle1.generation + 1 };
    assert!(find_collider_owner(&context.bodies, &context.colliders, missing).is_none());
}

#[test]
fn pair_from_records_orders_and_truncates() {
    let collider = |user_data: u128| ColliderRecord {
        user_data,
        memberships: 5,
        filter: 6,
        parent: None,
    };
    // The user data is cut to its low 64 bits.
    let high = (1u128 << 64) + 9;
    let (d1, d2) = collision_data_pair(Some((high, collider(11))), Some((4, collider(12)))).unwrap();
    assert_eq!(d1.rigid_body_entity(), Entity::from_bits(4));
    assert_eq!(d2.rigid_body_entity(), Entity::from_bits(9));
    assert_eq!(d2.collision_shape_entity(), Entity::from_bits(11));
    assert_eq!(d1.collision_layers(), CollisionLayers::from_bits(5, 6));
    assert!(collision_data_pair(None, Some((4, collider(12)))).is_none());
    assert!(collision_event(true, None).is_none());
    assert_eq!(collision_event(false, Some((d1, d2))), Some(CollisionEvent::Stopped(d1, d2)));
}
