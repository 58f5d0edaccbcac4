use vstd::prelude::*;

use rapier3d::dynamics::RigidBodySet;
use rapier3d::geometry::ColliderSet;

use crate::entity::Entity;
use crate::events::{CollisionData, CollisionEvent};
use crate::layers::CollisionLayers;

verus! {

/// rapier's set of colliders, carried through as an opaque value; what the library
/// reads of it is named by `colliders_held`.
#[verifier::external_type_specification]
#[verifier::external_body]
pub struct ExColliderSet(rapier3d::geometry::ColliderSet);

/// rapier's set of rigid bodies, carried through as an opaque value; what the library
/// reads of it is named by `bodies_held`.
#[verifier::external_type_specification]
#[verifier::external_body]
pub struct ExRigidBodySet(rapier3d::dynamics::RigidBodySet);

/// A handle into one of the physics engine's sets: the index of a slot and the
/// generation of what it holds.
#[derive(Clone, Copy, Debug, PartialEq, Eq, Structural, Hash)]
pub struct ArenaHandle {
    /// The index of the slot.
    pub index: u32,
    /// The generation of the value in the slot.
    pub generation: u32,
}

/// What the collision bookkeeping reads of a collider: its user data (the bits of
/// the entity that holds its shape), its collision groups, and the handle of the body
/// it is attached to.
#[derive(Clone, Copy, Debug, PartialEq, Eq, Structural)]
pub struct ColliderRecord {
    /// The bits of the entity of the collision shape, widened to 128 bits.
    pub user_data: u128,
    /// The memberships of the collision groups.
    pub memberships: u32,
    /// The filter of the collision groups.
    pub filter: u32,
    /// The body the collider is attached to, if any.
    pub parent: Option<ArenaHandle>,
}

/// The colliders that a collider set holds, by handle.
pub uninterp spec fn colliders_held(colliders: ColliderSet) -> Map<ArenaHandle, ColliderRecord>;

/// The user data of the bodies that a body set holds, by handle.
pub uninterp spec fn bodies_held(bodies: RigidBodySet) -> Map<ArenaHandle, u128>;

/// `ColliderSet::get` with the handle of the given index and generation: the collider
/// of that handle, if the set holds one, mapped to its user data, its collision groups
/// and its parent's handle.
#[verifier::external_body]
fn collider_record(colliders: &ColliderSet, handle: ArenaHandle) -> (record: Option<
    ColliderRecord,
>)
    ensures
        record == (if colliders_held(*colliders).contains_key(handle) {
            Some(colliders_held(*colliders)[handle])
        } else {
            None
        }),
{
    let raw = rapier3d::geometry::ColliderHandle::from_raw_parts(handle.index, handle.generation);
    colliders.get(raw).map(|c| ColliderRecord {
        user_data: c.user_data,
        memberships: c.collision_groups().memberships,
        filter: c.collision_groups().filter,
        parent: c.parent().map(|p| p.into_raw_parts()).map(|(index, generation)| ArenaHandle { index, generation }),
    })
}

/// `RigidBodySet::get` with the handle of the given index and generation: the user
/// data of the body of that handle, if the set holds one.
#[verifier::external_body]
fn body_user_data(bodies: &RigidBodySet, handle: ArenaHandle) -> (user_data: Option<u128>)
    ensures
        user_data == (if bodies_held(*bodies).contains_key(handle) {
            Some(bodies_held(*bodies)[handle])
        } else {
            None
        }),
{
    let raw = rapier3d::dynamics::RigidBodyHandle::from_raw_parts(handle.index, handle.generation);
    bodies.get(raw).map(|b| b.user_data)
}

/// The entity whose bits are the low 64 bits of a user data.
pub open spec fn entity_of_user_data(user_data: u128) -> Entity {
    Entity::with_bits(user_data as u64)
}

/// The collision data of a collider attached to a body with the given user data.
pub open spec fn data_of(body_user_data: u128, collider: ColliderRecord) -> CollisionData {
    CollisionData::of(
        entity_of_user_data(body_user_data),
        entity_of_user_data(collider.user_data),
        CollisionLayers::with_bits(collider.memberships, collider.filter),
    )
}

/// The user data of the body and the collider of `handle`, when the set holds the
/// collider and it is attached to a body that the body set holds.
pub open spec fn collider_owner(
    colliders: Map<ArenaHandle, ColliderRecord>,
    bodies: Map<ArenaHandle, u128>,
    handle: ArenaHandle,
) -> Option<(u128, ColliderRecord)> {
    if colliders.contains_key(handle) {
        match colliders[handle].parent {
            Some(parent) => if bodies.contains_key(parent) {
                Some((bodies[parent], colliders[handle]))
            } else {
                None
            },
            None => None,
        }
    } else {
        None
    }
}

/// The data of both sides of a collision, the side whose body has the smaller entity
/// first; nothing unless both sides were found.
pub open spec fn pair_of(first: Option<(u128, ColliderRecord)>, second: Option<(u128, ColliderRecord)>) -> Option<
    (CollisionData, CollisionData),
> {
    match (first, second) {
        (Some((body1, collider1)), Some((body2, collider2))) => {
            let d1 = data_of(body1, collider1);
            let d2 = data_of(body2, collider2);
            Some(
                if d1.rigid_body()@ < d2.rigid_body()@ {
                    (d1, d2)
                } else {
                    (d2, d1)
                },
            )
        },
        _ => None,
    }
}

/// The event for a pair of colliders that started (`started`) or stopped touching.
pub open spec fn event_of(started: bool, pair: Option<(CollisionData, CollisionData)>) -> Option<
    CollisionEvent,
> {
    match pair {
        Some((d1, d2)) => Some(
            if started {
                CollisionEvent::Started(d1, d2)
            } else {
                CollisionEvent::Stopped(d1, d2)
            },
        ),
        None => None,
    }
}

/// A contact reported by the physics engine between two colliders.
#[derive(Clone, Copy, Debug, PartialEq, Eq, Structural)]
pub enum ContactEvent {
    /// The two colliders started to touch.
    Started(ArenaHandle, ArenaHandle),
    /// The two colliders stopped touching.
    Stopped(ArenaHandle, ArenaHandle),
}

/// A change of intersection between two colliders, one of which is a sensor.
#[derive(Clone, Copy, Debug, PartialEq, Eq, Structural)]
pub struct IntersectionEvent {
    /// The first collider.
    pub collider1: ArenaHandle,
    /// The second collider.
    pub collider2: ArenaHandle,
    /// Whether the colliders now intersect.
    pub intersecting: bool,
}

/// The collision events that a sequence of contacts gives, in order.
pub open spec fn contact_events(
    colliders: Map<ArenaHandle, ColliderRecord>,
    bodies: Map<ArenaHandle, u128>,
    contacts: Seq<ContactEvent>,
) -> Seq<CollisionEvent>
    decreases contacts.len(),
{
    if contacts.len() == 0 {
        Seq::empty()
    } else {
        let before = contact_events(colliders, bodies, contacts.drop_last());
        let (started, h1, h2) = match contacts.last() {
            ContactEvent::Started(h1, h2) => (true, h1, h2),
            ContactEvent::Stopped(h1, h2) => (false, h1, h2),
        };
        match event_of(
            started,
            pair_of(collider_owner(colliders, bodies, h1), collider_owner(colliders, bodies, h2)),
        ) {
            Some(event) => before.push(event),
            None => before,
        }
    }
}

/// The collision events that a sequence of intersection changes gives, in order.
pub open spec fn intersection_events(
    colliders: Map<ArenaHandle, ColliderRecord>,
    bodies: Map<ArenaHandle, u128>,
    intersections: Seq<IntersectionEvent>,
) -> Seq<CollisionEvent>
    decreases intersections.len(),
{
    if intersections.len() == 0 {
        Seq::empty()
    } else {
        let before = intersection_events(colliders, bodies, intersections.drop_last());
        let last = intersections.last();
        match event_of(
            last.intersecting,
            pair_of(
                collider_owner(colliders, bodies, last.collider1),
                collider_owner(colliders, bodies, last.collider2),
            ),
        ) {
            Some(event) => before.push(event),
            None => before,
        }
    }
}

/// Finds the collider of `handle` and the body it is attached to, and returns the
/// body's user data with what is read of the collider.
pub fn find_collider_owner(
    bodies: &RigidBodySet,
    colliders: &ColliderSet,
    handle: ArenaHandle,
) -> (owner: Option<(u128, ColliderRecord)>)
    ensures
        owner == collider_owner(colliders_held(*colliders), bodies_held(*bodies), handle),
{
    match collider_record(colliders, handle) {
        Some(collider) => match collider.parent {
            Some(parent) => match body_user_data(bodies, parent) {
                Some(user_data) => Some((user_data, collider)),
                None => None,
            },
            None => None,
        },
        None => None,
    }
}

/// The collision data of a collider attached to a body with the given user data: the
/// entities are the low 64 bits of the user data, the layers are the collision groups.
pub fn collision_data_of(body_user_data: u128, collider: &ColliderRecord) -> (data: CollisionData)
    ensures
        data == data_of(body_user_data, *collider),
{
    let rigid_body = Entity::from_bits(body_user_data as u64);
    let shape = Entity::from_bits(collider.user_data as u64);
    let layers = CollisionLayers::from_bits(collider.memberships, collider.filter);
    CollisionData::new(rigid_body, shape, layers)
}

/// The data of both sides of a collision, from what was found of each collider: the
/// side whose body has the smaller entity comes first. Nothing unless both were found.
pub fn collision_data_pair(
    first: Option<(u128, ColliderRecord)>,
    second: Option<(u128, ColliderRecord)>,
) -> (pair: Option<(CollisionData, CollisionData)>)
    ensures
        pair == pair_of(first, second),
{
    match (first, second) {
        (Some((body1, collider1)), Some((body2, collider2))) => {
            let d1 = collision_data_of(body1, &collider1);
            let d2 = collision_data_of(body2, &collider2);
            if d1.rigid_body_entity().to_bits() < d2.rigid_body_entity().to_bits() {
                Some((d1, d2))
            } else {
                Some((d2, d1))
            }
        },
        _ => None,
    }
}

/// The collision data of the two colliders of the given handles, when both are held
/// and attached to held bodies.
pub fn collision_data(
    bodies: &RigidBodySet,
    colliders: &ColliderSet,
    h1: ArenaHandle,
    h2: ArenaHandle,
) -> (pair: Option<(CollisionData, CollisionData)>)
    ensures
        pair == pair_of(
            collider_owner(colliders_held(*colliders), bodies_held(*bodies), h1),
            collider_owner(colliders_held(*colliders), bodies_held(*bodies), h2),
        ),
{
    let first = find_collider_owner(bodies, colliders, h1);
    let second = find_collider_owner(bodies, colliders, h2);
    collision_data_pair(first, second)
}

/// The event for a pair of colliders that started (`started`) or stopped touching,
/// when their data was found.
pub fn collision_event(started: bool, pair: Option<(CollisionData, CollisionData)>) -> (event:
    Option<CollisionEvent>)
    ensures
        event == event_of(started, pair),
{
    match pair {
        Some((d1, d2)) => if started {
            Some(CollisionEvent::Started(d1, d2))
        } else {
            Some(CollisionEvent::Stopped(d1, d2))
        },
        None => None,
    }
}

/// Turns the contacts and intersection changes that the physics engine reported
/// during a step into collision events: first those of the contacts, then those of the
/// intersections, each in the order reported. A report whose colliders or bodies are
/// no longer held gives no event.
pub fn fire_events(
    bodies: &RigidBodySet,
    colliders: &ColliderSet,
    contacts: &Vec<ContactEvent>,
    intersections: &Vec<IntersectionEvent>,
) -> (events: Vec<CollisionEvent>)
    ensures
        events@ == contact_events(colliders_held(*colliders), bodies_held(*bodies), contacts@)
            + intersection_events(colliders_held(*colliders), bodies_held(*bodies), intersections@),
{
    let ghost held = colliders_held(*colliders);
    let ghost owners = bodies_held(*bodies);
    let mut events: Vec<CollisionEvent> = Vec::new();
    let mut i: usize = 0;
    while i < contacts.len()
        invariant
            i <= contacts@.len(),
            events@ == contact_events(held, owners, contacts@.take(i as int)),
            held == colliders_held(*colliders),
            owners == bodies_held(*bodies),
        decreases contacts@.len() - i,
    {
        let (started, h1, h2) = match contacts[i] {
            ContactEvent::Started(h1, h2) => (true, h1, h2),
            ContactEvent::Stopped(h1, h2) => (false, h1, h2),
        };
        let pair = collision_data(bodies, colliders, h1, h2);
        if let Some(event) = collision_event(started, pair) {
            events.push(event);
        }
        proof {
            assert(contacts@.take(i + 1).drop_last() =~= contacts@.take(i as int));
        }
        i = i + 1;
    }
    assert(contacts@.take(contacts@.len() as int) =~= contacts@);
    let ghost from_contacts = events@;
    let mut j: usize = 0;
    while j < intersections.len()
        invariant
            j <= intersections@.len(),
            events@ == from_contacts + intersection_events(held, owners, intersections@.take(j as int)),
            held == colliders_held(*colliders),
            owners == bodies_held(*bodies),
        decreases intersections@.len() - j,
    {
        let change = intersections[j];
        let pair = collision_data(bodies, colliders, change.collider1, change.collider2);
        if let Some(event) = collision_event(change.intersecting, pair) {
            events.push(event);
        }
        proof {
            assert(intersections@.take(j + 1).drop_last() =~= intersections@.take(j as int));
        }
        j = j + 1;
    }
    assert(intersections@.take(intersections@.len() as int) =~= intersections@);
    events
}

/// In every pair of collision data, the side with the smaller rigid-body entity comes
/// first; and when the two bodies are distinct entities, the pair does not depend on
/// the order in which the two colliders were reported.
pub proof fn lemma_pair_is_ordered(
    first: Option<(u128, ColliderRecord)>,
    second: Option<(u128, ColliderRecord)>,
)
    ensures
        pair_of(first, second) matches Some((d1, d2)) ==> d1.rigid_body()@ <= d2.rigid_body()@,
        pair_of(first, second) is Some == (first is Some && second is Some),
        (pair_of(first, second) matches Some((d1, d2)) && d1.rigid_body()@ != d2.rigid_body()@)
            ==> pair_of(second, first) == pair_of(first, second),
{
}

/// A contact that starts and one that stops between the same colliders give a started
/// and a stopped event with the same data; an intersection gives a started event
/// exactly when the colliders now intersect.
pub proof fn lemma_event_kind_follows_report(
    colliders: Map<ArenaHandle, ColliderRecord>,
    bodies: Map<ArenaHandle, u128>,
    h1: ArenaHandle,
    h2: ArenaHandle,
    intersecting: bool,
)
    ensures
        ({
            let pair = pair_of(collider_owner(colliders, bodies, h1), collider_owner(colliders, bodies, h2));
            let started = contact_events(colliders, bodies, seq![ContactEvent::Started(h1, h2)]);
            let stopped = contact_events(colliders, bodies, seq![ContactEvent::Stopped(h1, h2)]);
            let changed = intersection_events(
                colliders,
                bodies,
                seq![IntersectionEvent { collider1: h1, collider2: h2, intersecting }],
            );
            &&& pair is None ==> started.len() == 0 && stopped.len() == 0 && changed.len() == 0
            &&& pair matches Some((d1, d2)) ==> {
                &&& started == seq![CollisionEvent::Started(d1, d2)]
                &&& stopped == seq![CollisionEvent::Stopped(d1, d2)]
                &&& changed == seq![
                    if intersecting {
                        CollisionEvent::Started(d1, d2)
                    } else {
                        CollisionEvent::Stopped(d1, d2)
                    },
                ]
            }
        }),
{
    let started = seq![ContactEvent::Started(h1, h2)];
    let stopped = seq![ContactEvent::Stopped(h1, h2)];
    let changed = seq![IntersectionEvent { collider1: h1, collider2: h2, intersecting }];
    assert(started.drop_last() =~= Seq::<ContactEvent>::empty());
    assert(stopped.drop_last() =~= Seq::<ContactEvent>::empty());
    assert(changed.drop_last() =~= Seq::<IntersectionEvent>::empty());
    assert(contact_events(colliders, bodies, Seq::<ContactEvent>::empty()) =~= Seq::empty());
    assert(intersection_events(colliders, bodies, Seq::<IntersectionEvent>::empty()) =~= Seq::empty());
}

/// The owner of a collider is found through the collider's parent: a held collider
/// attached to a held body gives that body's user data with the collider; a collider
/// that is not held, has no parent, or whose parent body is not held gives nothing.
pub proof fn lemma_owner_is_parent_body(
    colliders: Map<ArenaHandle, ColliderRecord>,
    bodies: Map<ArenaHandle, u128>,
    handle: ArenaHandle,
)
    ensures
        !colliders.contains_key(handle) ==> collider_owner(colliders, bodies, handle) is None,
        colliders.contains_key(handle) && colliders[handle].parent is None ==> collider_owner(
            colliders,
            bodies,
            handle,
        ) is None,
        forall|p: ArenaHandle|
            colliders.contains_key(handle) && colliders[handle].parent == Some(p) ==> {
                &&& bodies.contains_key(p) ==> collider_owner(colliders, bodies, handle) == Some(
                    (bodies[p], colliders[handle]),
                )
                &&& !bodies.contains_key(p) ==> collider_owner(colliders, bodies, handle) is None
            },
{
}

/// The events of two runs of contacts, one after the other, are the events of the
/// first run followed by those of the second: each contact gives its own event,
/// whatever came before it.
pub proof fn lemma_contact_events_concat(
    colliders: Map<ArenaHandle, ColliderRecord>,
    bodies: Map<ArenaHandle, u128>,
    first: Seq<ContactEvent>,
    second: Seq<ContactEvent>,
)
    ensures
        contact_events(colliders, bodies, first + second) == contact_events(colliders, bodies, first)
            + contact_events(colliders, bodies, second),
    decreases second.len(),
{
    if second.len() == 0 {
        assert(first + second =~= first);
        assert(contact_events(colliders, bodies, second) =~= Seq::<CollisionEvent>::empty());
        assert(contact_events(colliders, bodies, first) + Seq::<CollisionEvent>::empty()
            =~= contact_events(colliders, bodies, first));
    } else {
        let rest = second.drop_last();
        lemma_contact_events_concat(colliders, bodies, first, rest);
        assert((first + second).drop_last() =~= first + rest);
        assert((first + second).last() == second.last());
        let a = contact_events(colliders, bodies, first);
        let b = contact_events(colliders, bodies, rest);
        assert forall|e: CollisionEvent| (a + b).push(e) =~= a + b.push(e) by {}
    }
}

/// The events of two runs of intersection changes, one after the other, are the
/// events of the first run followed by those of the second.
pub proof fn lemma_intersection_events_concat(
    colliders: Map<ArenaHandle, ColliderRecord>,
    bodies: Map<ArenaHandle, u128>,
    first: Seq<IntersectionEvent>,
    second: Seq<IntersectionEvent>,
)
    ensures
        intersection_events(colliders, bodies, first + second) == intersection_events(
            colliders,
            bodies,
            first,
        ) + intersection_events(colliders, bodies, second),
    decreases second.len(),
{
    if second.len() == 0 {
        assert(first + second =~= first);
        assert(intersection_events(colliders, bodies, second) =~= Seq::<CollisionEvent>::empty());
        assert(intersection_events(colliders, bodies, first) + Seq::<CollisionEvent>::empty()
            =~= intersection_events(colliders, bodies, first));
    } else {
        let rest = second.drop_last();
        lemma_intersection_events_concat(colliders, bodies, first, rest);
        assert((first + second).drop_last() =~= first + rest);
        assert((first + second).last() == second.last());
        let a = intersection_events(colliders, bodies, first);
        let b = intersection_events(colliders, bodies, rest);
        assert forall|e: CollisionEvent| (a + b).push(e) =~= a + b.push(e) by {}
    }
}

/// The data found for both colliders of a contact, if both are held and attached to
/// held bodies.
pub open spec fn contact_pair(
    colliders: Map<ArenaHandle, ColliderRecord>,
    bodies: Map<ArenaHandle, u128>,
    contact: ContactEvent,
) -> Option<(CollisionData, CollisionData)> {
    match contact {
        ContactEvent::Started(h1, h2) => pair_of(
            collider_owner(colliders, bodies, h1),
            collider_owner(colliders, bodies, h2),
        ),
        ContactEvent::Stopped(h1, h2) => pair_of(
            collider_owner(colliders, bodies, h1),
            collider_owner(colliders, bodies, h2),
        ),
    }
}

/// No contact is lost: there are as many events as contacts whose colliders and
/// bodies are held, never more than contacts, and exactly one per contact when all
/// are held; a started contact gives a started event and a stopped one a stopped
/// event, with the data of its colliders.
pub proof fn lemma_one_event_per_contact(
    colliders: Map<ArenaHandle, ColliderRecord>,
    bodies: Map<ArenaHandle, u128>,
    contacts: Seq<ContactEvent>,
)
    ensures
        contact_events(colliders, bodies, contacts).len() <= contacts.len(),
        (forall|i: int| 0 <= i < contacts.len() ==> #[trigger] contact_pair(colliders, bodies, contacts[i]) is Some)
            ==> contact_events(colliders, bodies, contacts).len() == contacts.len()
            && forall|i: int| #![trigger contacts[i]] 0 <= i < contacts.len() ==> {
                let (d1, d2) = contact_pair(colliders, bodies, contacts[i])->0;
                contact_events(colliders, bodies, contacts)[i] == if contacts[i] is Started {
                    CollisionEvent::Started(d1, d2)
                } else {
                    CollisionEvent::Stopped(d1, d2)
                }
            },
    decreases contacts.len(),
{
    if contacts.len() > 0 {
        let rest = contacts.drop_last();
        lemma_one_event_per_contact(colliders, bodies, rest);
        if forall|i: int| 0 <= i < contacts.len() ==> #[trigger] contact_pair(colliders, bodies, contacts[i]) is Some {
            assert forall|i: int| 0 <= i < rest.len() implies #[trigger] contact_pair(colliders, bodies, rest[i]) is Some by {
                assert(rest[i] == contacts[i]);
                assert(contact_pair(colliders, bodies, contacts[i]) is Some);
            }
            let last = contacts.len() - 1;
            assert(contact_pair(colliders, bodies, contacts[last]) is Some);
            assert(contacts.last() == contacts[last]);
            let before = contact_events(colliders, bodies, rest);
            let all = contact_events(colliders, bodies, contacts);
            let (d1, d2) = contact_pair(colliders, bodies, contacts[last])->0;
            let expected = if contacts[last] is Started {
                CollisionEvent::Started(d1, d2)
            } else {
                CollisionEvent::Stopped(d1, d2)
            };
            assert(all == before.push(expected));
            assert forall|i: int| #![trigger contacts[i]] 0 <= i < contacts.len() implies {
                let (e1, e2) = contact_pair(colliders, bodies, contacts[i])->0;
                all[i] == if contacts[i] is Started {
                    CollisionEvent::Started(e1, e2)
                } else {
                    CollisionEvent::Stopped(e1, e2)
                }
            } by {
                if i < last {
                    assert(rest[i] == contacts[i]);
                }
            }
        }
    }
}

} // verus!
