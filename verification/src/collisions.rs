use vstd::prelude::*;

use std::collections::{HashMap, HashSet};

use vstd::std_specs::iter::IteratorSpec;

use crate::entity::Entity;
use crate::events::{CollisionData, CollisionEvent};

verus! {

broadcast use vstd::std_specs::hash::group_hash_axioms;

/// What the collisions of `owner` become when `event` is reported: on a start, the
/// other entity of the pair is recorded with its data; on a stop, it is forgotten. An
/// event that does not involve `owner` changes nothing.
pub open spec fn recorded_collisions(
    collisions: Map<u64, CollisionData>,
    owner: u64,
    event: CollisionEvent,
) -> Map<u64, CollisionData> {
    let (d1, d2) = event.pair();
    let (e1, e2) = (d1.rigid_body()@, d2.rigid_body()@);
    if event is Started {
        let first = if owner == e1 {
            collisions.insert(e2, d2)
        } else {
            collisions
        };
        if owner == e2 {
            first.insert(e1, d1)
        } else {
            first
        }
    } else {
        let first = if owner == e1 {
            collisions.remove(e2)
        } else {
            collisions
        };
        if owner == e2 {
            first.remove(e1)
        } else {
            first
        }
    }
}

/// What the colliding entities of `owner` become when `event` is reported.
pub open spec fn recorded_entities(entities: Set<u64>, owner: u64, event: CollisionEvent) -> Set<
    u64,
> {
    let (d1, d2) = event.pair();
    let (e1, e2) = (d1.rigid_body()@, d2.rigid_body()@);
    if event is Started {
        let first = if owner == e1 {
            entities.insert(e2)
        } else {
            entities
        };
        if owner == e2 {
            first.insert(e1)
        } else {
            first
        }
    } else {
        let first = if owner == e1 {
            entities.remove(e2)
        } else {
            entities
        };
        if owner == e2 {
            first.remove(e1)
        } else {
            first
        }
    }
}

/// The bits of each entity of a sequence.
pub open spec fn entity_bits(entities: Seq<Entity>) -> Seq<u64> {
    entities.map_values(|e: Entity| e@)
}

/// Component filled with the entities the current entity is in contact with, and the
/// collision data of each.
pub struct Collisions {
    map: HashMap<u64, CollisionData>,
}

impl View for Collisions {
    type V = Map<u64, CollisionData>;

    closed spec fn view(&self) -> Map<u64, CollisionData> {
        self.map@
    }
}

impl Collisions {
    /// No collision.
    pub fn new() -> (collisions: Self)
        ensures
            collisions@ == Map::<u64, CollisionData>::empty(),
    {
        Collisions { map: HashMap::new() }
    }

    /// Returns the number of colliding entities.
    pub fn len(&self) -> (count: usize)
        ensures
            count == self@.len(),
    {
        self.map.len()
    }

    /// Returns `true` if there is no colliding entity.
    pub fn is_empty(&self) -> (empty: bool)
        ensures
            empty == (self@.len() == 0),
    {
        proof {
            vstd::std_specs::hash::axiom_hashmap_view_finite_dom(self.map);
            if self@.len() == 0 {
                self@.dom().lemma_len0_is_empty();
            }
        }
        self.map.is_empty()
    }

    /// Returns `true` if the collisions contain the given entity.
    pub fn contains(&self, entity: &Entity) -> (found: bool)
        ensures
            found == self@.contains_key(entity@),
    {
        let bits = entity.to_bits();
        self.map.contains_key(&bits)
    }

    /// The colliding entities, each once, in arbitrary order.
    pub fn entities(&self) -> (entities: Vec<Entity>)
        ensures
            entity_bits(entities@).to_set() == self@.dom(),
            entity_bits(entities@).no_duplicates(),
            entities@.len() == self@.len(),
    {
        let mut entities: Vec<Entity> = Vec::new();
        let ghost seq = self.map.iter().remaining();
        for pair in it: self.map.iter()
            invariant
                it.seq() == seq,
                entities@.len() == it.index(),
                forall|i: int| 0 <= i < it.index() ==> #[trigger] entities@[i]@ == *it.seq()[i].0,
        {
            entities.push(Entity::from_bits(*pair.0));
        }
        proof {
            assert(entity_bits(entities@) =~= seq.map_values(|p: (&u64, &CollisionData)| *p.0));
            assert forall|k: u64| self@.dom().contains(k) implies entity_bits(entities@).contains(k) by {
                let i = choose|i: int| 0 <= i < seq.len() && seq[i] == (&k, &self@[k]);
                assert(entity_bits(entities@)[i] == k);
            }
            assert forall|i: int, j: int| 0 <= i < entities@.len() && 0 <= j < entities@.len() && i != j
                implies entity_bits(entities@)[i] != entity_bits(entities@)[j] by {
                let (ki, kj) = (*seq[i].0, *seq[j].0);
                assert(self@.contains_key(ki) && self@[ki] == *seq[i].1);
                assert(self@.contains_key(kj) && self@[kj] == *seq[j].1);
                if ki == kj {
                    assert(seq[i] == seq[j]);
                    assert(seq.no_duplicates());
                }
            }
            assert(entity_bits(entities@).to_set() =~= self@.dom());
        }
        entities
    }

    /// The colliding entities, each once, in arbitrary order; the former name of
    /// `entities`.
    pub fn iter(&self) -> (entities: Vec<Entity>)
        ensures
            entity_bits(entities@).to_set() == self@.dom(),
            entity_bits(entities@).no_duplicates(),
            entities@.len() == self@.len(),
    {
        self.entities()
    }

    /// The collision data of each colliding entity, in arbitrary order.
    pub fn collision_data(&self) -> (data: Vec<CollisionData>)
        ensures
            data@.to_set() == self@.values(),
            data@.len() == self@.len(),
            exists|keys: Seq<u64>|
                {
                    &&& keys.no_duplicates()
                    &&& keys.to_set() == self@.dom()
                    &&& keys.len() == data@.len()
                    &&& forall|i: int| 0 <= i < keys.len() ==> data@[i] == self@[#[trigger] keys[i]]
                },
    {
        let mut data: Vec<CollisionData> = Vec::new();
        let ghost seq = self.map.iter().remaining();
        for pair in it: self.map.iter()
            invariant
                it.seq() == seq,
                data@.len() == it.index(),
                forall|i: int| 0 <= i < it.index() ==> #[trigger] data@[i] == *it.seq()[i].1,
        {
            data.push(*pair.1);
        }
        proof {
            assert forall|v: CollisionData| self@.values().contains(v) implies data@.contains(v) by {
                let k = choose|k: u64| self@.dom().contains(k) && self@[k] == v;
                let i = choose|i: int| 0 <= i < seq.len() && seq[i] == (&k, &self@[k]);
                assert(data@[i] == v);
            }
            assert forall|v: CollisionData| data@.contains(v) implies self@.values().contains(v) by {
                let i = choose|i: int| 0 <= i < data@.len() && data@[i] == v;
                let k = *seq[i].0;
                assert(self@.contains_key(k) && self@[k] == v);
            }
            assert(data@.to_set() =~= self@.values());
            let keys = seq.map_values(|p: (&u64, &CollisionData)| *p.0);
            assert forall|i: int| 0 <= i < keys.len() implies data@[i] == self@[#[trigger] keys[i]] by {
                assert(self@.contains_key(*seq[i].0) && self@[*seq[i].0] == *seq[i].1);
            }
            assert forall|k: u64| self@.dom().contains(k) implies keys.contains(k) by {
                let i = choose|i: int| 0 <= i < seq.len() && seq[i] == (&k, &self@[k]);
                assert(keys[i] == k);
            }
            assert forall|i: int, j: int| 0 <= i < keys.len() && 0 <= j < keys.len() && i != j
                implies keys[i] != keys[j] by {
                let (ki, kj) = (*seq[i].0, *seq[j].0);
                assert(self@.contains_key(ki) && self@[ki] == *seq[i].1);
                assert(self@.contains_key(kj) && self@[kj] == *seq[j].1);
                if ki == kj {
                    assert(seq[i] == seq[j]);
                    assert(seq.no_duplicates());
                }
            }
            assert(keys.to_set() =~= self@.dom());
        }
        data
    }

    /// Accounts for a collision event, as seen from `owner`, the entity that holds
    /// these collisions.
    pub fn record_event(&mut self, owner: Entity, event: &CollisionEvent)
        ensures
            final(self)@ == recorded_collisions(old(self)@, owner@, *event),
    {
        let (data1, data2) = event.data();
        let entity1 = data1.rigid_body_entity().to_bits();
        let entity2 = data2.rigid_body_entity().to_bits();
        let owner_bits = owner.to_bits();
        if event.is_started() {
            if owner_bits == entity1 {
                self.map.insert(entity2, data2);
            }
            if owner_bits == entity2 {
                self.map.insert(entity1, data1);
            }
        } else {
            if owner_bits == entity1 {
                self.map.remove(&entity2);
            }
            if owner_bits == entity2 {
                self.map.remove(&entity1);
            }
        }
    }

    /// Forgets the given entity, which no longer exists.
    pub fn forget(&mut self, entity: Entity)
        ensures
            final(self)@ == old(self)@.remove(entity@),
    {
        let bits = entity.to_bits();
        self.map.remove(&bits);
    }
}

impl Default for Collisions {
    /// No collision.
    fn default() -> (collisions: Self)
        ensures
            collisions@ == Map::<u64, CollisionData>::empty(),
    {
        Collisions::new()
    }
}

/// Component filled with the entities the current entity is in contact with.
pub struct CollidingEntities {
    set: HashSet<u64>,
}

impl View for CollidingEntities {
    type V = Set<u64>;

    closed spec fn view(&self) -> Set<u64> {
        self.set@
    }
}

impl CollidingEntities {
    /// No colliding entity.
    pub fn new() -> (entities: Self)
        ensures
            entities@ == Set::<u64>::empty(),
    {
        CollidingEntities { set: HashSet::new() }
    }

    /// Returns the number of colliding entities.
    pub fn len(&self) -> (count: usize)
        ensures
            count == self@.len(),
    {
        self.set.len()
    }

    /// Returns `true` if there is no colliding entity.
    pub fn is_empty(&self) -> (empty: bool)
        ensures
            empty == self@.is_empty(),
    {
        self.set.is_empty()
    }

    /// Returns `true` if the given entity is a colliding entity.
    pub fn contains(&self, entity: &Entity) -> (found: bool)
        ensures
            found == self@.contains(entity@),
    {
        let bits = entity.to_bits();
        self.set.contains(&bits)
    }

    /// The colliding entities, each once, in arbitrary order.
    pub fn entities(&self) -> (entities: Vec<Entity>)
        ensures
            entity_bits(entities@).to_set() == self@,
            entity_bits(entities@).no_duplicates(),
            entities@.len() == self@.len(),
    {
        let mut entities: Vec<Entity> = Vec::new();
        let ghost seq = self.set.iter().remaining();
        for bits in it: self.set.iter()
            invariant
                it.seq() == seq,
                entities@.len() == it.index(),
                forall|i: int| 0 <= i < it.index() ==> #[trigger] entities@[i]@ == *it.seq()[i],
        {
            entities.push(Entity::from_bits(*bits));
        }
        proof {
            assert(entity_bits(entities@) =~= seq.map_values(|b: &u64| *b));
            assert(entity_bits(entities@) =~= seq.unref());
            assert(entity_bits(entities@).to_set() =~= self@);
        }
        entities
    }

    /// Accounts for a collision event, as seen from `owner`, the entity that holds
    /// these colliding entities.
    pub fn record_event(&mut self, owner: Entity, event: &CollisionEvent)
        ensures
            final(self)@ == recorded_entities(old(self)@, owner@, *event),
    {
        let (entity1, entity2) = event.rigid_body_entities();
        let (bits1, bits2) = (entity1.to_bits(), entity2.to_bits());
        let owner_bits = owner.to_bits();
        if event.is_started() {
            if owner_bits == bits1 {
                self.set.insert(bits2);
            }
            if owner_bits == bits2 {
                self.set.insert(bits1);
            }
        } else {
            if owner_bits == bits1 {
                self.set.remove(&bits2);
            }
            if owner_bits == bits2 {
                self.set.remove(&bits1);
            }
        }
    }
}

impl Default for CollidingEntities {
    /// No colliding entity.
    fn default() -> (entities: Self)
        ensures
            entities@ == Set::<u64>::empty(),
    {
        CollidingEntities::new()
    }
}

/// When a collision between two distinct entities starts, each of them records the
/// other, with the other's data; the records of other entities are kept.
pub proof fn lemma_start_records_other(
    collisions: Map<u64, CollisionData>,
    owner: u64,
    event: CollisionEvent,
)
    requires
        event is Started,
        event.pair().0.rigid_body()@ != event.pair().1.rigid_body()@,
        owner == event.pair().0.rigid_body()@ || owner == event.pair().1.rigid_body()@,
    ensures
        ({
            let (d1, d2) = event.pair();
            let (other, data) = if owner == d1.rigid_body()@ {
                (d2.rigid_body()@, d2)
            } else {
                (d1.rigid_body()@, d1)
            };
            recorded_collisions(collisions, owner, event) == collisions.insert(other, data)
        }),
{
}

/// A collision that starts and then stops leaves each of the two entities with the
/// collisions it had, less the other entity.
pub proof fn lemma_start_then_stop_forgets(
    collisions: Map<u64, CollisionData>,
    owner: u64,
    started: CollisionEvent,
    stopped: CollisionEvent,
)
    requires
        started is Started,
        stopped is Stopped,
        started.pair().0.rigid_body() == stopped.pair().0.rigid_body(),
        started.pair().1.rigid_body() == stopped.pair().1.rigid_body(),
        started.pair().0.rigid_body()@ != started.pair().1.rigid_body()@,
        owner == started.pair().0.rigid_body()@ || owner == started.pair().1.rigid_body()@,
    ensures
        ({
            let (e1, e2) = (started.pair().0.rigid_body()@, started.pair().1.rigid_body()@);
            let other = if owner == e1 {
                e2
            } else {
                e1
            };
            recorded_collisions(recorded_collisions(collisions, owner, started), owner, stopped)
                == collisions.remove(other)
        }),
{
    let (e1, e2) = (started.pair().0.rigid_body()@, started.pair().1.rigid_body()@);
    let other = if owner == e1 {
        e2
    } else {
        e1
    };
    assert(recorded_collisions(recorded_collisions(collisions, owner, started), owner, stopped)
        =~= collisions.remove(other));
}

/// An event between two other entities leaves the collisions of `owner` unchanged.
pub proof fn lemma_unrelated_event_keeps_collisions(
    collisions: Map<u64, CollisionData>,
    entities: Set<u64>,
    owner: u64,
    event: CollisionEvent,
)
    requires
        owner != event.pair().0.rigid_body()@,
        owner != event.pair().1.rigid_body()@,
    ensures
        recorded_collisions(collisions, owner, event) == collisions,
        recorded_entities(entities, owner, event) == entities,
{
}

/// The colliding entities are the entities of the collisions: recording the same
/// event in both keeps them so.
pub proof fn lemma_entities_follow_collisions(
    collisions: Map<u64, CollisionData>,
    entities: Set<u64>,
    owner: u64,
    event: CollisionEvent,
)
    requires
        collisions.dom() == entities,
    ensures
        recorded_collisions(collisions, owner, event).dom() == recorded_entities(
            entities,
            owner,
            event,
        ),
{
    assert(recorded_collisions(collisions, owner, event).dom() =~= recorded_entities(
        entities,
        owner,
        event,
    ));
}

/// The entities that `owner` collides with in `event`: the other side of each side
/// that is `owner`.
pub open spec fn others_of(owner: u64, event: CollisionEvent) -> Set<u64> {
    Set::new(
        |x: u64|
            (owner == event.pair().0.rigid_body()@ && x == event.pair().1.rigid_body()@) || (owner
                == event.pair().1.rigid_body()@ && x == event.pair().0.rigid_body()@),
    )
}

/// A stopped collision only forgets: the owner's collisions lose the other entity of
/// the pair (whether or not it was recorded) and keep everything else unchanged; its
/// colliding entities likewise. Nothing is ever added.
pub proof fn lemma_stop_only_forgets(
    collisions: Map<u64, CollisionData>,
    entities: Set<u64>,
    owner: u64,
    event: CollisionEvent,
)
    requires
        event is Stopped,
    ensures
        recorded_collisions(collisions, owner, event) == collisions.remove_keys(others_of(owner, event)),
        recorded_entities(entities, owner, event) == entities.difference(others_of(owner, event)),
        recorded_collisions(collisions, owner, event).submap_of(collisions),
        recorded_entities(entities, owner, event).subset_of(entities),
{
    assert(recorded_collisions(collisions, owner, event) =~= collisions.remove_keys(
        others_of(owner, event),
    ));
    assert(recorded_entities(entities, owner, event) =~= entities.difference(others_of(owner, event)));
}

/// A started collision only records: the owner's collisions gain the other entity of
/// the pair with that entity's data, and keep every other record unchanged; its
/// colliding entities gain the other entity. Nothing is ever removed. (A collision of
/// an entity with itself records the entity with the data of the pair's first side.)
pub proof fn lemma_start_only_records(
    collisions: Map<u64, CollisionData>,
    entities: Set<u64>,
    owner: u64,
    event: CollisionEvent,
)
    requires
        event is Started,
    ensures
        recorded_entities(entities, owner, event) == entities.union(others_of(owner, event)),
        recorded_collisions(collisions, owner, event).dom() == collisions.dom().union(
            others_of(owner, event),
        ),
        forall|k: u64|
            collisions.contains_key(k) && !others_of(owner, event).contains(k)
                ==> #[trigger] recorded_collisions(collisions, owner, event)[k] == collisions[k],
        owner == event.pair().0.rigid_body()@ && owner != event.pair().1.rigid_body()@
            ==> recorded_collisions(collisions, owner, event)[event.pair().1.rigid_body()@]
            == event.pair().1,
        owner == event.pair().0.rigid_body()@ && owner == event.pair().1.rigid_body()@
            ==> recorded_collisions(collisions, owner, event)[owner] == event.pair().0,
        owner == event.pair().1.rigid_body()@ && owner != event.pair().0.rigid_body()@
            ==> recorded_collisions(collisions, owner, event)[event.pair().0.rigid_body()@]
            == event.pair().0,
{
    assert(recorded_entities(entities, owner, event) =~= entities.union(others_of(owner, event)));
    assert(recorded_collisions(collisions, owner, event).dom() =~= collisions.dom().union(
        others_of(owner, event),
    ));
}

} // verus!
