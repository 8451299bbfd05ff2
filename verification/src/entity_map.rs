//! Maps and sets keyed by entities.
//!
//! [`EntityMap`] stores its values densely and finds them through `bevy`'s `EntityHashMap`.

use bevy::ecs::entity::{EntityHashMap, EntityHashSet};
use vstd::prelude::*;

use crate::entity::Entity;

verus! {

/// `bevy`'s hash map with entities as its keys.
#[verifier::external_type_specification]
#[verifier::external_body]
#[verifier::reject_recursive_types(V)]
pub struct ExEntityHashMap<V>(EntityHashMap<V>);

/// The entries of an `EntityHashMap`.
pub uninterp spec fn entries(table: EntityHashMap<usize>) -> Map<Entity, usize>;

/// `EntityHashMap::new`: a map without entries.
#[verifier::external_body]
fn table_new() -> (table: EntityHashMap<usize>)
    ensures
        entries(table) == (Map::<Entity, usize>::empty()),
{
    EntityHashMap::new()
}

/// `HashMap::get` through `EntityHashMap`: the key's value, `None` where it has no entry.
#[verifier::external_body]
fn table_get(table: &EntityHashMap<usize>, entity: Entity) -> (value: Option<usize>)
    requires
        entity.valid(),
    ensures
        value == entries(*table).get(entity),
{
    let index = bevy::ecs::entity::EntityIndex::from_raw_u32(entity.index).unwrap();
    let generation = bevy::ecs::entity::EntityGeneration::from_bits(entity.generation);
    let key = bevy::ecs::entity::Entity::from_index_and_generation(index, generation);
    table.get(&key).copied()
}

/// `HashMap::insert` through `EntityHashMap`: afterwards the key has the new value and the other
/// entries are what they were; the key's former value comes back.
#[verifier::external_body]
fn table_insert(table: &mut EntityHashMap<usize>, entity: Entity, value: usize) -> (former: Option<
    usize,
>)
    requires
        entity.valid(),
    ensures
        entries(*final(table)) == entries(*old(table)).insert(entity, value),
        former == entries(*old(table)).get(entity),
{
    let index = bevy::ecs::entity::EntityIndex::from_raw_u32(entity.index).unwrap();
    let generation = bevy::ecs::entity::EntityGeneration::from_bits(entity.generation);
    let key = bevy::ecs::entity::Entity::from_index_and_generation(index, generation);
    table.insert(key, value)
}

/// `HashMap::remove` through `EntityHashMap`: afterwards the key has no entry and the other
/// entries are what they were; the key's former value comes back.
#[verifier::external_body]
fn table_remove(table: &mut EntityHashMap<usize>, entity: Entity) -> (former: Option<usize>)
    requires
        entity.valid(),
    ensures
        entries(*final(table)) == entries(*old(table)).remove(entity),
        former == entries(*old(table)).get(entity),
{
    let index = bevy::ecs::entity::EntityIndex::from_raw_u32(entity.index).unwrap();
    let generation = bevy::ecs::entity::EntityGeneration::from_bits(entity.generation);
    let key = bevy::ecs::entity::Entity::from_index_and_generation(index, generation);
    table.remove(&key)
}

/// A map from entities to values.
#[verifier::reject_recursive_types(V)]
pub struct EntityMap<V> {
    table: EntityHashMap<usize>,
    slots: Vec<(Entity, V)>,
}

impl<V> View for EntityMap<V> {
    type V = Map<Entity, V>;

    closed spec fn view(&self) -> Map<Entity, V> {
        Map::new(
            |entity: Entity| entries(self.table).contains_key(entity),
            |entity: Entity| self.slots@[entries(self.table)[entity] as int].1,
        )
    }
}

impl<V> EntityMap<V> {
    /// Every slot is found under the entity that it holds, and nothing else is found.
    pub closed spec fn wf(&self) -> bool {
        &&& forall|entity: Entity| #[trigger]
            entries(self.table).contains_key(entity) ==> {
                &&& entries(self.table)[entity] < self.slots@.len()
                &&& self.slots@[entries(self.table)[entity] as int].0 == entity
            }
        &&& forall|i: int|
            0 <= i < self.slots@.len() ==> entries(self.table).contains_key(
                (#[trigger] self.slots@[i]).0,
            ) && entries(self.table)[self.slots@[i].0] == i
    }

    /// A map without entries.
    pub fn new() -> (fresh: EntityMap<V>)
        ensures
            fresh.wf(),
            fresh@ == Map::<Entity, V>::empty(),
    {
        let fresh = EntityMap { table: table_new(), slots: Vec::new() };
        assert(fresh@ =~= Map::<Entity, V>::empty());
        fresh
    }

    /// Whether the entity has an entry.
    pub fn contains_key(&self, entity: Entity) -> (found: bool)
        requires
            self.wf(),
        ensures
            found == self@.contains_key(entity),
    {
        proof {
            use_type_invariant(&entity);
        }
        table_get(&self.table, entity).is_some()
    }

    /// The entity's value.
    pub fn get(&self, entity: Entity) -> (value: Option<&V>)
        requires
            self.wf(),
        ensures
            value == if self@.contains_key(entity) {
                Some(&self@[entity])
            } else {
                None
            },
    {
        proof {
            use_type_invariant(&entity);
        }
        match table_get(&self.table, entity) {
            Some(slot) => Some(&self.slots[slot].1),
            None => None,
        }
    }

    /// The entity's value, to be changed in place.
    pub fn get_mut(&mut self, entity: Entity) -> (value: Option<&mut V>)
        requires
            old(self).wf(),
        ensures
            value is Some <==> old(self)@.contains_key(entity),
            value matches Some(value) ==> {
                &&& *value == old(self)@[entity]
                &&& final(self)@ == old(self)@.insert(entity, *final(value))
                &&& final(self).wf()
            },
            value is None ==> *final(self) == *old(self),
    {
        proof {
            use_type_invariant(&entity);
        }
        match table_get(&self.table, entity) {
            Some(slot) => Some(&mut self.slots[slot].1),
            None => None,
        }
    }

    /// Gives the entity this value; its former value comes back.
    pub fn insert(&mut self, entity: Entity, value: V) -> (former: Option<V>)
        requires
            old(self).wf(),
        ensures
            final(self).wf(),
            final(self)@ == old(self)@.insert(entity, value),
            former == old(self)@.get(entity),
    {
        proof {
            use_type_invariant(&entity);
        }
        match table_get(&self.table, entity) {
            Some(slot) => {
                let mut value = value;
                core::mem::swap(&mut self.slots[slot].1, &mut value);
                assert(self@ =~= old(self)@.insert(entity, self.slots@[slot as int].1));
                Some(value)
            },
            None => {
                let slot = self.slots.len();
                table_insert(&mut self.table, entity, slot);
                self.slots.push((entity, value));
                assert(self@ =~= old(self)@.insert(entity, value));
                None
            },
        }
    }

    /// Takes the entity's entry away; its value comes back.
    pub fn remove(&mut self, entity: Entity) -> (former: Option<V>)
        requires
            old(self).wf(),
        ensures
            final(self).wf(),
            final(self)@ == old(self)@.remove(entity),
            former == old(self)@.get(entity),
    {
        proof {
            use_type_invariant(&entity);
        }
        match table_remove(&mut self.table, entity) {
            Some(slot) => {
                let (_, value) = self.slots.swap_remove(slot);
                if slot < self.slots.len() {
                    let moved = self.slots[slot].0;
                    proof {
                        use_type_invariant(&moved);
                    }
                    table_insert(&mut self.table, moved, slot);
                }
                assert(self@ =~= old(self)@.remove(entity));
                Some(value)
            },
            None => {
                assert(self@ =~= old(self)@.remove(entity));
                None
            },
        }
    }

    /// The entities that have an entry, each once.
    pub fn keys(&self) -> (keys: Vec<Entity>)
        requires
            self.wf(),
        ensures
            keys@.no_duplicates(),
            keys@.to_set() == self@.dom(),
    {
        let mut keys: Vec<Entity> = Vec::new();
        let mut i: usize = 0;
        while i < self.slots.len()
            invariant
                i <= self.slots@.len(),
                keys@ == self.slots@.take(i as int).map_values(|slot: (Entity, V)| slot.0),
            decreases self.slots@.len() - i,
        {
            keys.push(self.slots[i].0);
            i = i + 1;
        }
        proof {
            assert forall|entity: Entity| self@.contains_key(entity) implies keys@.contains(
                entity,
            ) by {
                assert(keys@[entries(self.table)[entity] as int] == entity);
            }
            assert forall|a: int, b: int|
                0 <= a < keys@.len() && 0 <= b < keys@.len() && a != b implies keys@[a]
                != keys@[b] by {
                assert(self.slots@[a].0 == keys@[a] && self.slots@[b].0 == keys@[b]);
            }
            assert forall|entity: Entity| keys@.contains(entity) implies self@.contains_key(
                entity,
            ) by {
                let i = keys@.index_of(entity);
                assert(self.slots@[i].0 == entity);
            }
            assert(keys@.to_set() =~= self@.dom());
        }
        keys
    }

    /// Keeps the entries of the entities that `other` has an entry for.
    pub fn retain_in<W>(&mut self, other: &EntityMap<W>)
        requires
            old(self).wf(),
            other.wf(),
        ensures
            final(self).wf(),
            final(self)@ == old(self)@.restrict(other@.dom()),
    {
        let keys = self.keys();
        let mut i: usize = 0;
        while i < keys.len()
            invariant
                i <= keys@.len(),
                keys@.no_duplicates(),
                keys@.to_set() == old(self)@.dom(),
                self.wf(),
                other.wf(),
                self@ == old(self)@.remove_keys(
                    keys@.take(i as int).to_set().difference(other@.dom()),
                ),
            decreases keys@.len() - i,
        {
            let key = keys[i];
            if !other.contains_key(key) {
                self.remove(key);
            }
            proof {
                assert(keys@.take(i + 1) =~= keys@.take(i as int).push(key));
                assert(keys@.take(i + 1).to_set() =~= keys@.take(i as int).to_set().insert(key)) by {
                    broadcast use vstd::seq_lib::group_seq_properties;

                }
                assert(self@ =~= old(self)@.remove_keys(
                    keys@.take(i + 1).to_set().difference(other@.dom()),
                ));
            }
            i = i + 1;
        }
        proof {
            assert(keys@.take(keys@.len() as int) =~= keys@);
            assert(self@ =~= old(self)@.restrict(other@.dom()));
        }
    }

    /// Takes all entries away.
    pub fn clear(&mut self)
        ensures
            final(self).wf(),
            final(self)@ == Map::<Entity, V>::empty(),
    {
        *self = EntityMap::new();
    }
}

/// `bevy`'s hash set of entities.
#[verifier::external_type_specification]
#[verifier::external_body]
pub struct ExEntityHashSet(EntityHashSet);

/// The members of an `EntityHashSet`.
pub uninterp spec fn members(entities: EntityHashSet) -> Set<Entity>;

/// `EntityHashSet::new`: a set without members.
#[verifier::external_body]
pub(crate) fn set_new() -> (entities: EntityHashSet)
    ensures
        members(entities) == (Set::<Entity>::empty()),
{
    EntityHashSet::new()
}

/// `HashSet::insert` through `EntityHashSet`: afterwards the entity is a member and the other
/// members are what they were; whether it was not a member before comes back.
#[verifier::external_body]
pub(crate) fn set_insert(entities: &mut EntityHashSet, entity: Entity) -> (added: bool)
    requires
        entity.valid(),
    ensures
        members(*final(entities)) == members(*old(entities)).insert(entity),
        added == !members(*old(entities)).contains(entity),
{
    let index = bevy::ecs::entity::EntityIndex::from_raw_u32(entity.index).unwrap();
    let generation = bevy::ecs::entity::EntityGeneration::from_bits(entity.generation);
    entities.insert(bevy::ecs::entity::Entity::from_index_and_generation(index, generation))
}

/// `EntityHashSet::into_iter`: the members, each once, in an order that nothing is said of.
#[verifier::external_body]
pub(crate) fn set_into_vec(entities: EntityHashSet) -> (list: Vec<Entity>)
    ensures
        list@.no_duplicates(),
        list@.to_set() == members(entities),
{
    entities
        .into_iter()
        .map(|entity| Entity { index: entity.index_u32(), generation: entity.generation().to_bits() })
        .collect()
}

} // verus!
