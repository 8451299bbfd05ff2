//! Entities that are known to both sides by a hash.

use std::collections::HashMap;
use vstd::prelude::*;

use crate::entity::Entity;
use crate::entity_map::EntityMap;

verus! {

broadcast use vstd::std_specs::hash::group_hash_axioms;

/// Entities of this side under the hashes of their signatures.
pub struct SignatureMap {
    to_entities: HashMap<u64, Entity>,
    to_hashes: EntityMap<u64>,
}

impl View for SignatureMap {
    type V = Map<u64, Entity>;

    closed spec fn view(&self) -> Map<u64, Entity> {
        self.to_entities@
    }
}

/// The signatures without those of an entity.
pub open spec fn without_entity(signatures: Map<u64, Entity>, entity: Entity) -> Map<u64, Entity> {
    signatures.remove_keys(
        Set::new(|hash: u64| signatures.contains_key(hash) && signatures[hash] == entity),
    )
}

impl SignatureMap {
    /// Each entity is under one hash, and found by both.
    pub closed spec fn wf(&self) -> bool {
        &&& self.to_hashes.wf()
        &&& forall|hash: u64| #[trigger]
            self.to_entities@.contains_key(hash) ==> self.to_hashes@.contains_key(
                self.to_entities@[hash],
            ) && self.to_hashes@[self.to_entities@[hash]] == hash
        &&& forall|entity: Entity| #[trigger]
            self.to_hashes@.contains_key(entity) ==> self.to_entities@.contains_key(
                self.to_hashes@[entity],
            ) && self.to_entities@[self.to_hashes@[entity]] == entity
    }

    /// A map without signatures.
    pub fn new() -> (fresh: SignatureMap)
        ensures
            fresh.wf(),
            fresh@ == Map::<u64, Entity>::empty(),
    {
        SignatureMap { to_entities: HashMap::new(), to_hashes: EntityMap::new() }
    }

    /// Puts the entity under the hash. What was under the hash, and under what else the entity
    /// was, is forgotten.
    pub fn insert(&mut self, entity: Entity, hash: u64)
        requires
            old(self).wf(),
        ensures
            final(self).wf(),
            final(self)@ == without_entity(old(self)@, entity).insert(hash, entity),
    {
        self.remove(entity);
        let ghost rest = self@;
        if let Some(other) = self.get(hash) {
            self.remove(other);
        }
        assert(self@ =~= rest.remove(hash));
        self.to_entities.insert(hash, entity);
        self.to_hashes.insert(entity, hash);
        assert(self@ =~= rest.insert(hash, entity));
    }

    /// The entity under the hash.
    pub fn get(&self, hash: u64) -> (entity: Option<Entity>)
        requires
            self.wf(),
        ensures
            entity == self@.get(hash),
    {
        match self.to_entities.get(&hash) {
            Some(entity) => Some(*entity),
            None => None,
        }
    }

    /// Forgets the entity.
    pub fn remove(&mut self, entity: Entity)
        requires
            old(self).wf(),
        ensures
            final(self).wf(),
            final(self)@ == without_entity(old(self)@, entity),
    {
        if let Some(hash) = self.to_hashes.remove(entity) {
            self.to_entities.remove(&hash);
        }
        assert(self@ =~= without_entity(old(self)@, entity));
    }
}

/// A forgotten entity is under no hash, and the others stay where they were.
pub proof fn lemma_without_entity(signatures: Map<u64, Entity>, entity: Entity, hash: u64)
    ensures
        without_entity(signatures, entity).contains_key(hash) <==> signatures.contains_key(hash)
            && signatures[hash] != entity,
        without_entity(signatures, entity).contains_key(hash) ==> without_entity(
            signatures,
            entity,
        )[hash] == signatures[hash],
{
}

} // verus!
