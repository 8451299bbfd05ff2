//! Identifiers of entities.

use vstd::prelude::*;

verus! {

/// Identifier of an entity: a slot and the number of times that slot was reused.
///
/// The largest `u32` is never a slot.
#[derive(Clone, Copy, Debug, PartialEq, Eq, Structural, Hash)]
pub struct Entity {
    pub(crate) index: u32,
    pub(crate) generation: u32,
}

impl Entity {
    /// The slot is one that an entity can have.
    #[verifier::type_invariant]
    pub closed spec fn valid(self) -> bool {
        self.index < u32::MAX
    }

    /// The identifier with this slot and this generation.
    pub closed spec fn of(index: u32, generation: u32) -> Entity {
        Entity { index, generation }
    }

    /// The identifier with this slot and this generation, `None` where the slot is `u32::MAX`.
    pub fn from_parts(index: u32, generation: u32) -> (entity: Option<Entity>)
        ensures
            entity == if index < u32::MAX {
                Some(Entity::of(index, generation))
            } else {
                None
            },
    {
        if index < u32::MAX {
            Some(Entity { index, generation })
        } else {
            None
        }
    }

    /// The slot.
    pub closed spec fn slot(self) -> u32 {
        self.index
    }

    /// How many times the slot was reused.
    pub closed spec fn reuses(self) -> u32 {
        self.generation
    }

    /// The slot.
    pub fn index(self) -> (index: u32)
        ensures
            index == self.slot(),
            index < u32::MAX,
    {
        proof {
            use_type_invariant(&self);
        }
        self.index
    }

    /// How many times the slot was reused.
    pub fn generation(self) -> (generation: u32)
        ensures
            generation == self.reuses(),
    {
        self.generation
    }

    /// An identifier has the slot and the generation that it was made of, and no other has.
    pub proof fn lemma_of(self, index: u32, generation: u32)
        ensures
            self == Entity::of(index, generation) <==> self.slot() == index && self.reuses()
                == generation,
    {
    }
}

} // verus!
