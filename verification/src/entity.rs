use vstd::prelude::*;

verus! {

/// Identifier of an entity of the ECS world, held as the 64 bits that the world
/// hands out for it (generation in the high half, index in the low half).
///
/// Two identifiers are ordered as their bits are.
#[derive(Clone, Copy, Debug, PartialEq, Eq, Structural, Hash)]
pub struct Entity {
    bits: u64,
}

impl View for Entity {
    type V = u64;

    closed spec fn view(&self) -> u64 {
        self.bits
    }
}

impl Entity {
    /// The entity whose bits are `bits`, in specifications.
    pub closed spec fn with_bits(bits: u64) -> Entity {
        Entity { bits }
    }

    /// `with_bits` gives the entity whose view is the given bits.
    pub proof fn lemma_with_bits(bits: u64)
        ensures
            Entity::with_bits(bits)@ == bits,
    {
    }

    /// The entity whose bits are `bits`.
    pub fn from_bits(bits: u64) -> (entity: Entity)
        ensures
            entity == Entity::with_bits(bits),
            entity@ == bits,
    {
        Entity { bits }
    }

    /// The bits of this entity.
    pub fn to_bits(&self) -> (bits: u64)
        ensures
            bits == self@,
    {
        self.bits
    }

    /// Two entities are the same entity exactly when their bits are equal.
    pub proof fn lemma_view_injective(a: Entity, b: Entity)
        ensures
            (a@ == b@) == (a == b),
            a == Entity::with_bits(a@),
    {
    }
}

} // verus!
