use vstd::prelude::*;

verus! {

/// An opaque handle naming one object slot of a world.
///
/// The handle is the 64-bit form of an entity, the value that
/// `bevy_ecs::entity::Entity::to_bits` gives and `from_bits` takes back.
/// Two handles name the same entity exactly when their bits are equal.
#[derive(Clone, Copy, PartialEq, Eq, Structural, Debug, Hash)]
pub struct EntityId {
    pub bits: u64,
}

impl EntityId {
    /// The handle with the given bits.
    pub fn from_bits(bits: u64) -> (id: EntityId)
        ensures
            id.bits == bits,
    {
        EntityId { bits }
    }

    /// The bits of this handle.
    pub fn to_bits(self) -> (bits: u64)
        ensures
            bits == self.bits,
    {
        self.bits
    }
}

} // verus!
