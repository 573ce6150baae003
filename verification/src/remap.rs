use bevy_ecs::entity::{Entity, EntityMap, MapEntitiesError};
use vstd::prelude::*;

use crate::entity::EntityId;

verus! {

#[verifier::external_type_specification]
#[verifier::external_body]
pub struct ExEntityMap(EntityMap);

#[verifier::external_type_specification]
#[verifier::external_body]
pub struct ExMapEntitiesError(MapEntitiesError);

/// The entries of an entity map: which old identifier it sends to which new
/// one.
pub uninterp spec fn entries(entity_map: EntityMap) -> Map<EntityId, EntityId>;

/// `EntityMap::get`: the identifier that the map has for `entity`, or an
/// error when it has no entry for it. The identifier goes in through
/// `Entity::from_bits` and what was found comes back through
/// `Entity::to_bits`, which undo each other.
#[verifier::external_body]
pub(crate) fn lookup(entity_map: &EntityMap, entity: EntityId) -> (found: Result<
    EntityId,
    MapEntitiesError,
>)
    ensures
        match found {
            Ok(to) => entries(*entity_map).contains_key(entity) && entries(*entity_map)[entity]
                == to,
            Err(_) => !entries(*entity_map).contains_key(entity),
        },
{
    match entity_map.get(Entity::from_bits(entity.bits)) {
        Ok(to) => Ok(EntityId { bits: to.to_bits() }),
        Err(error) => Err(error),
    }
}

/// Why a remap pass failed.
#[derive(Clone, Copy, PartialEq, Eq, Structural, Debug)]
pub enum RemapError {
    /// The entity map has no entry for this identifier, which the remapped
    /// value holds.
    UnmappedEntity(EntityId),
}

/// Whether `map` has an entry for every identifier of `ids`.
pub open spec fn all_mapped(ids: Seq<EntityId>, map: Map<EntityId, EntityId>) -> bool {
    forall|i: int| 0 <= i < ids.len() ==> map.contains_key(#[trigger] ids[i])
}

/// Whether position `at` of `ids` holds the first identifier that `map` has
/// no entry for.
pub open spec fn first_unmapped(ids: Seq<EntityId>, map: Map<EntityId, EntityId>, at: int) -> bool {
    &&& 0 <= at < ids.len()
    &&& !map.contains_key(ids[at])
    &&& forall|i: int| 0 <= i < at ==> map.contains_key(#[trigger] ids[i])
}

/// `ids` with each of its first `upto` identifiers replaced, in place, by
/// what `map` has for it, and the rest as they were.
pub open spec fn rewritten(ids: Seq<EntityId>, map: Map<EntityId, EntityId>, upto: int) -> Seq<
    EntityId,
> {
    Seq::new(
        ids.len(),
        |i: int|
            if i < upto {
                map[ids[i]]
            } else {
                ids[i]
            },
    )
}

/// What a remap pass makes of the identifiers `before`: with an entry for
/// each of them it succeeds and leaves every one replaced; otherwise it stops
/// at the first identifier without an entry, reports that identifier, and
/// leaves those before it replaced and the others untouched.
pub open spec fn remap_outcome(
    before: Seq<EntityId>,
    map: Map<EntityId, EntityId>,
    after: Seq<EntityId>,
    result: Result<(), RemapError>,
) -> bool {
    match result {
        Ok(()) => all_mapped(before, map) && after == rewritten(before, map, before.len() as int),
        Err(RemapError::UnmappedEntity(entity)) => exists|at: int|
            #![auto]
            first_unmapped(before, map, at) && entity == before[at] && after == rewritten(
                before,
                map,
                at,
            ),
    }
}

/// The position at which a failed remap pass stopped.
spec fn stop_of(
    before: Seq<EntityId>,
    map: Map<EntityId, EntityId>,
    after: Seq<EntityId>,
    entity: EntityId,
) -> int {
    choose|at: int|
        #![auto]
        first_unmapped(before, map, at) && entity == before[at] && after == rewritten(
            before,
            map,
            at,
        )
}

/// A remap pass has one outcome: the identifiers and the map decide both the
/// result and what is held afterwards.
pub proof fn lemma_remap_outcome_unique(
    before: Seq<EntityId>,
    map: Map<EntityId, EntityId>,
    after1: Seq<EntityId>,
    result1: Result<(), RemapError>,
    after2: Seq<EntityId>,
    result2: Result<(), RemapError>,
)
    requires
        remap_outcome(before, map, after1, result1),
        remap_outcome(before, map, after2, result2),
    ensures
        result1 == result2,
        after1 == after2,
{
    match result1 {
        Ok(()) => {
            match result2 {
                Ok(()) => {
                    assert(result1->Ok_0 == result2->Ok_0);
                },
                Err(RemapError::UnmappedEntity(entity2)) => {
                    let at2 = stop_of(before, map, after2, entity2);
                    assert(map.contains_key(before[at2]));
                },
            }
        },
        Err(RemapError::UnmappedEntity(entity1)) => {
            let at1 = stop_of(before, map, after1, entity1);
            match result2 {
                Ok(()) => {
                    assert(map.contains_key(before[at1]));
                },
                Err(RemapError::UnmappedEntity(entity2)) => {
                    let at2 = stop_of(before, map, after2, entity2);
                    if at1 < at2 {
                        assert(map.contains_key(before[at1]));
                    }
                    if at2 < at1 {
                        assert(map.contains_key(before[at2]));
                    }
                },
            }
        },
    }
}

/// A remap pass succeeds exactly when the map has an entry for every held
/// identifier.
pub proof fn lemma_remap_succeeds_iff_all_mapped(
    before: Seq<EntityId>,
    map: Map<EntityId, EntityId>,
    after: Seq<EntityId>,
    result: Result<(), RemapError>,
)
    requires
        remap_outcome(before, map, after, result),
    ensures
        result is Ok <==> all_mapped(before, map),
{
    if let Err(RemapError::UnmappedEntity(entity)) = result {
        let at = stop_of(before, map, after, entity);
        assert(!map.contains_key(before[at]));
    }
}

/// A remap pass keeps the number of identifiers and their positions: on
/// success each position holds what the map has for the identifier that was
/// there.
pub proof fn lemma_remap_preserves_order(
    before: Seq<EntityId>,
    map: Map<EntityId, EntityId>,
    after: Seq<EntityId>,
    result: Result<(), RemapError>,
)
    requires
        remap_outcome(before, map, after, result),
    ensures
        after.len() == before.len(),
        result is Ok ==> forall|i: int| 0 <= i < before.len() ==> after[i] == map[before[i]],
{
}

/// Remapping an empty list succeeds against any map and leaves the list
/// empty.
pub proof fn lemma_remap_empty(
    map: Map<EntityId, EntityId>,
    after: Seq<EntityId>,
    result: Result<(), RemapError>,
)
    requires
        remap_outcome(Seq::<EntityId>::empty(), map, after, result),
    ensures
        result is Ok,
        after == Seq::<EntityId>::empty(),
{
    assert(after =~= Seq::<EntityId>::empty());
}

/// A value that holds entity identifiers and can have them rewritten when the
/// entities they name are relocated.
pub trait EntityRemapper {
    /// The identifiers that the value holds, in the order in which a remap
    /// pass visits them.
    spec fn held_entities(&self) -> Seq<EntityId>;

    /// Replaces each held identifier by what `entity_map` has for it. The
    /// pass stops at the first identifier without an entry and keeps what it
    /// has replaced until then.
    fn map_entities(&mut self, entity_map: &EntityMap) -> (result: Result<(), RemapError>)
        ensures
            remap_outcome(
                old(self).held_entities(),
                entries(*entity_map),
                final(self).held_entities(),
                result,
            ),
    ;
}

} // verus!
