use vstd::prelude::*;
use vstd::std_specs::iter::IteratorSpec;
use vstd::std_specs::slice::into_iter_elts;

use bevy_ecs::entity::{EntityMap, MapEntitiesError};

use crate::entity::EntityId;
use crate::remap::{entries, first_unmapped, lookup, rewritten, EntityRemapper, RemapError};
use crate::storage::{self, held, ChildStorage};

verus! {

/// Contains references to the child entities of this entity.
///
/// The list records a relationship and owns nothing: it keeps the identifiers
/// it was given, in their order, whether or not they are unique or live.
#[derive(Debug)]
pub struct Children(pub(crate) ChildStorage);

impl View for Children {
    type V = Seq<EntityId>;

    /// The children, first to last.
    closed spec fn view(&self) -> Seq<EntityId> {
        held(self.0)
    }
}

/// `ids` with the identifiers at positions `a` and `b` exchanged.
pub open spec fn swapped(ids: Seq<EntityId>, a: int, b: int) -> Seq<EntityId> {
    ids.update(a, ids[b]).update(b, ids[a])
}

/// Swapping the same two valid positions twice in succession restores the
/// original order.
pub proof fn lemma_swap_twice_restores(ids: Seq<EntityId>, a: int, b: int)
    requires
        0 <= a < ids.len(),
        0 <= b < ids.len(),
    ensures
        swapped(swapped(ids, a, b), a, b) == ids,
{
    assert(swapped(swapped(ids, a, b), a, b) =~= ids);
}

/// Swapping a valid position with itself leaves the list unchanged.
pub proof fn lemma_swap_same_index_unchanged(ids: Seq<EntityId>, a: int)
    requires
        0 <= a < ids.len(),
    ensures
        swapped(ids, a, a) == ids,
{
    assert(swapped(ids, a, a) =~= ids);
}

/// A swap keeps the number of children, puts each of the two children in the
/// other's place, and leaves every other child where it was.
pub proof fn lemma_swap_exchanges(ids: Seq<EntityId>, a: int, b: int)
    requires
        0 <= a < ids.len(),
        0 <= b < ids.len(),
    ensures
        swapped(ids, a, b).len() == ids.len(),
        swapped(ids, a, b)[a] == ids[b],
        swapped(ids, a, b)[b] == ids[a],
        forall|i: int| 0 <= i < ids.len() && i != a && i != b ==> swapped(ids, a, b)[i] == ids[i],
{
}

/// A list built from a slice reads back as that slice: indexed or sliced
/// access and iteration both give exactly the given identifiers, in the
/// given order.
pub proof fn lemma_with_reads_back<'a>(
    entity: &[EntityId],
    children: Children,
    slice: &'a [EntityId],
    iter: core::slice::Iter<'a, EntityId>,
)
    requires
        call_ensures(Children::with, (entity,), children),
        call_ensures(<Children as core::ops::Deref>::deref, (&children,), slice),
        call_ensures(<[EntityId]>::iter, (slice,), iter),
    ensures
        children@ == entity@,
        slice@ == entity@,
        iter.remaining() == entity@.as_ref(),
{
}

impl Children {
    /// Builds and returns a [`Children`] component with the given entities.
    pub fn with(entity: &[EntityId]) -> (children: Children)
        ensures
            children@ == entity@,
    {
        Children(storage::from_slice(entity))
    }

    /// Swaps the child at `a_index` with the child at `b_index`.
    pub fn swap(&mut self, a_index: usize, b_index: usize)
        requires
            a_index < old(self)@.len(),
            b_index < old(self)@.len(),
        ensures
            final(self)@ == swapped(old(self)@, a_index as int, b_index as int),
    {
        let slice = storage::as_mut_slice(&mut self.0);
        slice.swap(a_index, b_index);
    }

    /// Settles the lookup of the child at `index`: an identifier that was
    /// found takes the child's place, and a failed lookup leaves the list as
    /// it is and reports the child as unmapped.
    pub fn rewrite_at(&mut self, index: usize, found: Result<EntityId, MapEntitiesError>) -> (result:
        Result<(), RemapError>)
        requires
            index < old(self)@.len(),
        ensures
            match found {
                Ok(to) => result is Ok && final(self)@ == old(self)@.update(index as int, to),
                Err(_) => result == Err::<(), RemapError>(
                    RemapError::UnmappedEntity(old(self)@[index as int]),
                ) && final(self)@ == old(self)@,
            },
    {
        match found {
            Ok(to) => {
                let slice = storage::as_mut_slice(&mut self.0);
                slice[index] = to;
                Ok(())
            },
            Err(_) => {
                let slice = storage::as_slice(&self.0);
                Err(RemapError::UnmappedEntity(slice[index]))
            },
        }
    }
}

impl EntityRemapper for Children {
    open spec fn held_entities(&self) -> Seq<EntityId> {
        self@
    }

    fn map_entities(&mut self, entity_map: &EntityMap) -> (result: Result<(), RemapError>) {
        let ghost before = self@;
        let ghost map = entries(*entity_map);
        let len = storage::as_slice(&self.0).len();
        let mut index: usize = 0;
        while index < len
            invariant
                index <= len,
                len == before.len(),
                before == old(self)@,
                map == entries(*entity_map),
                self@ == rewritten(before, map, index as int),
                forall|i: int| 0 <= i < index ==> map.contains_key(#[trigger] before[i]),
            decreases len - index,
        {
            let entity = storage::as_slice(&self.0)[index];
            let found = lookup(entity_map, entity);
            match self.rewrite_at(index, found) {
                Ok(()) => {},
                Err(error) => {
                    assert(first_unmapped(before, map, index as int));
                    return Err(error);
                },
            }
            index += 1;
        }
        Ok(())
    }
}

impl Default for Children {
    /// The list without children.
    fn default() -> (children: Children)
        ensures
            children@ == Seq::<EntityId>::empty(),
    {
        Children(storage::empty())
    }
}

impl Clone for Children {
    /// A list with the same children in the same order.
    fn clone(&self) -> (children: Children)
        ensures
            children@ == self@,
    {
        Children(storage::duplicate(&self.0))
    }
}

impl core::ops::Deref for Children {
    type Target = [EntityId];

    /// The children as a slice, first to last.
    fn deref(&self) -> (slice: &[EntityId])
        ensures
            slice@ == self@,
    {
        storage::as_slice(&self.0)
    }
}

impl<'a> IntoIterator for &'a Children {
    type Item = &'a EntityId;

    type IntoIter = core::slice::Iter<'a, EntityId>;

    /// An iterator over the children, first to last.
    fn into_iter(self) -> (iter: core::slice::Iter<'a, EntityId>)
        ensures
            into_iter_elts(iter) == self@,
            iter.remaining() == self@.as_ref(),
            iter.decrease() is Some,
            iter.initial_value_relation(&iter),
    {
        storage::as_slice(&self.0).iter()
    }
}

} // verus!
