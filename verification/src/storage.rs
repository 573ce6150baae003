use smallvec::SmallVec;
use vstd::prelude::*;

use crate::entity::EntityId;

verus! {

/// The backing store of a child list: a `smallvec::SmallVec` that keeps up to
/// eight identifiers inline and moves to the heap beyond that.
///
/// The verifier does not look inside a store. What it knows of one is what
/// the functions of this module state about [`held`].
#[verifier::external_body]
#[derive(Debug)]
pub struct ChildStorage {
    items: SmallVec<[EntityId; 8]>,
}

/// The identifiers that a store holds, first to last.
pub uninterp spec fn held(storage: ChildStorage) -> Seq<EntityId>;

/// `SmallVec::new`: a store that holds nothing.
#[verifier::external_body]
pub(crate) fn empty() -> (storage: ChildStorage)
    ensures
        held(storage) == Seq::<EntityId>::empty(),
{
    ChildStorage { items: SmallVec::new() }
}

/// `SmallVec::clone`: a store of its own that holds the same identifiers in
/// the same order.
#[verifier::external_body]
pub(crate) fn duplicate(storage: &ChildStorage) -> (copy: ChildStorage)
    ensures
        held(copy) == held(*storage),
{
    ChildStorage { items: storage.items.clone() }
}

/// `SmallVec::from_slice`: a store that holds a copy of the slice's elements,
/// in the slice's order.
#[verifier::external_body]
pub(crate) fn from_slice(slice: &[EntityId]) -> (storage: ChildStorage)
    ensures
        held(storage) == slice@,
{
    ChildStorage { items: SmallVec::from_slice(slice) }
}

/// `SmallVec::as_slice`: the held identifiers as a slice, in their order.
#[verifier::external_body]
pub(crate) fn as_slice(storage: &ChildStorage) -> (slice: &[EntityId])
    ensures
        slice@ == held(*storage),
{
    storage.items.as_slice()
}

/// `SmallVec::as_mut_slice`: the held identifiers as a mutable slice. What
/// the slice holds when the borrow ends is what the store holds from then on.
#[verifier::external_body]
pub(crate) fn as_mut_slice(storage: &mut ChildStorage) -> (slice: &mut [EntityId])
    ensures
        slice@ == held(*old(storage)),
        final(slice)@ == held(*final(storage)),
{
    storage.items.as_mut_slice()
}

/// `<[T]>::swap`: exchanges the elements at two positions of a slice and
/// leaves every other element in place. It panics when a position is out of
/// bounds, which `requires` rules out.
pub assume_specification<T>[ <[T]>::swap ](slice: &mut [T], a: usize, b: usize)
    requires
        a < old(slice)@.len(),
        b < old(slice)@.len(),
    ensures
        final(slice)@ == old(slice)@.update(a as int, old(slice)@[b as int]).update(
            b as int,
            old(slice)@[a as int],
        ),
;

} // verus!
