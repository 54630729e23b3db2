//! Sets of entity indices, kept in the hierarchical bit set of the `specs`
//! crate.
//!
//! The bit set is not verified here. The functions of this module are the
//! only ones that touch it, and each states what it takes from the bit set
//! as a fact about the set of indices that the bit set holds.

use specs::hibitset::BitSetLike;
use specs::BitSet;
use vstd::prelude::*;

verus! {

/// The bit set holds indices below this bound on every pointer width. An
/// entity index is valid where it is below it.
pub const MAX_ENTITIES: u32 = 1048576;

/// The bit set `specs::BitSet`, which is `hibitset::BitSet`. Nothing is known
/// of its inside; contracts speak of the indices that it holds.
#[verifier::external_type_specification]
#[verifier::external_body]
pub struct ExBitSet(BitSet);

/// The indices that a bit set holds.
pub uninterp spec fn bitset_members(set: BitSet) -> Set<u32>;

/// Whether the indices come in strictly increasing order.
pub open spec fn strictly_increasing(ids: Seq<u32>) -> bool {
    forall|i: int, j: int| 0 <= i < j < ids.len() ==> ids[i] < ids[j]
}

/// `BitSet::new`: the new set holds no index.
#[verifier::external_body]
pub(crate) fn bitset_new() -> (set: BitSet)
    ensures
        bitset_members(set) == Set::<u32>::empty(),
{
    BitSet::new()
}

/// `BitSet::add`: `id` joins the set, every other index stays in or out as
/// it was, and the result says whether `id` was in the set before the call.
/// The bit set panics on indices beyond its range, so those are left out.
#[verifier::external_body]
pub(crate) fn bitset_add(set: &mut BitSet, id: u32) -> (was_member: bool)
    requires
        id < MAX_ENTITIES,
    ensures
        bitset_members(*final(set)) == bitset_members(*old(set)).insert(id),
        was_member == bitset_members(*old(set)).contains(id),
{
    set.add(id)
}

/// `BitSet::remove`: `id` leaves the set, every other index stays in or out
/// as it was, and the result says whether `id` was in the set before the
/// call.
#[verifier::external_body]
pub(crate) fn bitset_remove(set: &mut BitSet, id: u32) -> (was_member: bool)
    ensures
        bitset_members(*final(set)) == bitset_members(*old(set)).remove(id),
        was_member == bitset_members(*old(set)).contains(id),
{
    set.remove(id)
}

/// `BitSet::contains`: whether `id` is in the set.
#[verifier::external_body]
pub(crate) fn bitset_contains(set: &BitSet, id: u32) -> (member: bool)
    ensures
        member == bitset_members(*set).contains(id),
{
    set.contains(id)
}

/// `BitSet::clear`: the set holds no index afterwards.
#[verifier::external_body]
pub(crate) fn bitset_clear(set: &mut BitSet)
    ensures
        bitset_members(*final(set)) == Set::<u32>::empty(),
{
    set.clear()
}

/// `BitSetLike::iter`, collected: the indices that the set holds, each once,
/// in increasing order.
#[verifier::external_body]
pub(crate) fn bitset_to_vec(set: &BitSet) -> (ids: Vec<u32>)
    ensures
        strictly_increasing(ids@),
        forall|id: u32| ids@.contains(id) <==> bitset_members(*set).contains(id),
{
    set.iter().collect()
}

} // verus!
