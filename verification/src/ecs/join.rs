//! Walking the entities that have several things at once, in increasing
//! order of their indices.

use crate::ecs::bitset::{bitset_members, bitset_to_vec, strictly_increasing};
use crate::ecs::storage::ComponentStore;
use specs::BitSet;
use vstd::prelude::*;

verus! {

/// The members of `members` below `bound`, in increasing order.
pub open spec fn ascending_below(members: Set<u32>, bound: int) -> Seq<u32>
    decreases bound,
{
    if bound <= 0 {
        Seq::empty()
    } else if members.contains((bound - 1) as u32) {
        ascending_below(members, bound - 1).push((bound - 1) as u32)
    } else {
        ascending_below(members, bound - 1)
    }
}

/// The members of `members`, in increasing order.
pub open spec fn ascending(members: Set<u32>) -> Seq<u32> {
    ascending_below(members, 0x1_0000_0000)
}

/// What `ascending_below` holds: the members below the bound, each once,
/// in increasing order.
pub proof fn lemma_ascending_below(members: Set<u32>, bound: int)
    requires
        0 <= bound <= 0x1_0000_0000,
    ensures
        strictly_increasing(ascending_below(members, bound)),
        forall|id: u32|
            #![trigger ascending_below(members, bound).contains(id)]
            #![trigger members.contains(id)]
            ascending_below(members, bound).contains(id) <==> members.contains(id) && id < bound,
    decreases bound,
{
    if bound > 0 {
        lemma_ascending_below(members, bound - 1);
        let rest = ascending_below(members, bound - 1);
        let all = ascending_below(members, bound);
        let top = (bound - 1) as u32;
        if members.contains(top) {
            assert forall|i: int, j: int| 0 <= i < j < all.len() implies all[i] < all[j] by {
                assert(all[i] == rest[i]);
                if j == rest.len() {
                    assert(rest.contains(rest[i]));
                    assert(rest[i] < bound - 1);
                    assert(all[j] == top);
                } else {
                    assert(all[j] == rest[j]);
                }
            }
            assert forall|id: u32| all.contains(id) <==> members.contains(id) && id < bound by {
                if all.contains(id) {
                    let i = choose|i: int| 0 <= i < all.len() && all[i] == id;
                    if i < rest.len() {
                        assert(rest.contains(id));
                    }
                }
                if members.contains(id) && id < bound {
                    if id == top {
                        assert(all[rest.len() as int] == id);
                    } else {
                        assert(rest.contains(id));
                        let i = choose|i: int| 0 <= i < rest.len() && rest[i] == id;
                        assert(all[i] == id);
                    }
                }
            }
        } else {
            assert forall|id: u32| all.contains(id) <==> members.contains(id) && id < bound by {
            }
        }
    }
}

/// There is one way only to list the members of a set in increasing order.
pub proof fn lemma_ascending_unique(ids: Seq<u32>, members: Set<u32>, bound: int)
    requires
        0 <= bound <= 0x1_0000_0000,
        strictly_increasing(ids),
        forall|id: u32|
            #![trigger ids.contains(id)]
            #![trigger members.contains(id)]
            ids.contains(id) <==> members.contains(id) && id < bound,
    ensures
        ids == ascending_below(members, bound),
    decreases bound,
{
    if bound == 0 {
        if ids.len() > 0 {
            assert(ids.contains(ids[0]));
        }
        assert(ids =~= ascending_below(members, bound));
    } else {
        let top = (bound - 1) as u32;
        if members.contains(top) {
            assert(ids.contains(top));
            let at = choose|i: int| 0 <= i < ids.len() && ids[i] == top;
            if at < ids.len() - 1 {
                assert(ids.contains(ids[at + 1]));
            }
            let rest = ids.drop_last();
            assert forall|id: u32| rest.contains(id) <==> members.contains(id) && id < bound
                - 1 by {
                if rest.contains(id) {
                    let i = choose|i: int| 0 <= i < rest.len() && rest[i] == id;
                    assert(ids[i] == id);
                    assert(ids.contains(id));
                }
                if members.contains(id) && id < bound - 1 {
                    assert(ids.contains(id));
                    let i = choose|i: int| 0 <= i < ids.len() && ids[i] == id;
                    assert(rest[i] == id);
                }
            }
            lemma_ascending_unique(rest, members, bound - 1);
            assert(ids =~= rest.push(top));
        } else {
            assert forall|id: u32| ids.contains(id) <==> members.contains(id) && id < bound
                - 1 by {
            }
            lemma_ascending_unique(ids, members, bound - 1);
        }
    }
}

/// No index occurs twice in a list in increasing order.
pub proof fn lemma_ascending_no_duplicates(members: Set<u32>)
    ensures
        ascending(members).no_duplicates(),
        forall|id: u32|
            #![trigger ascending(members).contains(id)]
            #![trigger members.contains(id)]
            ascending(members).contains(id) <==> members.contains(id),
{
    lemma_ascending_below(members, 0x1_0000_0000);
}

/// The indices that `set` holds, in increasing order.
pub fn sorted_members(set: &BitSet) -> (ids: Vec<u32>)
    ensures
        ids@ == ascending(bitset_members(*set)),
{
    let ids = bitset_to_vec(set);
    proof {
        lemma_ascending_unique(ids@, bitset_members(*set), 0x1_0000_0000);
    }
    ids
}

/// Those of `ids` that have a component in `store`, in the same order.
pub fn retain_present<T>(ids: &Vec<u32>, store: &ComponentStore<T>) -> (kept: Vec<u32>)
    requires
        strictly_increasing(ids@),
    ensures
        strictly_increasing(kept@),
        forall|id: u32|
            #![trigger kept@.contains(id)]
            #![trigger ids@.contains(id)]
            kept@.contains(id) <==> ids@.contains(id) && store@.contains_key(id),
{
    let mut kept: Vec<u32> = Vec::new();
    let mut i: usize = 0;
    while i < ids.len()
        invariant
            0 <= i <= ids@.len(),
            strictly_increasing(ids@),
            strictly_increasing(kept@),
            forall|id: u32|
                kept@.contains(id) <==> (exists|j: int| 0 <= j < i && ids@[j] == id)
                    && store@.contains_key(id),
            kept@.len() > 0 && i < ids@.len() ==> kept@[kept@.len() - 1] < ids@[i as int],
        decreases ids@.len() - i,
    {
        let id = ids[i];
        if store.contains(id) {
            let ghost before = kept@;
            kept.push(id);
            proof {
                assert forall|a: int, b: int| 0 <= a < b < kept@.len() implies kept@[a]
                    < kept@[b] by {
                    assert(kept@[a] == before[a]);
                    if b == before.len() {
                        if a < before.len() - 1 {
                            assert(before[a] < before[before.len() - 1]);
                        }
                    } else {
                        assert(kept@[b] == before[b]);
                    }
                }
                assert forall|x: u32|
                    kept@.contains(x) <==> (exists|j: int| 0 <= j < i + 1 && ids@[j] == x)
                        && store@.contains_key(x) by {
                    if kept@.contains(x) {
                        let k = choose|k: int| 0 <= k < kept@.len() && kept@[k] == x;
                        if k < before.len() {
                            assert(before[k] == x);
                            assert(before.contains(x));
                        } else {
                            assert(ids@[i as int] == x);
                        }
                    }
                    if (exists|j: int| 0 <= j < i + 1 && ids@[j] == x) && store@.contains_key(x) {
                        let j = choose|j: int| 0 <= j < i + 1 && ids@[j] == x;
                        if j < i {
                            assert(before.contains(x));
                            let k = choose|k: int| 0 <= k < before.len() && before[k] == x;
                            assert(kept@[k] == x);
                        } else {
                            assert(kept@[before.len() as int] == x);
                        }
                    }
                }
            }
        } else {
            proof {
                assert forall|x: u32|
                    kept@.contains(x) <==> (exists|j: int| 0 <= j < i + 1 && ids@[j] == x)
                        && store@.contains_key(x) by {
                    if (exists|j: int| 0 <= j < i + 1 && ids@[j] == x) && store@.contains_key(x) {
                        let j = choose|j: int| 0 <= j < i + 1 && ids@[j] == x;
                        assert(j < i);
                    }
                }
            }
        }
        i += 1;
    }
    proof {
        assert forall|id: u32| kept@.contains(id) <==> ids@.contains(id) && store@.contains_key(
            id,
        ) by {
            if kept@.contains(id) {
                let j = choose|j: int| 0 <= j < ids@.len() && ids@[j] == id;
                assert(ids@.contains(id));
            }
            if ids@.contains(id) && store@.contains_key(id) {
                let j = choose|j: int| 0 <= j < ids@.len() && ids@[j] == id;
            }
        }
    }
    kept
}

} // verus!
