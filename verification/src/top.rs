//! The greatest ids of a set, from the greatest down: the order in which a
//! listing of tasks shows them.

use vstd::prelude::*;
use roaring::RoaringBitmap;
use crate::bitmap::{bitmap_max, bitmap_remove, ids, is_greatest};

verus! {

/// Whether a set holds no id.
pub open spec fn is_void(set: Set<u32>) -> bool {
    forall|id: u32| !set.contains(id)
}

/// The greatest id of a set that holds one.
pub open spec fn greatest(set: Set<u32>) -> u32 {
    choose|top: u32| is_greatest(set, top)
}

/// The `count` greatest ids of `set`, from the greatest down; all of them
/// when the set holds fewer.
pub open spec fn highest(set: Set<u32>, count: nat) -> Seq<u32>
    decreases count,
{
    if count == 0 || is_void(set) {
        Seq::empty()
    } else {
        seq![greatest(set)] + highest(set.remove(greatest(set)), (count - 1) as nat)
    }
}

/// A set has one greatest id at most.
pub proof fn lemma_greatest_is_unique(set: Set<u32>, top: u32)
    requires
        is_greatest(set, top),
    ensures
        greatest(set) == top,
{
    let chosen = greatest(set);
    assert(is_greatest(set, chosen));
    assert(chosen <= top && top <= chosen);
}

/// What `highest` selects: at most `count` ids, all of the set, each
/// smaller than the one before; and an id of the set is left out only when
/// `count` ids were selected and it is smaller than all of them.
pub proof fn law_highest(set: Set<u32>, count: nat)
    ensures
        highest(set, count).len() <= count,
        forall|i: int| 0 <= i < highest(set, count).len() ==> set.contains(#[trigger] highest(set, count)[i]),
        forall|i: int, j: int|
            0 <= i < j < highest(set, count).len() ==> highest(set, count)[i] > highest(set, count)[j],
        forall|id: u32|
            set.contains(id) && !highest(set, count).contains(id) ==> highest(set, count).len()
                == count && forall|i: int|
                0 <= i < highest(set, count).len() ==> id < #[trigger] highest(set, count)[i],
    decreases count,
{
    let list = highest(set, count);
    if count == 0 || is_void(set) {
        assert(list.len() == 0);
        if count != 0 {
            assert forall|id: u32| !set.contains(id) by {}
        }
    } else {
        let id0 = choose|id: u32| set.contains(id);
        assert(set.contains(id0));
        lemma_u32_set_has_greatest(set, id0);
        let top = greatest(set);
        assert(is_greatest(set, top));
        let rest_set = set.remove(top);
        let rest = highest(rest_set, (count - 1) as nat);
        law_highest(rest_set, (count - 1) as nat);
        assert(list =~= seq![top] + rest);
        assert(list[0] == top);
        assert forall|i: int| 0 < i < list.len() implies list[i] == rest[i - 1] by {}
        assert forall|i: int| 0 <= i < list.len() implies set.contains(#[trigger] list[i]) by {
            if i > 0 {
                assert(rest_set.contains(rest[i - 1]));
            }
        }
        assert forall|i: int, j: int| 0 <= i < j < list.len() implies list[i] > list[j] by {
            assert(rest_set.contains(rest[j - 1]));
            if i > 0 {
                assert(rest[i - 1] > rest[j - 1]);
            }
        }
        assert forall|id: u32| set.contains(id) && !list.contains(id) implies list.len() == count
            && forall|i: int| 0 <= i < list.len() ==> id < #[trigger] list[i] by {
            assert(id != top) by {
                if id == top {
                    assert(list[0] == id);
                }
            }
            assert(rest_set.contains(id));
            if rest.contains(id) {
                let k = choose|k: int| 0 <= k < rest.len() && rest[k] == id;
                assert(list[k + 1] == id);
            }
            assert forall|i: int| 0 <= i < list.len() implies id < #[trigger] list[i] by {
                if i > 0 {
                    assert(id < rest[i - 1]);
                }
            }
        }
    }
}

/// A set of ids that holds an id has a greatest one.
pub proof fn lemma_u32_set_has_greatest(set: Set<u32>, member: u32)
    requires
        set.contains(member),
    ensures
        is_greatest(set, greatest(set)),
    decreases u32::MAX - member,
{
    if exists|id: u32| set.contains(id) && id > member {
        let above = choose|id: u32| set.contains(id) && id > member;
        lemma_u32_set_has_greatest(set, above);
    } else {
        assert(is_greatest(set, member));
    }
}

/// The `limit` greatest ids that a bitmap holds, from the greatest down.
pub fn take_highest(bitmap: RoaringBitmap, limit: u32) -> (list: Vec<u32>)
    ensures
        list@ == highest(ids(bitmap), limit as nat),
{
    let mut rest = bitmap;
    let mut list: Vec<u32> = Vec::new();
    let mut more = true;
    let mut taken: u32 = 0;
    while more && taken < limit
        invariant
            taken <= limit,
            taken == list.len(),
            list@ + highest(ids(rest), (limit - taken) as nat) == highest(
                ids(bitmap),
                limit as nat,
            ),
            !more ==> is_void(ids(rest)),
        decreases (if more { 1int } else { 0int }), limit - taken,
    {
        match bitmap_max(&rest) {
            Some(top) => {
                let ghost before = ids(rest);
                let ghost shown = list@;
                proof {
                    lemma_greatest_is_unique(before, top);
                    assert(!is_void(before));
                }
                let _ = bitmap_remove(&mut rest, top);
                list.push(top);
                taken += 1;
                proof {
                    let tail = highest(before.remove(top), (limit - taken) as nat);
                    assert(highest(before, (limit - taken + 1) as nat) == seq![top] + tail);
                    assert(list@ + tail =~= shown + (seq![top] + tail));
                }
            },
            None => {
                more = false;
            },
        }
    }
    proof {
        assert(highest(ids(rest), (limit - taken) as nat) =~= Seq::<u32>::empty());
        assert(list@ + Seq::<u32>::empty() =~= list@);
    }
    list
}

} // verus!
