//! The attention schedule of the NPCs: each entry is the tick at which an NPC
//! is next due to look at the market. Popping the due entries yields each due
//! NPC once, in id order; an entry whose tick no longer matches the NPC's
//! current schedule is stale and dropped.
use vstd::prelude::*;

use std::collections::BTreeMap;

use crate::ids::AccountId;

verus! {

broadcast use {vstd::laws_cmp::group_laws_cmp, vstd::std_specs::btree::group_btree_axioms};

/// The entries that are not yet due at `tick`, in order.
pub open spec fn not_due(queue: Seq<(u64, AccountId)>, tick: u64) -> Seq<(u64, AccountId)>
    decreases queue.len(),
{
    if queue.len() == 0 {
        queue
    } else if queue.last().0 > tick {
        not_due(queue.drop_last(), tick).push(queue.last())
    } else {
        not_due(queue.drop_last(), tick)
    }
}

/// Entry `e` is due at `tick` and still the NPC's current schedule.
pub open spec fn is_due(e: (u64, AccountId), next_tick: Map<u64, u64>, tick: u64) -> bool {
    e.0 <= tick && next_tick.contains_key(e.1.0) && next_tick[e.1.0] == e.0
}

/// Strictly increasing ids.
pub open spec fn ids_increasing(ids: Seq<AccountId>) -> bool {
    forall|i: int, j: int| 0 <= i < j < ids.len() ==> (#[trigger] ids[i]).0 < (#[trigger] ids[j]).0
}

fn insert_id(ids: &mut Vec<AccountId>, id: AccountId)
    requires
        ids_increasing(old(ids)@),
    ensures
        ids_increasing(final(ids)@),
        forall|x: AccountId| #[trigger] final(ids)@.contains(x) <==> (old(ids)@.contains(x) || x == id),
{
    let mut i: usize = 0;
    while i < ids.len() && ids[i].0 < id.0
        invariant
            0 <= i <= ids@.len(),
            ids@ == old(ids)@,
            ids_increasing(ids@),
            forall|j: int| 0 <= j < i ==> (#[trigger] ids@[j]).0 < id.0,
        decreases ids@.len() - i,
    {
        i += 1;
    }
    if i < ids.len() && ids[i].0 == id.0 {
        assert(ids@[i as int] == id);
        return;
    }
    let ghost before = ids@;
    ids.insert(i, id);
    assert(ids@ =~= before.take(i as int).push(id) + before.skip(i as int));
    assert forall|a: int, b: int| 0 <= a < b < ids@.len() implies (#[trigger] ids@[a]).0 < (#[trigger] ids@[b]).0 by {
        if b < i {
            assert(ids@[a] == before[a] && ids@[b] == before[b]);
        } else if b == i {
            assert(ids@[a] == before[a]);
        } else if a < i {
            assert(ids@[a] == before[a] && ids@[b] == before[b - 1]);
            assert(before[b - 1].0 > id.0 || before[b - 1].0 == id.0) by {
                if i < before.len() {
                    assert(before[i as int].0 >= id.0);
                    if b - 1 > i {
                        assert(before[i as int].0 < before[b - 1].0);
                    }
                }
            }
        } else if a == i {
            assert(ids@[b] == before[b - 1]);
            if b - 1 > i {
                assert(before[i as int].0 < before[b - 1].0);
            }
        } else {
            assert(ids@[a] == before[a - 1] && ids@[b] == before[b - 1]);
        }
    }
    assert forall|x: AccountId| #[trigger] ids@.contains(x) <==> (before.contains(x) || x == id) by {
        if ids@.contains(x) {
            let k = choose|k: int| 0 <= k < ids@.len() && ids@[k] == x;
            if k < i {
                assert(before[k] == x);
            } else if k > i {
                assert(before[k - 1] == x);
            }
        }
        if before.contains(x) {
            let k = choose|k: int| 0 <= k < before.len() && before[k] == x;
            if k < i {
                assert(ids@[k] == x);
            } else {
                assert(ids@[k + 1] == x);
            }
        }
        if x == id {
            assert(ids@[i as int] == x);
        }
    }
}

/// Pops the entries due at `tick` from the schedule and returns the NPCs
/// whose current schedule they are, each once, in id order. `next_tick`
/// maps an NPC's id to the tick of its current schedule.
pub fn pop_due_npc_ids(queue: &mut Vec<(u64, AccountId)>, next_tick: &BTreeMap<u64, u64>, tick: u64) -> (due: Vec<
    AccountId,
>)
    ensures
        final(queue)@ == not_due(old(queue)@, tick),
        ids_increasing(due@),
        forall|id: AccountId| #[trigger]
            due@.contains(id) <==> exists|i: int|
                0 <= i < old(queue)@.len() && #[trigger] is_due(old(queue)@[i], next_tick@, tick) && old(
                    queue,
                )@[i].1 == id,
{
    let ghost q0 = queue@;
    let mut due: Vec<AccountId> = Vec::new();
    let mut kept: Vec<(u64, AccountId)> = Vec::new();
    let mut i: usize = 0;
    while i < queue.len()
        invariant
            0 <= i <= queue@.len(),
            queue@ == q0,
            kept@ == not_due(q0.take(i as int), tick),
            ids_increasing(due@),
            forall|id: AccountId| #[trigger]
                due@.contains(id) <==> exists|k: int|
                    0 <= k < i && #[trigger] is_due(q0[k], next_tick@, tick) && q0[k].1 == id,
        decreases queue@.len() - i,
    {
        proof {
            assert(q0.take(i + 1).drop_last() =~= q0.take(i as int));
            assert(q0.take(i + 1).last() == q0[i as int]);
        }
        let (at, id) = queue[i];
        let ghost due_before = due@;
        let mut inserted = false;
        if at > tick {
            kept.push((at, id));
        } else {
            let current = match next_tick.get(&id.0) {
                Some(t) => *t == at,
                None => false,
            };
            if current {
                insert_id(&mut due, id);
                inserted = true;
            }
        }
        proof {
            assert(q0[i as int] == (at, id));
            assert(inserted == is_due(q0[i as int], next_tick@, tick));
            assert(!inserted ==> due@ == due_before);
            assert forall|x: AccountId| #[trigger]
                due@.contains(x) <==> exists|k: int|
                    0 <= k < i + 1 && #[trigger] is_due(q0[k], next_tick@, tick) && q0[k].1 == x by {
                if due@.contains(x) {
                    if due_before.contains(x) {
                        let k = choose|k: int| 0 <= k < i && #[trigger] is_due(q0[k], next_tick@, tick) && q0[k].1 == x;
                        assert(0 <= k < i + 1 && is_due(q0[k], next_tick@, tick) && q0[k].1 == x);
                    } else {
                        assert(inserted && x == id);
                        assert(is_due(q0[i as int], next_tick@, tick) && q0[i as int].1 == x);
                    }
                }
                if exists|k: int| 0 <= k < i + 1 && #[trigger] is_due(q0[k], next_tick@, tick) && q0[k].1 == x {
                    let k = choose|k: int| 0 <= k < i + 1 && #[trigger] is_due(q0[k], next_tick@, tick) && q0[k].1 == x;
                    if k < i {
                        assert(due_before.contains(x));
                    } else {
                        assert(inserted);
                    }
                }
            }
        }
        i += 1;
    }
    assert(q0.take(q0.len() as int) =~= q0);
    *queue = kept;
    due
}

} // verus!
