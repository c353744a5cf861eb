//! The end-of-tick broadcasters: the update delta and the delete
//! delta sent to every connected client.

use vstd::prelude::*;
use crate::world::{World, world_wf};

verus! {

/// Emits one update record per live entity at the end of the tick.
pub struct EntityStateBroadcaster;

impl EntityStateBroadcaster {
    /// The slots whose state the tick's update message carries: every
    /// live entity, in slot order, each at most once. A slot removed
    /// this tick is never among them — removal takes priority over
    /// update, so an entity created and removed in the same tick is
    /// reported only as removed and never appears to clients as having
    /// existed.
    pub fn state_delta(&self, world: &World) -> (r: Vec<usize>)
        requires
            world_wf(*world),
        ensures
            forall|x: usize| r@.contains(x) <==> x < world.entities@.len()
                && world.entities@[x as int].alive,
            forall|k1: int, k2: int| 0 <= k1 < k2 < r@.len() ==> #[trigger] r@[k1]
                < #[trigger] r@[k2],
            forall|x: usize| world.removed_this_tick@.contains(x) ==> !r@.contains(x),
    {
        let mut r: Vec<usize> = Vec::new();
        let mut i: usize = 0;
        while i < world.entities.len()
            invariant
                0 <= i <= world.entities@.len(),
                forall|x: usize| r@.contains(x) <==> x < i && world.entities@[x as int].alive,
                forall|k1: int, k2: int| 0 <= k1 < k2 < r@.len() ==> #[trigger] r@[k1]
                    < #[trigger] r@[k2],
                forall|k: int| 0 <= k < r@.len() ==> #[trigger] r@[k] < i,
            decreases world.entities@.len() - i,
        {
            if world.entities[i].alive {
                let ghost before = r@;
                r.push(i);
                proof {
                    assert forall|x: usize| #[trigger] r@.contains(x) implies x < i + 1
                        && world.entities@[x as int].alive by {
                        let k = choose|k: int| 0 <= k < r@.len() && r@[k] == x;
                        if k < before.len() {
                            assert(before[k] == x);
                            assert(before.contains(x));
                        }
                    }
                    assert forall|x: usize| x < i + 1 && world.entities@[x as int].alive implies
                        #[trigger] r@.contains(x) by {
                        if x < i {
                            assert(before.contains(x));
                            let k = choose|k: int| 0 <= k < before.len() && before[k] == x;
                            assert(r@[k] == x);
                        } else {
                            assert(r@[before.len() as int] == i);
                        }
                    }
                }
            }
            i += 1;
        }
        proof {
            assert forall|x: usize| world.removed_this_tick@.contains(x) implies !r@.contains(
                x,
            ) by {
                let k = choose|k: int| 0 <= k < world.removed_this_tick@.len()
                    && world.removed_this_tick@[k] == x;
            }
        }
        r
    }
}

/// Emits one delete record per entity removed this tick.
pub struct EntityDeleteBroadcaster;

impl EntityDeleteBroadcaster {
    /// The slots the tick's delete message names: exactly the entities
    /// removed this tick, in removal order. No slot appears twice —
    /// removing an already-removed entity was a no-op, so a single
    /// broadcast never names an entity twice.
    pub fn delete_delta(&self, world: &World) -> (r: Vec<usize>)
        requires
            world_wf(*world),
        ensures
            r@ == world.removed_this_tick@,
            forall|k1: int, k2: int| 0 <= k1 < k2 < r@.len() ==> #[trigger] r@[k1]
                != #[trigger] r@[k2],
    {
        let mut r: Vec<usize> = Vec::new();
        let mut i: usize = 0;
        while i < world.removed_this_tick.len()
            invariant
                0 <= i <= world.removed_this_tick@.len(),
                r@ == world.removed_this_tick@.take(i as int),
            decreases world.removed_this_tick@.len() - i,
        {
            r.push(world.removed_this_tick[i]);
            proof {
                assert(world.removed_this_tick@.take(i + 1)
                    =~= world.removed_this_tick@.take(i as int).push(
                    world.removed_this_tick@[i as int],
                ));
            }
            i += 1;
        }
        proof {
            assert(world.removed_this_tick@.take(world.removed_this_tick@.len() as int)
                =~= world.removed_this_tick@);
        }
        r
    }
}

} // verus!
