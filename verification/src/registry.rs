//! Identity and mount bookkeeping: the engine-lifetime registry of
//! instance ids, the mounted set keyed by id chain, per-instance unmount
//! requests, the monotonic id counter, and the per-tick cache of expanded
//! nodes in traversal order.
//!
//! An id chain is the dynamic address of one expansion: the instance id
//! followed by the repeat indices of every enclosing iteration scope.

use vstd::prelude::*;
use crate::math::TransformAndBounds;
use crate::messages::NodeState;

verus! {

/// One dynamic node of the current tick: an instance node expanded under
/// a particular chain of repeat indices, with its computed geometry.
#[derive(Clone)]
pub struct ExpandedNode {
    /// The unique dynamic address: instance id, then repeat indices.
    pub id_chain: Vec<u64>,
    /// The arena index of the instance node this expands.
    pub instance_index: usize,
    /// The instance id of that node.
    pub instance_id: u64,
    /// The cache index of the dynamic parent, for bubbling and clip
    /// checks; the root has none.
    pub parent: Option<usize>,
    /// The accumulated transform and computed size.
    pub tab: TransformAndBounds,
    /// The render layer this node was assigned, bottom-up.
    pub z_index: u64,
    /// Whether this node clips its descendants.
    pub clipping: bool,
    /// Whether ray casting must skip this node itself.
    pub invisible_to_raycasting: bool,
    /// Whether the node's geometry stayed representable; a node whose
    /// geometry overflowed falls back to the degenerate empty box.
    pub geometry_valid: bool,
    /// Whether this node, or an ancestor, was flagged for unmount.
    pub marked_for_unmount: bool,
    /// The observable native-bridge state, for native-rendered kinds.
    pub native_state: Option<NodeState>,
    /// The scope this node's properties were pulled under.
    pub scope_view: Ghost<crate::property::ScopeView>,
}

/// Whether a set of id chains holds `c`.
pub open spec fn chains_contain(s: Seq<Vec<u64>>, c: Seq<u64>) -> bool {
    exists|i: int| 0 <= i < s.len() && #[trigger] s[i]@ == c
}

/// Whether two chains are the same address.
pub fn chains_equal(a: &Vec<u64>, b: &Vec<u64>) -> (r: bool)
    ensures
        r == (a@ == b@),
{
    if a.len() != b.len() {
        proof {
            assert(a@ != b@);
        }
        return false;
    }
    let n = a.len();
    let mut i: usize = 0;
    while i < n
        invariant
            i <= n,
            n == a@.len(),
            n == b@.len(),
            forall|j: int| 0 <= j < i ==> a@[j] == b@[j],
        decreases n - i,
    {
        if a[i] != b[i] {
            return false;
        }
        i = i + 1;
    }
    proof {
        assert(a@ =~= b@);
    }
    true
}

/// The engine-lifetime registry: instance lookup, the mounted set, the
/// per-instance unmount-request set, the per-tick expanded-node cache,
/// and the id counter.
pub struct InstanceRegistry {
    /// Instance id to arena index.
    pub instance_map: Vec<(u64, usize)>,
    /// The per-tick cache of expanded nodes, in traversal order;
    /// authoritative only within the tick that filled it.
    pub repeat_expanded_node_cache: Vec<ExpandedNode>,
    /// The id chains currently mounted.
    pub mounted_set: Vec<Vec<u64>>,
    /// The instance ids flagged for unmount this tick.
    pub marked_for_unmount_set: Vec<u64>,
    /// The next id to mint; ids increase monotonically, never reused.
    pub next_id: u64,
}

impl InstanceRegistry {
    /// An empty registry with the counter at zero.
    pub fn new() -> (r: InstanceRegistry)
        ensures
            r.instance_map@.len() == 0,
            r.repeat_expanded_node_cache@.len() == 0,
            r.mounted_set@.len() == 0,
            r.marked_for_unmount_set@.len() == 0,
            r.next_id == 0,
    {
        InstanceRegistry {
            instance_map: Vec::new(),
            repeat_expanded_node_cache: Vec::new(),
            mounted_set: Vec::new(),
            marked_for_unmount_set: Vec::new(),
            next_id: 0,
        }
    }

    /// Mint a fresh instance id: monotonically increasing, assigned once,
    /// never reused.
    pub fn mint_id(&mut self) -> (r: u64)
        requires
            old(self).next_id < u64::MAX,
        ensures
            r == old(self).next_id,
            final(self).next_id == old(self).next_id + 1,
            final(self).instance_map == old(self).instance_map,
            final(self).repeat_expanded_node_cache == old(self).repeat_expanded_node_cache,
            final(self).mounted_set == old(self).mounted_set,
            final(self).marked_for_unmount_set == old(self).marked_for_unmount_set,
    {
        let new_id = self.next_id;
        self.next_id = self.next_id + 1;
        new_id
    }

    /// Record which arena index an instance id names.
    pub fn register(&mut self, instance_id: u64, node_index: usize)
        ensures
            final(self).instance_map@ == old(self).instance_map@.push((instance_id, node_index)),
            final(self).repeat_expanded_node_cache == old(self).repeat_expanded_node_cache,
            final(self).mounted_set == old(self).mounted_set,
            final(self).marked_for_unmount_set == old(self).marked_for_unmount_set,
            final(self).next_id == old(self).next_id,
    {
        self.instance_map.push((instance_id, node_index));
    }

    /// Forget an instance id.
    pub fn deregister(&mut self, instance_id: u64)
        ensures
            final(self).instance_map@ == old(self).instance_map@.filter(
                |p: (u64, usize)| p.0 != instance_id,
            ),
            final(self).repeat_expanded_node_cache == old(self).repeat_expanded_node_cache,
            final(self).mounted_set == old(self).mounted_set,
            final(self).marked_for_unmount_set == old(self).marked_for_unmount_set,
            final(self).next_id == old(self).next_id,
    {
        let mut kept: Vec<(u64, usize)> = Vec::new();
        let n = self.instance_map.len();
        let mut i: usize = 0;
        proof {
            reveal(Seq::filter);
            assert(self.instance_map@.take(0).filter(|p: (u64, usize)| p.0 != instance_id)
                =~= kept@);
        }
        while i < n
            invariant
                i <= n,
                n == self.instance_map@.len(),
                kept@ == self.instance_map@.take(i as int).filter(
                    |p: (u64, usize)| p.0 != instance_id,
                ),
            decreases n - i,
        {
            proof {
                reveal(Seq::filter);
                assert(self.instance_map@.take(i as int + 1).drop_last()
                    =~= self.instance_map@.take(i as int));
                assert(self.instance_map@.take(i as int + 1).last()
                    == self.instance_map@[i as int]);
            }
            if self.instance_map[i].0 != instance_id {
                let entry = self.instance_map[i];
                kept.push(entry);
            }
            proof {
                reveal(Seq::filter);
                assert(kept@ =~= self.instance_map@.take(i as int + 1).filter(
                    |p: (u64, usize)| p.0 != instance_id,
                ));
            }
            i = i + 1;
        }
        proof {
            assert(self.instance_map@.take(n as int) =~= self.instance_map@);
        }
        self.instance_map = kept;
    }

    /// Whether this id chain is currently mounted.
    pub fn is_mounted(&self, id_chain: &Vec<u64>) -> (r: bool)
        ensures
            r == chains_contain(self.mounted_set@, id_chain@),
    {
        let n = self.mounted_set.len();
        let mut i: usize = 0;
        while i < n
            invariant
                i <= n,
                n == self.mounted_set@.len(),
                forall|j: int| 0 <= j < i ==> #[trigger] self.mounted_set@[j]@ != id_chain@,
            decreases n - i,
        {
            if chains_equal(&self.mounted_set[i], id_chain) {
                return true;
            }
            i = i + 1;
        }
        false
    }

    /// Mark this id chain mounted; marking an already-mounted chain
    /// changes nothing.
    pub fn mark_mounted(&mut self, id_chain: Vec<u64>)
        ensures
            forall|c: Seq<u64>|
                #[trigger] chains_contain(final(self).mounted_set@, c) == (chains_contain(
                    old(self).mounted_set@,
                    c,
                ) || c == id_chain@),
            final(self).instance_map == old(self).instance_map,
            final(self).repeat_expanded_node_cache == old(self).repeat_expanded_node_cache,
            final(self).marked_for_unmount_set == old(self).marked_for_unmount_set,
            final(self).next_id == old(self).next_id,
    {
        if !self.is_mounted(&id_chain) {
            let ghost prev = self.mounted_set@;
            self.mounted_set.push(id_chain);
            proof {
                assert forall|c: Seq<u64>|
                    #[trigger] chains_contain(self.mounted_set@, c) == (chains_contain(prev, c)
                        || c == id_chain@) by {
                    if chains_contain(prev, c) {
                        let i = choose|i: int| 0 <= i < prev.len() && prev[i]@ == c;
                        assert(self.mounted_set@[i]@ == c);
                    }
                    if c == id_chain@ {
                        assert(self.mounted_set@[self.mounted_set@.len() - 1]@ == c);
                    }
                    if chains_contain(self.mounted_set@, c) {
                        let i = choose|i: int|
                            0 <= i < self.mounted_set@.len() && self.mounted_set@[i]@ == c;
                        if i < prev.len() {
                            assert(prev[i]@ == c);
                        }
                    }
                }
            }
        } else {
            proof {
                assert forall|c: Seq<u64>|
                    #[trigger] chains_contain(self.mounted_set@, c) == (chains_contain(
                        self.mounted_set@,
                        c,
                    ) || c == id_chain@) by {
                    if c == id_chain@ {
                        assert(chains_contain(self.mounted_set@, c));
                    }
                }
            }
        }
    }

    /// Clear the mounted state of this id chain; the next tick that
    /// expands it re-fires its mount.
    pub fn clear_mounted(&mut self, id_chain: &Vec<u64>)
        ensures
            forall|c: Seq<u64>|
                #[trigger] chains_contain(final(self).mounted_set@, c) == (chains_contain(
                    old(self).mounted_set@,
                    c,
                ) && c != id_chain@),
            final(self).instance_map == old(self).instance_map,
            final(self).repeat_expanded_node_cache == old(self).repeat_expanded_node_cache,
            final(self).marked_for_unmount_set == old(self).marked_for_unmount_set,
            final(self).next_id == old(self).next_id,
    {
        let mut kept: Vec<Vec<u64>> = Vec::new();
        let n = self.mounted_set.len();
        let mut i: usize = 0;
        while i < n
            invariant
                i <= n,
                n == self.mounted_set@.len(),
                forall|k: int|
                    0 <= k < kept@.len() ==> #[trigger] kept@[k]@ != id_chain@ && chains_contain(
                        self.mounted_set@,
                        kept@[k]@,
                    ),
                forall|k: int|
                    0 <= k < i && #[trigger] self.mounted_set@[k]@ != id_chain@ ==> chains_contain(
                        kept@,
                        self.mounted_set@[k]@,
                    ),
            decreases n - i,
        {
            if !chains_equal(&self.mounted_set[i], id_chain) {
                let entry = self.mounted_set[i].clone();
                let ghost pk = kept@;
                kept.push(entry);
                proof {
                    assert(kept@.last()@ == self.mounted_set@[i as int]@);
                    assert(forall|k: int|
                        0 <= k < pk.len() ==> #[trigger] kept@[k]@ == pk[k]@);
                    assert forall|k: int|
                        0 <= k < i + 1 && #[trigger] self.mounted_set@[k]@ != id_chain@ implies
                    chains_contain(kept@, self.mounted_set@[k]@) by {
                        if k < i {
                            let j = choose|j: int|
                                0 <= j < pk.len() && pk[j]@ == self.mounted_set@[k]@;
                            assert(kept@[j]@ == self.mounted_set@[k]@);
                        } else {
                            assert(kept@[kept@.len() - 1]@ == self.mounted_set@[k]@);
                        }
                    }
                }
            }
            i = i + 1;
        }
        let ghost old_mounted = self.mounted_set@;
        self.mounted_set = kept;
        proof {
            assert forall|c: Seq<u64>|
                #[trigger] chains_contain(self.mounted_set@, c) == (chains_contain(old_mounted, c)
                    && c != id_chain@) by {
                if chains_contain(self.mounted_set@, c) {
                    let j = choose|j: int|
                        0 <= j < self.mounted_set@.len() && self.mounted_set@[j]@ == c;
                }
                if chains_contain(old_mounted, c) && c != id_chain@ {
                    let j = choose|j: int| 0 <= j < old_mounted.len() && old_mounted[j]@ == c;
                }
            }
        }
    }

    /// Flag an instance for unmount: every current expansion of it
    /// inherits the flag for the tick.
    pub fn mark_for_unmount(&mut self, instance_id: u64)
        ensures
            forall|x: u64|
                final(self).marked_for_unmount_set@.contains(x) == (old(self).marked_for_unmount_set@.contains(x) || x == instance_id),
            final(self).instance_map == old(self).instance_map,
            final(self).repeat_expanded_node_cache == old(self).repeat_expanded_node_cache,
            final(self).mounted_set == old(self).mounted_set,
            final(self).next_id == old(self).next_id,
    {
        if !self.is_marked_for_unmount(instance_id) {
            let ghost prev = self.marked_for_unmount_set@;
            self.marked_for_unmount_set.push(instance_id);
            proof {
                assert forall|x: u64| prev.contains(x) implies #[trigger] self.marked_for_unmount_set@.contains(
                    x,
                ) by {
                    let j = choose|j: int| 0 <= j < prev.len() && prev[j] == x;
                    assert(self.marked_for_unmount_set@[j] == x);
                }
                assert(self.marked_for_unmount_set@.last() == instance_id);
                assert forall|x: u64|
                    self.marked_for_unmount_set@.contains(x) implies (prev.contains(x) || x
                    == instance_id) by {
                    let j = choose|j: int|
                        0 <= j < self.marked_for_unmount_set@.len()
                            && self.marked_for_unmount_set@[j] == x;
                    if j < prev.len() {
                        assert(prev[j] == x);
                    }
                }
            }
        }
    }

    /// Whether an instance is flagged for unmount this tick.
    pub fn is_marked_for_unmount(&self, instance_id: u64) -> (r: bool)
        ensures
            r == self.marked_for_unmount_set@.contains(instance_id),
    {
        let n = self.marked_for_unmount_set.len();
        let mut i: usize = 0;
        while i < n
            invariant
                i <= n,
                n == self.marked_for_unmount_set@.len(),
                forall|j: int| 0 <= j < i ==> self.marked_for_unmount_set@[j] != instance_id,
            decreases n - i,
        {
            if self.marked_for_unmount_set[i] == instance_id {
                return true;
            }
            i = i + 1;
        }
        false
    }

    /// Drop every unmount request; the flag resets after each tick.
    pub fn clear_unmount_marks(&mut self)
        ensures
            final(self).marked_for_unmount_set@.len() == 0,
            final(self).instance_map == old(self).instance_map,
            final(self).repeat_expanded_node_cache == old(self).repeat_expanded_node_cache,
            final(self).mounted_set == old(self).mounted_set,
            final(self).next_id == old(self).next_id,
    {
        self.marked_for_unmount_set = Vec::new();
    }

    /// Empty the per-tick cache; run at the start of every tick.
    pub fn reset_repeat_expanded_node_cache(&mut self)
        ensures
            final(self).repeat_expanded_node_cache@.len() == 0,
            final(self).instance_map == old(self).instance_map,
            final(self).mounted_set == old(self).mounted_set,
            final(self).marked_for_unmount_set == old(self).marked_for_unmount_set,
            final(self).next_id == old(self).next_id,
    {
        self.repeat_expanded_node_cache = Vec::new();
    }

    /// Append one expanded node to the per-tick cache; ray casting
    /// depends on cache order being traversal order.
    pub fn add_to_repeat_expanded_node_cache(&mut self, node: ExpandedNode)
        ensures
            final(self).repeat_expanded_node_cache@ == old(self).repeat_expanded_node_cache@.push(node),
            final(self).instance_map == old(self).instance_map,
            final(self).mounted_set == old(self).mounted_set,
            final(self).marked_for_unmount_set == old(self).marked_for_unmount_set,
            final(self).next_id == old(self).next_id,
    {
        self.repeat_expanded_node_cache.push(node);
    }
}

} // verus!
