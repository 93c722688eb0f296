//! Per-tick orchestration: the engine value that owns the registry, the
//! expression table, the tree, the viewport and the last-sent patch
//! snapshots, and the tick that expands the tree, fires mount and
//! unmount bookkeeping exactly once per dynamic identity, diffs native
//! patches, applies the layer-add rule, resets the unmount requests and
//! advances the frame counter.
//!
//! Handlers are opaque tokens: each pass returns, in traversal order, the
//! tokens the host must invoke, and the engine updates its own state
//! exactly.

use vstd::prelude::*;
use crate::engine::{cache_model, entry_geometry_ok, expand_spec};
use crate::math::{identity, TransformAndBounds};
use crate::messages::{
    diff_state,
    diff_state_spec,
    messages_model,
    LayerAddPatch,
    MessageModel,
    AnyCreatePatch,
    NativeInterrupt,
    NativeMessage,
    NodeState,
};
use crate::property::{prop_set, ExpressionTable, RuntimeError};
use crate::registry::{chains_contain, ExpandedNode, InstanceRegistry};
use crate::template::{
    node_wf,
    Dropdown,
    DropdownInstance,
    InstanceKind,
    InstanceNode,
    InstanceTree,
    Slider,
    SliderInstance,
};

verus! {

/// The chains currently mounted, as a set.
pub open spec fn mounted_view(reg: InstanceRegistry) -> Set<Seq<u64>> {
    Set::new(|c: Seq<u64>| chains_contain(reg.mounted_set@, c))
}

/// The models of a fired-handler list.
pub open spec fn fired_models(s: Seq<(Vec<u64>, u64)>) -> Seq<(Seq<u64>, u64)> {
    s.map_values(|p: (Vec<u64>, u64)| (p.0@, p.1))
}

/// The views of a list of chains.
pub open spec fn chain_list_views(s: Seq<Vec<u64>>) -> Seq<Seq<u64>> {
    s.map_values(|c: Vec<u64>| c@)
}

/// The model of a snapshot store.
pub open spec fn store_model(s: Seq<(Vec<u64>, NodeState)>) -> Seq<(Seq<u64>, NodeState)> {
    s.map_values(|p: (Vec<u64>, NodeState)| (p.0@, p.1))
}

/// The creation message a native node sends when it first mounts.
pub open spec fn create_message_of(chain: Seq<u64>, st: Option<NodeState>) -> Option<
    MessageModel,
> {
    match st {
        Some(NodeState::Slider(_)) => Some(MessageModel::SliderCreate(chain)),
        Some(NodeState::Dropdown(_)) => Some(MessageModel::DropdownCreate(chain)),
        Some(NodeState::Frame(_)) => Some(MessageModel::FrameCreate(chain)),
        None => None,
    }
}

/// The deletion message a native node sends when it unmounts.
pub open spec fn delete_message_of(chain: Seq<u64>, st: Option<NodeState>) -> Option<
    MessageModel,
> {
    match st {
        Some(NodeState::Slider(_)) => Some(MessageModel::SliderDelete(chain)),
        Some(NodeState::Dropdown(_)) => Some(MessageModel::DropdownDelete(chain)),
        Some(NodeState::Frame(_)) => Some(MessageModel::FrameDelete(chain)),
        None => None,
    }
}

/// The mount tokens registered on the instance a cache entry expands.
pub open spec fn mount_tokens(nodes: Seq<InstanceNode>, e: ExpandedNode) -> Seq<u64> {
    if 0 <= e.instance_index < nodes.len() {
        nodes[e.instance_index as int].handlers.did_mount_handlers@
    } else {
        Seq::empty()
    }
}


/// The will-render tokens registered on the instance a cache entry
/// expands.
pub open spec fn will_render_tokens(nodes: Seq<InstanceNode>, e: ExpandedNode) -> Seq<u64> {
    if 0 <= e.instance_index < nodes.len() {
        nodes[e.instance_index as int].handlers.will_render_handlers@
    } else {
        Seq::empty()
    }
}

/// The will-render pass over `cache[k..]`: after geometry is known,
/// every cached node fires its will-render tokens in traversal order,
/// every tick, with no once-per-chain gate.
pub open spec fn will_render_phase_spec(
    nodes: Seq<InstanceNode>,
    cache: Seq<ExpandedNode>,
    k: int,
) -> Seq<(Seq<u64>, u64)>
    decreases cache.len() - k,
    when 0 <= k <= cache.len()
{
    if k >= cache.len() {
        Seq::empty()
    } else {
        let e = cache[k];
        will_render_tokens(nodes, e).map_values(|t: u64| (e.id_chain@, t))
            + will_render_phase_spec(nodes, cache, k + 1)
    }
}

/// The mount pass over `cache[k..]`: an entry whose id chain is not yet
/// mounted fires its mount tokens (in registration order), sends its
/// creation message if it is native, and becomes mounted, exactly once
/// per id chain; an already-mounted chain fires nothing.
pub open spec fn mount_phase_spec(
    nodes: Seq<InstanceNode>,
    cache: Seq<ExpandedNode>,
    k: int,
    mounted: Set<Seq<u64>>,
) -> (Seq<(Seq<u64>, u64)>, Seq<MessageModel>, Set<Seq<u64>>)
    decreases cache.len() - k,
    when 0 <= k <= cache.len()
{
    if k >= cache.len() {
        (Seq::empty(), Seq::empty(), mounted)
    } else {
        let e = cache[k];
        if !mounted.contains(e.id_chain@) {
            let fired_here = mount_tokens(nodes, e).map_values(|t: u64| (e.id_chain@, t));
            let msgs_here: Seq<MessageModel> = match create_message_of(
                e.id_chain@,
                e.native_state,
            ) {
                Some(m) => seq![m],
                None => Seq::empty(),
            };
            let rest = mount_phase_spec(nodes, cache, k + 1, mounted.insert(e.id_chain@));
            (fired_here + rest.0, msgs_here + rest.1, rest.2)
        } else {
            mount_phase_spec(nodes, cache, k + 1, mounted)
        }
    }
}

/// The unmount pass over `cache[k..]`: an entry flagged for unmount
/// (itself or through an ancestor) clears its mounted state, reports its
/// chain, and sends its deletion message if it is native; the next tick
/// that expands the same chain re-fires its mount.
pub open spec fn unmount_phase_spec(
    cache: Seq<ExpandedNode>,
    k: int,
    mounted: Set<Seq<u64>>,
) -> (Seq<Seq<u64>>, Seq<MessageModel>, Set<Seq<u64>>)
    decreases cache.len() - k,
    when 0 <= k <= cache.len()
{
    if k >= cache.len() {
        (Seq::empty(), Seq::empty(), mounted)
    } else {
        let e = cache[k];
        if e.marked_for_unmount {
            let msgs_here: Seq<MessageModel> = match delete_message_of(
                e.id_chain@,
                e.native_state,
            ) {
                Some(m) => seq![m],
                None => Seq::empty(),
            };
            let rest = unmount_phase_spec(cache, k + 1, mounted.remove(e.id_chain@));
            (seq![e.id_chain@] + rest.0, msgs_here + rest.1, rest.2)
        } else {
            unmount_phase_spec(cache, k + 1, mounted)
        }
    }
}

/// The first snapshot stored under a chain, if any.
pub open spec fn snap_lookup(store: Seq<(Seq<u64>, NodeState)>, chain: Seq<u64>) -> Option<
    NodeState,
>
    decreases store.len(),
{
    if store.len() == 0 {
        None
    } else if store[0].0 == chain {
        Some(store[0].1)
    } else {
        snap_lookup(store.drop_first(), chain)
    }
}

/// The diff pass over `cache[k..]`: each native entry is diffed against
/// its last-sent snapshot, sending only changed fields and nothing where
/// nothing changed; the new store holds exactly this tick's native
/// states, keyed by chain.
pub open spec fn diff_phase_spec(
    cache: Seq<ExpandedNode>,
    k: int,
    prev: Seq<(Seq<u64>, NodeState)>,
) -> (Seq<MessageModel>, Seq<(Seq<u64>, NodeState)>)
    decreases cache.len() - k,
    when 0 <= k <= cache.len()
{
    if k >= cache.len() {
        (Seq::empty(), Seq::empty())
    } else {
        let e = cache[k];
        match e.native_state {
            Some(st) => {
                let msgs_here: Seq<MessageModel> = match diff_state_spec(
                    snap_lookup(prev, e.id_chain@),
                    st,
                    e.id_chain@,
                ) {
                    Some(m) => seq![m],
                    None => Seq::empty(),
                };
                let rest = diff_phase_spec(cache, k + 1, prev);
                (msgs_here + rest.0, seq![(e.id_chain@, st)] + rest.1)
            },
            None => diff_phase_spec(cache, k + 1, prev),
        }
    }
}

/// The layer-add request a tick sends: one message exactly when the
/// discovered depth reaches the allocated layer count, carrying the
/// missing count (saturated at the platform word).
pub open spec fn layer_add_spec(depth: u64, allocated: usize) -> Seq<MessageModel> {
    if depth >= allocated {
        let d = depth - allocated;
        if d >= usize::MAX {
            seq![MessageModel::LayerAdd(usize::MAX as int)]
        } else {
            seq![MessageModel::LayerAdd(d + 1)]
        }
    } else {
        Seq::empty()
    }
}

/// Run the mount pass: fire mount tokens and creation messages exactly
/// once per id chain, and mark every cached chain mounted, exactly as
/// `mount_phase_spec` says.
#[verifier::rlimit(100)]
pub fn manage_handlers_mount(
    reg: &mut InstanceRegistry,
    tree: &InstanceTree,
    cache: &Vec<ExpandedNode>,
) -> (r: (Vec<(Vec<u64>, u64)>, Vec<NativeMessage>))
    ensures
        ({
            let spec3 = mount_phase_spec(tree.nodes@, cache@, 0, mounted_view(*old(reg)));
            &&& fired_models(r.0@) == spec3.0
            &&& messages_model(r.1@) == spec3.1
            &&& mounted_view(*final(reg)) == spec3.2
        }),
        final(reg).instance_map == old(reg).instance_map,
        final(reg).repeat_expanded_node_cache == old(reg).repeat_expanded_node_cache,
        final(reg).marked_for_unmount_set == old(reg).marked_for_unmount_set,
        final(reg).next_id == old(reg).next_id,
{
    let mut fired: Vec<(Vec<u64>, u64)> = Vec::new();
    let mut msgs: Vec<NativeMessage> = Vec::new();
    let ghost mounted0 = mounted_view(*reg);
    let ghost mut facc: Seq<(Seq<u64>, u64)> = Seq::empty();
    let ghost mut macc: Seq<MessageModel> = Seq::empty();
    let n = cache.len();
    let mut k: usize = 0;
    proof {
        assert(fired_models(fired@) =~= facc);
        assert(messages_model(msgs@) =~= macc);
    }
    while k < n
        invariant
            n == cache@.len(),
            0 <= k <= n,
            fired_models(fired@) == facc,
            messages_model(msgs@) == macc,
            mounted0 == mounted_view(*old(reg)),
            reg.instance_map == old(reg).instance_map,
            reg.repeat_expanded_node_cache == old(reg).repeat_expanded_node_cache,
            reg.marked_for_unmount_set == old(reg).marked_for_unmount_set,
            reg.next_id == old(reg).next_id,
            ({
                let whole = mount_phase_spec(tree.nodes@, cache@, 0, mounted0);
                let rest = mount_phase_spec(tree.nodes@, cache@, k as int, mounted_view(*reg));
                whole == (facc + rest.0, macc + rest.1, rest.2)
            }),
        decreases n - k,
    {
        let already = reg.is_mounted(&cache[k].id_chain);
        if !already {
            let ghost pre_mounted = mounted_view(*reg);
            let ghost toks = mount_tokens(tree.nodes@, cache@[k as int]);
            if cache[k].instance_index < tree.nodes.len() {
                let node = &tree.nodes[cache[k].instance_index];
                let nt = node.handlers.did_mount_handlers.len();
                let mut t: usize = 0;
                while t < nt
                    invariant
                        n == cache@.len(),
                        k < n,
                        cache@[k as int].instance_index < tree.nodes@.len(),
                        *node == tree.nodes@[cache@[k as int].instance_index as int],
                        nt == node.handlers.did_mount_handlers@.len(),
                        0 <= t <= nt,
                        toks == mount_tokens(tree.nodes@, cache@[k as int]),
                        toks == node.handlers.did_mount_handlers@,
                        fired_models(fired@) == facc + toks.take(t as int).map_values(
                            |tok: u64| (cache@[k as int].id_chain@, tok),
                        ),
                    decreases nt - t,
                {
                    let token = node.handlers.did_mount_handlers[t];
                    let chain = cache[k].id_chain.clone();
                    proof {
                        assert(chain@ =~= cache@[k as int].id_chain@);
                    }
                    let ghost prev_fired = fired@;
                    fired.push((chain, token));
                    proof {
                        assert(toks.take(t as int + 1) =~= toks.take(t as int).push(
                            toks[t as int],
                        ));
                        assert(toks.take(t as int + 1).map_values(
                            |tok: u64| (cache@[k as int].id_chain@, tok),
                        ) =~= toks.take(t as int).map_values(
                            |tok: u64| (cache@[k as int].id_chain@, tok),
                        ).push((cache@[k as int].id_chain@, toks[t as int])));
                        assert(fired_models(fired@) =~= fired_models(prev_fired).push(
                            (cache@[k as int].id_chain@, toks[t as int]),
                        ));
                        assert(fired_models(fired@) =~= facc + toks.take(t as int + 1).map_values(
                            |tok: u64| (cache@[k as int].id_chain@, tok),
                        ));
                    }
                    t = t + 1;
                }
                proof {
                    assert(toks.take(nt as int) =~= toks);
                }
            } else {
                proof {
                    assert(toks =~= Seq::<u64>::empty());
                    assert(fired_models(fired@) =~= facc + toks.map_values(
                        |tok: u64| (cache@[k as int].id_chain@, tok),
                    ));
                }
            }
            match &cache[k].native_state {
                Some(NodeState::Slider(_)) => {
                    msgs.push(
                        NativeMessage::SliderCreate(
                            AnyCreatePatch { id_chain: cache[k].id_chain.clone() },
                        ),
                    );
                },
                Some(NodeState::Dropdown(_)) => {
                    msgs.push(
                        NativeMessage::DropdownCreate(
                            AnyCreatePatch { id_chain: cache[k].id_chain.clone() },
                        ),
                    );
                },
                Some(NodeState::Frame(_)) => {
                    msgs.push(
                        NativeMessage::FrameCreate(
                            AnyCreatePatch { id_chain: cache[k].id_chain.clone() },
                        ),
                    );
                },
                None => (),
            }
            let chain2 = cache[k].id_chain.clone();
            reg.mark_mounted(chain2);
            proof {
                assert(mounted_view(*reg) =~= pre_mounted.insert(cache@[k as int].id_chain@));
                let fired_here = toks.map_values(
                    |tok: u64| (cache@[k as int].id_chain@, tok),
                );
                let msgs_here: Seq<MessageModel> = match create_message_of(
                    cache@[k as int].id_chain@,
                    cache@[k as int].native_state,
                ) {
                    Some(m) => seq![m],
                    None => Seq::empty(),
                };
                assert(messages_model(msgs@) =~= macc + msgs_here);
                let old_facc = facc;
                let old_macc = macc;
                facc = facc + fired_here;
                macc = macc + msgs_here;
                let rest_next = mount_phase_spec(
                    tree.nodes@,
                    cache@,
                    k as int + 1,
                    mounted_view(*reg),
                );
                assert(old_facc + (fired_here + rest_next.0) =~= facc + rest_next.0);
                assert(old_macc + (msgs_here + rest_next.1) =~= macc + rest_next.1);
            }
        }
        k = k + 1;
    }
    proof {
        assert(facc + Seq::<(Seq<u64>, u64)>::empty() =~= facc);
        assert(macc + Seq::<MessageModel>::empty() =~= macc);
    }
    (fired, msgs)
}

/// Run the unmount pass: clear the mounted state of every entry flagged
/// for unmount, reporting its chain and deletion message, exactly as
/// `unmount_phase_spec` says; a later tick that expands the same chain
/// re-fires its mount.
#[verifier::rlimit(100)]
pub fn manage_handlers_unmount(
    reg: &mut InstanceRegistry,
    cache: &Vec<ExpandedNode>,
) -> (r: (Vec<Vec<u64>>, Vec<NativeMessage>))
    ensures
        ({
            let spec3 = unmount_phase_spec(cache@, 0, mounted_view(*old(reg)));
            &&& chain_list_views(r.0@) == spec3.0
            &&& messages_model(r.1@) == spec3.1
            &&& mounted_view(*final(reg)) == spec3.2
        }),
        final(reg).instance_map == old(reg).instance_map,
        final(reg).repeat_expanded_node_cache == old(reg).repeat_expanded_node_cache,
        final(reg).marked_for_unmount_set == old(reg).marked_for_unmount_set,
        final(reg).next_id == old(reg).next_id,
{
    let mut unmounted: Vec<Vec<u64>> = Vec::new();
    let mut msgs: Vec<NativeMessage> = Vec::new();
    let ghost mounted0 = mounted_view(*reg);
    let ghost mut uacc: Seq<Seq<u64>> = Seq::empty();
    let ghost mut macc: Seq<MessageModel> = Seq::empty();
    let n = cache.len();
    let mut k: usize = 0;
    proof {
        assert(chain_list_views(unmounted@) =~= uacc);
        assert(messages_model(msgs@) =~= macc);
    }
    while k < n
        invariant
            n == cache@.len(),
            0 <= k <= n,
            chain_list_views(unmounted@) == uacc,
            messages_model(msgs@) == macc,
            mounted0 == mounted_view(*old(reg)),
            reg.instance_map == old(reg).instance_map,
            reg.repeat_expanded_node_cache == old(reg).repeat_expanded_node_cache,
            reg.marked_for_unmount_set == old(reg).marked_for_unmount_set,
            reg.next_id == old(reg).next_id,
            ({
                let whole = unmount_phase_spec(cache@, 0, mounted0);
                let rest = unmount_phase_spec(cache@, k as int, mounted_view(*reg));
                whole == (uacc + rest.0, macc + rest.1, rest.2)
            }),
        decreases n - k,
    {
        if cache[k].marked_for_unmount {
            let ghost pre_mounted = mounted_view(*reg);
            match &cache[k].native_state {
                Some(NodeState::Slider(_)) => {
                    msgs.push(NativeMessage::SliderDelete(cache[k].id_chain.clone()));
                },
                Some(NodeState::Dropdown(_)) => {
                    msgs.push(NativeMessage::DropdownDelete(cache[k].id_chain.clone()));
                },
                Some(NodeState::Frame(_)) => {
                    msgs.push(NativeMessage::FrameDelete(cache[k].id_chain.clone()));
                },
                None => (),
            }
            unmounted.push(cache[k].id_chain.clone());
            let chain2 = cache[k].id_chain.clone();
            reg.clear_mounted(&chain2);
            proof {
                assert(mounted_view(*reg) =~= pre_mounted.remove(cache@[k as int].id_chain@));
                let msgs_here: Seq<MessageModel> = match delete_message_of(
                    cache@[k as int].id_chain@,
                    cache@[k as int].native_state,
                ) {
                    Some(m) => seq![m],
                    None => Seq::empty(),
                };
                assert(messages_model(msgs@) =~= macc + msgs_here);
                assert(chain_list_views(unmounted@) =~= uacc + seq![
                    cache@[k as int].id_chain@,
                ]);
                let old_uacc = uacc;
                let old_macc = macc;
                uacc = uacc + seq![cache@[k as int].id_chain@];
                macc = macc + msgs_here;
                let rest_next = unmount_phase_spec(cache@, k as int + 1, mounted_view(*reg));
                assert(old_uacc + (seq![cache@[k as int].id_chain@] + rest_next.0) =~= uacc
                    + rest_next.0);
                assert(old_macc + (msgs_here + rest_next.1) =~= macc + rest_next.1);
            }
        }
        k = k + 1;
    }
    proof {
        assert(uacc + Seq::<Seq<u64>>::empty() =~= uacc);
        assert(macc + Seq::<MessageModel>::empty() =~= macc);
    }
    (unmounted, msgs)
}

fn snap_lookup_exec(store: &Vec<(Vec<u64>, NodeState)>, chain: &Vec<u64>) -> (r: Option<
    NodeState,
>)
    ensures
        r == snap_lookup(store_model(store@), chain@),
{
    let ghost sm = store_model(store@);
    let n = store.len();
    let mut i: usize = 0;
    proof {
        assert(sm.skip(0) =~= sm);
    }
    while i < n
        invariant
            i <= n,
            n == store@.len(),
            sm == store_model(store@),
            snap_lookup(sm, chain@) == snap_lookup(sm.skip(i as int), chain@),
        decreases n - i,
    {
        proof {
            assert(sm.skip(i as int)[0] == sm[i as int]);
            assert(sm.skip(i as int).drop_first() =~= sm.skip(i as int + 1));
        }
        if crate::registry::chains_equal(&store[i].0, chain) {
            return Some(store[i].1);
        }
        i = i + 1;
    }
    proof {
        assert(sm.skip(n as int).len() == 0);
    }
    None
}

/// Run the diff pass: each native entry sends only its changed fields
/// against the last-sent snapshot, and the new snapshot store holds this
/// tick's native states, exactly as `diff_phase_spec` says.
#[verifier::rlimit(100)]
pub fn compute_native_patches(
    cache: &Vec<ExpandedNode>,
    prev: &Vec<(Vec<u64>, NodeState)>,
) -> (r: (Vec<NativeMessage>, Vec<(Vec<u64>, NodeState)>))
    ensures
        ({
            let spec2 = diff_phase_spec(cache@, 0, store_model(prev@));
            &&& messages_model(r.0@) == spec2.0
            &&& store_model(r.1@) == spec2.1
        }),
{
    let mut msgs: Vec<NativeMessage> = Vec::new();
    let mut store: Vec<(Vec<u64>, NodeState)> = Vec::new();
    let ghost pm = store_model(prev@);
    let ghost mut macc: Seq<MessageModel> = Seq::empty();
    let ghost mut sacc: Seq<(Seq<u64>, NodeState)> = Seq::empty();
    let n = cache.len();
    let mut k: usize = 0;
    proof {
        assert(messages_model(msgs@) =~= macc);
        assert(store_model(store@) =~= sacc);
    }
    while k < n
        invariant
            n == cache@.len(),
            0 <= k <= n,
            pm == store_model(prev@),
            messages_model(msgs@) == macc,
            store_model(store@) == sacc,
            ({
                let whole = diff_phase_spec(cache@, 0, pm);
                let rest = diff_phase_spec(cache@, k as int, pm);
                whole == (macc + rest.0, sacc + rest.1)
            }),
        decreases n - k,
    {
        match &cache[k].native_state {
            Some(st) => {
                let prev_snap = snap_lookup_exec(prev, &cache[k].id_chain);
                let msg = match &prev_snap {
                    Some(p) => diff_state(Some(p), st, &cache[k].id_chain),
                    None => diff_state(None, st, &cache[k].id_chain),
                };
                let ghost msgs_here: Seq<MessageModel> = match diff_state_spec(
                    snap_lookup(pm, cache@[k as int].id_chain@),
                    *st,
                    cache@[k as int].id_chain@,
                ) {
                    Some(m) => seq![m],
                    None => Seq::empty(),
                };
                match msg {
                    Some(m) => {
                        msgs.push(m);
                    },
                    None => (),
                }
                let entry = (cache[k].id_chain.clone(), *st);
                store.push(entry);
                proof {
                    assert(messages_model(msgs@) =~= macc + msgs_here);
                    assert(store_model(store@) =~= sacc + seq![
                        (cache@[k as int].id_chain@, *st),
                    ]);
                    let old_macc = macc;
                    let old_sacc = sacc;
                    macc = macc + msgs_here;
                    sacc = sacc + seq![(cache@[k as int].id_chain@, *st)];
                    let rest_next = diff_phase_spec(cache@, k as int + 1, pm);
                    assert(old_macc + (msgs_here + rest_next.0) =~= macc + rest_next.0);
                    assert(old_sacc + (seq![(cache@[k as int].id_chain@, *st)] + rest_next.1)
                        =~= sacc + rest_next.1);
                }
            },
            None => (),
        }
        k = k + 1;
    }
    proof {
        assert(macc + Seq::<MessageModel>::empty() =~= macc);
        assert(sacc + Seq::<(Seq<u64>, NodeState)>::empty() =~= sacc);
    }
    (msgs, store)
}


/// Run the will-render pass: return, in traversal order, every cached
/// node's will-render tokens keyed by its id chain, exactly as
/// `will_render_phase_spec` says — unconditionally, every tick.
#[verifier::rlimit(100)]
pub fn fire_will_render_handlers(
    tree: &InstanceTree,
    cache: &Vec<ExpandedNode>,
) -> (r: Vec<(Vec<u64>, u64)>)
    ensures
        fired_models(r@) == will_render_phase_spec(tree.nodes@, cache@, 0),
{
    let mut fired: Vec<(Vec<u64>, u64)> = Vec::new();
    let ghost mut facc: Seq<(Seq<u64>, u64)> = Seq::empty();
    let n = cache.len();
    let mut k: usize = 0;
    proof {
        assert(fired_models(fired@) =~= facc);
    }
    while k < n
        invariant
            n == cache@.len(),
            0 <= k <= n,
            fired_models(fired@) == facc,
            ({
                let whole = will_render_phase_spec(tree.nodes@, cache@, 0);
                let rest = will_render_phase_spec(tree.nodes@, cache@, k as int);
                whole == facc + rest
            }),
        decreases n - k,
    {
        let ghost toks = will_render_tokens(tree.nodes@, cache@[k as int]);
        if cache[k].instance_index < tree.nodes.len() {
            let node = &tree.nodes[cache[k].instance_index];
            let nt = node.handlers.will_render_handlers.len();
            let mut t: usize = 0;
            while t < nt
                invariant
                    n == cache@.len(),
                    k < n,
                    cache@[k as int].instance_index < tree.nodes@.len(),
                    *node == tree.nodes@[cache@[k as int].instance_index as int],
                    nt == node.handlers.will_render_handlers@.len(),
                    0 <= t <= nt,
                    toks == will_render_tokens(tree.nodes@, cache@[k as int]),
                    toks == node.handlers.will_render_handlers@,
                    fired_models(fired@) == facc + toks.take(t as int).map_values(
                        |tok: u64| (cache@[k as int].id_chain@, tok),
                    ),
                decreases nt - t,
            {
                let token = node.handlers.will_render_handlers[t];
                let chain = cache[k].id_chain.clone();
                proof {
                    assert(chain@ =~= cache@[k as int].id_chain@);
                }
                let ghost prev_fired = fired@;
                fired.push((chain, token));
                proof {
                    assert(toks.take(t as int + 1) =~= toks.take(t as int).push(toks[t as int]));
                    assert(toks.take(t as int + 1).map_values(
                        |tok: u64| (cache@[k as int].id_chain@, tok),
                    ) =~= toks.take(t as int).map_values(
                        |tok: u64| (cache@[k as int].id_chain@, tok),
                    ).push((cache@[k as int].id_chain@, toks[t as int])));
                    assert(fired_models(fired@) =~= fired_models(prev_fired).push(
                        (cache@[k as int].id_chain@, toks[t as int]),
                    ));
                    assert(fired_models(fired@) =~= facc + toks.take(t as int + 1).map_values(
                        |tok: u64| (cache@[k as int].id_chain@, tok),
                    ));
                }
                t = t + 1;
            }
            proof {
                assert(toks.take(nt as int) =~= toks);
            }
        } else {
            proof {
                assert(toks =~= Seq::<u64>::empty());
                assert(fired_models(fired@) =~= facc + toks.map_values(
                    |tok: u64| (cache@[k as int].id_chain@, tok),
                ));
            }
        }
        proof {
            let fired_here = toks.map_values(|tok: u64| (cache@[k as int].id_chain@, tok));
            let old_facc = facc;
            facc = facc + fired_here;
            let rest_next = will_render_phase_spec(tree.nodes@, cache@, k as int + 1);
            assert(old_facc + (fired_here + rest_next) =~= facc + rest_next);
        }
        k = k + 1;
    }
    proof {
        assert(facc + Seq::<(Seq<u64>, u64)>::empty() =~= facc);
    }
    fired
}


/// The first arena index whose node holds the given instance id.
pub open spec fn find_by_id(nodes: Seq<InstanceNode>, id: u64, k: int) -> Option<int>
    decreases nodes.len() - k,
    when 0 <= k <= nodes.len()
{
    if k >= nodes.len() {
        None
    } else if nodes[k].instance_id == id {
        Some(k)
    } else {
        find_by_id(nodes, id, k + 1)
    }
}

/// What a form-control interrupt does to the tree: the owning node's
/// control state adopts the reported value, keeping any backing
/// expression; an id no node holds, or a control of another kind,
/// changes nothing.
pub open spec fn interrupt_spec(nodes: Seq<InstanceNode>, interrupt: NativeInterrupt) -> Seq<
    InstanceNode,
> {
    match interrupt {
        NativeInterrupt::FormSliderChange { instance_id, value } => match find_by_id(
            nodes,
            instance_id,
            0,
        ) {
            Some(i) => match nodes[i].kind {
                InstanceKind::Slider(ref s) => nodes.update(
                    i,
                    InstanceNode {
                        kind: InstanceKind::Slider(
                            SliderInstance {
                                properties: Slider {
                                    value: prop_set(s.properties.value, value),
                                    ..s.properties
                                },
                            },
                        ),
                        ..nodes[i]
                    },
                ),
                _ => nodes,
            },
            None => nodes,
        },
        NativeInterrupt::FormDropdownChange { instance_id, selected_id } => match find_by_id(
            nodes,
            instance_id,
            0,
        ) {
            Some(i) => match nodes[i].kind {
                InstanceKind::Dropdown(ref d) => nodes.update(
                    i,
                    InstanceNode {
                        kind: InstanceKind::Dropdown(
                            DropdownInstance {
                                properties: Dropdown {
                                    selected_id: prop_set(d.properties.selected_id, selected_id),
                                    ..d.properties
                                },
                            },
                        ),
                        ..nodes[i]
                    },
                ),
                _ => nodes,
            },
            None => nodes,
        },
    }
}

/// What one tick returns to the host: the drained native message queue,
/// the mount and will-render tokens to invoke (keyed by id chain, in
/// traversal order), the id chains in post-order for did-render
/// delivery, and the chains whose mounted lifetime ended this tick.
pub struct TickOutput {
    pub native_messages: Vec<NativeMessage>,
    pub mount_events: Vec<(Vec<u64>, u64)>,
    pub will_render_events: Vec<(Vec<u64>, u64)>,
    pub did_render: Vec<Vec<u64>>,
    pub unmounted: Vec<Vec<u64>>,
}

/// The engine: the compiled tree and expression table, the registry, the
/// viewport, the last-sent patch snapshots per id chain, and the frame
/// counter.
pub struct PaxEngine {
    pub frames_elapsed: u64,
    pub instance_registry: InstanceRegistry,
    pub expression_table: ExpressionTable,
    pub main_component_tree: InstanceTree,
    pub viewport_tab: TransformAndBounds,
    pub last_patches: Vec<(Vec<u64>, NodeState)>,
}

impl PaxEngine {
    /// The engine's invariant: a well-formed tree under an untransformed
    /// viewport.
    pub open spec fn wf(&self) -> bool {
        &&& self.main_component_tree.wf()
        &&& self.viewport_tab.transform == identity()
    }

    /// A fresh engine over a compiled tree and table, at frame zero, with
    /// nothing mounted and nothing sent.
    pub fn new(
        main_component_tree: InstanceTree,
        expression_table: ExpressionTable,
        viewport_size: (i64, i64),
    ) -> (r: PaxEngine)
        requires
            main_component_tree.wf(),
        ensures
            r.wf(),
            r.frames_elapsed == 0,
            r.main_component_tree == main_component_tree,
            r.expression_table == expression_table,
            r.viewport_tab == (TransformAndBounds {
                transform: identity(),
                bounds: viewport_size,
            }),
            r.instance_registry.mounted_set@.len() == 0,
            r.instance_registry.marked_for_unmount_set@.len() == 0,
            r.instance_registry.repeat_expanded_node_cache@.len() == 0,
            r.instance_registry.next_id == 0,
            r.last_patches@.len() == 0,
    {
        PaxEngine {
            frames_elapsed: 0,
            instance_registry: InstanceRegistry::new(),
            expression_table,
            main_component_tree,
            viewport_tab: TransformAndBounds {
                transform: crate::math::Affine::ident(),
                bounds: viewport_size,
            },
            last_patches: Vec::new(),
        }
    }

    /// Adopt a new viewport size, as on a native window resize.
    pub fn set_viewport_size(&mut self, new_viewport_size: (i64, i64))
        ensures
            final(self).viewport_tab == (TransformAndBounds {
                transform: old(self).viewport_tab.transform,
                bounds: new_viewport_size,
            }),
            final(self).frames_elapsed == old(self).frames_elapsed,
            final(self).instance_registry == old(self).instance_registry,
            final(self).expression_table == old(self).expression_table,
            final(self).main_component_tree == old(self).main_component_tree,
            final(self).last_patches == old(self).last_patches,
            old(self).wf() ==> final(self).wf(),
    {
        self.viewport_tab.bounds = new_viewport_size;
    }


    /// Apply a form-control interrupt directly to the owning node's
    /// state, matched by instance id, exactly as `interrupt_spec` says;
    /// everything else about the engine is untouched.
    #[verifier::rlimit(100)]
    pub fn handle_native_interrupt(&mut self, interrupt: &NativeInterrupt)
        ensures
            final(self).main_component_tree.nodes@ == interrupt_spec(
                old(self).main_component_tree.nodes@,
                *interrupt,
            ),
            final(self).frames_elapsed == old(self).frames_elapsed,
            final(self).instance_registry == old(self).instance_registry,
            final(self).expression_table == old(self).expression_table,
            final(self).viewport_tab == old(self).viewport_tab,
            final(self).last_patches == old(self).last_patches,
            old(self).wf() ==> final(self).wf(),
    {
        let id: u64 = match interrupt {
            NativeInterrupt::FormSliderChange { instance_id, .. } => *instance_id,
            NativeInterrupt::FormDropdownChange { instance_id, .. } => *instance_id,
        };
        let ghost nodes0 = self.main_component_tree.nodes@;
        let n = self.main_component_tree.nodes.len();
        let mut i: usize = 0;
        while i < n
            invariant
                n == self.main_component_tree.nodes@.len(),
                0 <= i <= n,
                *self == *old(self),
                nodes0 == self.main_component_tree.nodes@,
                id == (match *interrupt {
                    NativeInterrupt::FormSliderChange { instance_id, .. } => instance_id,
                    NativeInterrupt::FormDropdownChange { instance_id, .. } => instance_id,
                }),
                find_by_id(nodes0, id, 0) == find_by_id(nodes0, id, i as int),
            decreases n - i,
        {
            if self.main_component_tree.nodes[i].instance_id == id {
                proof {
                    assert(find_by_id(nodes0, id, 0) == Some(i as int));
                }
                match interrupt {
                    NativeInterrupt::FormSliderChange { value, .. } => {
                        let node_ref = &mut self.main_component_tree.nodes[i];
                        match &mut node_ref.kind {
                            InstanceKind::Slider(s) => {
                                s.properties.value.set(*value);
                            },
                            _ => {},
                        }
                    },
                    NativeInterrupt::FormDropdownChange { selected_id, .. } => {
                        let node_ref = &mut self.main_component_tree.nodes[i];
                        match &mut node_ref.kind {
                            InstanceKind::Dropdown(d) => {
                                d.properties.selected_id.set(*selected_id);
                            },
                            _ => {},
                        }
                    },
                }
                proof {
                    assert(self.main_component_tree.nodes@ =~= interrupt_spec(
                        nodes0,
                        *interrupt,
                    ));
                    if old(self).wf() {
                        assert(final(self).main_component_tree.wf()) by {
                            let cur = self.main_component_tree.nodes@;
                            assert forall|j: int| 0 <= j < cur.len() implies #[trigger] node_wf(
                                cur,
                                j,
                            ) by {
                                assert(node_wf(nodes0, j));
                                assert(cur[j].children@ == nodes0[j].children@);
                            }
                            assert forall|j1: int, j2: int|
                                0 <= j1 < j2 < cur.len() implies #[trigger] cur[j1].instance_id
                                != #[trigger] cur[j2].instance_id by {
                                assert(nodes0[j1].instance_id != nodes0[j2].instance_id);
                            }
                            assert(cur[0].kind is Component) by {
                                assert(nodes0[0].kind is Component);
                            }
                        }
                    }
                }
                return ;
            }
            i = i + 1;
        }
        proof {
            assert(find_by_id(nodes0, id, n as int) is None);
            assert(self.main_component_tree.nodes@ == interrupt_spec(nodes0, *interrupt));
        }
    }

    /// Advance rendering and property calculation by one discrete tick:
    /// expand the tree into a fresh cache, fire mount bookkeeping exactly
    /// once per id chain, fire will-render for every cached node after
    /// its geometry is known, diff native patches against the last-sent
    /// snapshots, clear unmounting chains, append a layer-add request
    /// exactly when the discovered depth reaches the allocated layer
    /// count, reset the unmount requests, and advance the frame counter.
    /// The returned queue is the tick's whole output: creation messages,
    /// then updates, then deletions, then the layer request; handler
    /// tokens are delivered grouped by lifecycle stage, mounts first,
    /// then will-render in traversal order, with did-render chains in
    /// post-order (children before their parent). A fatal error leaves
    /// the engine exactly as it was.
    #[verifier::rlimit(100)]
    pub fn tick(&mut self, allocated_layers: usize) -> (r: Result<TickOutput, RuntimeError>)
        requires
            old(self).wf(),
            old(self).frames_elapsed < u64::MAX,
        ensures
            ({
                let nodes = old(self).main_component_tree.nodes@;
                let table = old(self).expression_table.entries@;
                let expansion = expand_spec(
                    nodes,
                    table,
                    old(self).instance_registry.marked_for_unmount_set@,
                    0,
                    Seq::empty(),
                    crate::property::empty_scope_view(),
                    Seq::empty(),
                    false,
                    0,
                    None,
                    nodes.len() as int,
                );
                match r {
                    Ok(out) => expansion matches Ok(res) && {
                        let cache = final(self).instance_registry.repeat_expanded_node_cache@;
                        let mounts = mount_phase_spec(
                            nodes,
                            cache,
                            0,
                            mounted_view(old(self).instance_registry),
                        );
                        let diffs = diff_phase_spec(
                            cache,
                            0,
                            store_model(old(self).last_patches@),
                        );
                        let unmounts = unmount_phase_spec(cache, 0, mounts.2);
                        &&& cache_model(cache) == res.0
                        &&& forall|j: int|
                            0 <= j < cache.len() ==> entry_geometry_ok(
                                nodes,
                                table,
                                cache,
                                j,
                                old(self).viewport_tab,
                            )
                        &&& fired_models(out.mount_events@) == mounts.0
                        &&& fired_models(out.will_render_events@) == will_render_phase_spec(
                            nodes,
                            cache,
                            0,
                        )
                        &&& chain_list_views(out.did_render@) == res.1
                        &&& chain_list_views(out.unmounted@) == unmounts.0
                        &&& messages_model(out.native_messages@) == mounts.1 + diffs.0
                            + unmounts.1 + layer_add_spec(res.2, allocated_layers)
                        &&& mounted_view(final(self).instance_registry) == unmounts.2
                        &&& store_model(final(self).last_patches@) == diffs.1
                        &&& final(self).instance_registry.marked_for_unmount_set@.len() == 0
                        &&& final(self).frames_elapsed == old(self).frames_elapsed + 1
                        &&& final(self).main_component_tree == old(self).main_component_tree
                        &&& final(self).expression_table == old(self).expression_table
                        &&& final(self).viewport_tab == old(self).viewport_tab
                        &&& final(self).wf()
                    },
                    Err(e) => expansion == Err::<
                        (Seq<crate::engine::ExpEntry>, Seq<Seq<u64>>, u64),
                        RuntimeError,
                    >(e) && *final(self) == *old(self),
                }
            }),
    {
        let viewport = self.viewport_tab.bounds;
        let tr = crate::engine::traverse_render_tree(
            &self.main_component_tree,
            &self.expression_table,
            &self.instance_registry.marked_for_unmount_set,
            viewport,
        );
        let (cache, post, depth) = match tr {
            Ok(v) => v,
            Err(e) => {
                return Err(e);
            },
        };
        proof {
            assert(TransformAndBounds { transform: identity(), bounds: viewport }
                == old(self).viewport_tab);
        }
        let (mount_events, creates) = manage_handlers_mount(
            &mut self.instance_registry,
            &self.main_component_tree,
            &cache,
        );
        let will_render_events = fire_will_render_handlers(&self.main_component_tree, &cache);
        let (update_msgs, new_store) = compute_native_patches(&cache, &self.last_patches);
        let (unmounted, delete_msgs) = manage_handlers_unmount(&mut self.instance_registry, &cache);
        self.last_patches = new_store;
        let ghost creates_m = messages_model(creates@);
        let ghost updates_m = messages_model(update_msgs@);
        let ghost deletes_m = messages_model(delete_msgs@);
        let mut messages = creates;
        let mut update_msgs = update_msgs;
        let mut delete_msgs = delete_msgs;
        messages.append(&mut update_msgs);
        messages.append(&mut delete_msgs);
        proof {
            assert(messages_model(messages@) =~= creates_m + updates_m + deletes_m);
        }
        if depth >= allocated_layers as u64 {
            let d = depth - (allocated_layers as u64);
            let num: usize = if d >= usize::MAX as u64 {
                usize::MAX
            } else {
                (d + 1) as usize
            };
            messages.push(NativeMessage::LayerAdd(LayerAddPatch { num_layers_to_add: num }));
            proof {
                assert(messages_model(messages@) =~= creates_m + updates_m + deletes_m
                    + layer_add_spec(depth, allocated_layers));
            }
        } else {
            proof {
                assert(layer_add_spec(depth, allocated_layers) =~= Seq::<MessageModel>::empty());
                assert(messages_model(messages@) =~= creates_m + updates_m + deletes_m
                    + layer_add_spec(depth, allocated_layers));
            }
        }
        self.instance_registry.clear_unmount_marks();
        self.instance_registry.repeat_expanded_node_cache = cache;
        self.frames_elapsed = self.frames_elapsed + 1;
        Ok(
            TickOutput {
                native_messages: messages,
                mount_events,
                will_render_events,
                did_render: post,
                unmounted,
            },
        )
    }
}

/// A chain that is already mounted never re-fires: no pass output names
/// it until an unmount pass removes it.
pub proof fn lemma_mount_no_refire(
    nodes: Seq<InstanceNode>,
    cache: Seq<ExpandedNode>,
    k: int,
    mounted: Set<Seq<u64>>,
    c: Seq<u64>,
)
    requires
        0 <= k <= cache.len(),
        mounted.contains(c),
    ensures
        ({
            let r = mount_phase_spec(nodes, cache, k, mounted);
            forall|i: int| 0 <= i < r.0.len() ==> (#[trigger] r.0[i]).0 != c
        }),
    decreases cache.len() - k,
{
    if k < cache.len() {
        let e = cache[k];
        if !mounted.contains(e.id_chain@) {
            lemma_mount_no_refire(nodes, cache, k + 1, mounted.insert(e.id_chain@), c);
            let fired_here = mount_tokens(nodes, e).map_values(|t: u64| (e.id_chain@, t));
            let rest = mount_phase_spec(nodes, cache, k + 1, mounted.insert(e.id_chain@));
            let r = mount_phase_spec(nodes, cache, k, mounted);
            assert(r.0 == fired_here + rest.0);
            assert forall|i: int| 0 <= i < r.0.len() implies (#[trigger] r.0[i]).0 != c by {
                if i < fired_here.len() {
                    assert(r.0[i] == fired_here[i]);
                    assert(fired_here[i].0 == e.id_chain@);
                } else {
                    assert(r.0[i] == rest.0[i - fired_here.len()]);
                }
            }
        } else {
            lemma_mount_no_refire(nodes, cache, k + 1, mounted, c);
            let r = mount_phase_spec(nodes, cache, k, mounted);
            let rr = mount_phase_spec(nodes, cache, k + 1, mounted);
            assert(r == rr);
            assert forall|i: int| 0 <= i < r.0.len() implies (#[trigger] r.0[i]).0 != c by {
                assert(r.0[i] == rr.0[i]);
            }
        }
    } else {
        assert(mount_phase_spec(nodes, cache, k, mounted).0.len() == 0);
    }
}

/// After a mount pass, a chain is mounted exactly when it was mounted
/// before or appears in the cache segment the pass covered.
pub proof fn lemma_mount_covers(
    nodes: Seq<InstanceNode>,
    cache: Seq<ExpandedNode>,
    k: int,
    mounted: Set<Seq<u64>>,
    c: Seq<u64>,
)
    requires
        0 <= k <= cache.len(),
    ensures
        mount_phase_spec(nodes, cache, k, mounted).2.contains(c) == (mounted.contains(c) || (
        exists|j: int| k <= j < cache.len() && (#[trigger] cache[j].id_chain@) == c)),
    decreases cache.len() - k,
{
    if k < cache.len() {
        let e = cache[k];
        if !mounted.contains(e.id_chain@) {
            lemma_mount_covers(nodes, cache, k + 1, mounted.insert(e.id_chain@), c);
        } else {
            lemma_mount_covers(nodes, cache, k + 1, mounted, c);
            if e.id_chain@ == c {
                assert(mounted.contains(c));
            }
        }
    }
}

/// Mount handlers fire exactly once per id chain for its mounted
/// lifetime: the first expansion of a chain that is not mounted fires
/// exactly that entry's mount tokens, in order; every later expansion of
/// the same chain in this pass, and every pass until the chain unmounts,
/// fires nothing for it.
pub proof fn lemma_mount_fires_exactly_once(
    nodes: Seq<InstanceNode>,
    cache: Seq<ExpandedNode>,
    k: int,
    mounted: Set<Seq<u64>>,
    k0: int,
)
    requires
        0 <= k <= k0 < cache.len(),
        !mounted.contains(cache[k0].id_chain@),
        forall|j: int| k <= j < k0 ==> (#[trigger] cache[j].id_chain@) != cache[k0].id_chain@,
    ensures
        ({
            let c = cache[k0].id_chain@;
            let r = mount_phase_spec(nodes, cache, k, mounted);
            r.0.filter(|p: (Seq<u64>, u64)| p.0 == c) == mount_tokens(
                nodes,
                cache[k0],
            ).map_values(|t: u64| (c, t))
        }),
    decreases cache.len() - k,
{
    broadcast use vstd::seq_lib::group_seq_lib_default;

    let c = cache[k0].id_chain@;
    let pred = |p: (Seq<u64>, u64)| p.0 == c;
    let e = cache[k];
    if k == k0 {
        let fired_here = mount_tokens(nodes, e).map_values(|t: u64| (c, t));
        let rest = mount_phase_spec(nodes, cache, k + 1, mounted.insert(c));
        lemma_mount_no_refire(nodes, cache, k + 1, mounted.insert(c), c);
        Seq::filter_distributes_over_add(fired_here, rest.0, pred);
        lemma_filter_all(fired_here, pred);
        lemma_filter_none(rest.0, pred);
        assert(fired_here.filter(pred) + rest.0.filter(pred) =~= fired_here);
    } else {
        if !mounted.contains(e.id_chain@) {
            lemma_mount_fires_exactly_once(nodes, cache, k + 1, mounted.insert(e.id_chain@), k0);
            let fired_here = mount_tokens(nodes, e).map_values(|t: u64| (e.id_chain@, t));
            let rest = mount_phase_spec(nodes, cache, k + 1, mounted.insert(e.id_chain@));
            Seq::filter_distributes_over_add(fired_here, rest.0, pred);
            lemma_filter_none(fired_here, pred);
            assert(fired_here.filter(pred) + rest.0.filter(pred) =~= rest.0.filter(pred));
        } else {
            lemma_mount_fires_exactly_once(nodes, cache, k + 1, mounted, k0);
        }
    }
}

/// Every element of `s` satisfies `pred`, so filtering keeps all of it.
pub(crate) proof fn lemma_filter_all<A>(s: Seq<A>, pred: spec_fn(A) -> bool)
    requires
        forall|i: int| 0 <= i < s.len() ==> #[trigger] pred(s[i]),
    ensures
        s.filter(pred) == s,
    decreases s.len(),
{
    reveal(Seq::filter);
    if s.len() > 0 {
        lemma_filter_all(s.drop_last(), pred);
        assert(s.filter(pred) =~= s.drop_last().push(s.last()));
    }
}

/// No element of `s` satisfies `pred`, so filtering empties it.
pub(crate) proof fn lemma_filter_none<A>(s: Seq<A>, pred: spec_fn(A) -> bool)
    requires
        forall|i: int| 0 <= i < s.len() ==> !#[trigger] pred(s[i]),
    ensures
        s.filter(pred) == Seq::<A>::empty(),
    decreases s.len(),
{
    reveal(Seq::filter);
    if s.len() > 0 {
        lemma_filter_none(s.drop_last(), pred);
        assert(s.filter(pred) =~= Seq::<A>::empty());
    }
}

/// After an unmount pass, a chain is mounted exactly when it was mounted
/// before and no covered entry unmounted it; a chain cleared here
/// re-fires its mount on the next tick that expands it.
pub proof fn lemma_unmount_covers(
    cache: Seq<ExpandedNode>,
    k: int,
    mounted: Set<Seq<u64>>,
    c: Seq<u64>,
)
    requires
        0 <= k <= cache.len(),
    ensures
        unmount_phase_spec(cache, k, mounted).2.contains(c) == (mounted.contains(c) && !(
        exists|j: int|
            k <= j < cache.len() && (#[trigger] cache[j].id_chain@) == c
                && cache[j].marked_for_unmount)),
    decreases cache.len() - k,
{
    if k < cache.len() {
        let e = cache[k];
        if e.marked_for_unmount {
            lemma_unmount_covers(cache, k + 1, mounted.remove(e.id_chain@), c);
        } else {
            lemma_unmount_covers(cache, k + 1, mounted, c);
        }
    }
}

/// Two consecutive ticks with no observable state change enqueue no
/// update: a diff pass whose previous store answers every native entry
/// with exactly its current state sends nothing.
pub proof fn lemma_no_change_no_updates(
    cache: Seq<ExpandedNode>,
    k: int,
    prev: Seq<(Seq<u64>, NodeState)>,
)
    requires
        0 <= k <= cache.len(),
        forall|j: int|
            k <= j < cache.len() ==> match (#[trigger] cache[j]).native_state {
                Some(st) => snap_lookup(prev, cache[j].id_chain@) == Some(st),
                None => true,
            },
    ensures
        diff_phase_spec(cache, k, prev).0 == Seq::<MessageModel>::empty(),
    decreases cache.len() - k,
{
    if k < cache.len() {
        lemma_no_change_no_updates(cache, k + 1, prev);
        match cache[k].native_state {
            Some(st) => {
                crate::messages::lemma_no_change_no_message(st, cache[k].id_chain@);
                assert(Seq::<MessageModel>::empty() + diff_phase_spec(cache, k + 1, prev).0
                    =~= diff_phase_spec(cache, k + 1, prev).0);
            },
            None => {},
        }
    }
}

} // verus!
