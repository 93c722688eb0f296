//! The per-tick traversal engine: expand the static instance tree into
//! the per-tick cache of dynamic nodes, computing each node's id chain,
//! scope, layout and render layer; fire lifecycle events exactly once per
//! dynamic identity; diff native patches; and answer ray-cast queries.
//!
//! The traversal threads its environment (repeat indices, the current
//! scope, and the flattened slot content of the nearest component)
//! through the recursion itself, so stack frames are owned by the
//! traversal call. Plain descent always moves forward through the arena;
//! only slot indirection can jump backwards, and a recursion budget of
//! one slot jump per instance bounds it: exhausting the budget is a
//! fatal structural error.

use vstd::prelude::*;
use crate::math::{hit_spec, Affine, TransformAndBounds};
use crate::messages::{DropdownState, FrameState, NodeState, SliderState};
use crate::property::{
    pull_spec,
    Expr,
    ExpressionTable,
    Property,
    prop_value,
    RuntimeError,
    Scope,
    ScopeView,
};
use crate::registry::ExpandedNode;
use crate::runtime::{cond_eval, flatten_list_spec, Adoptee, RepeatBinding, adoptee_views};
use crate::template::{
    CommonProperties,
    kind_clips,
    kind_flags,
    node_wf,
    tree_wf,
    InstanceKind,
    InstanceNode,
    InstanceTree,
    Layer,
};
use crate::value::{size_eval_spec, Size, Value, ValueModel};

verus! {

/// The model of one cache entry the expansion produces.
pub struct ExpEntry {
    pub instance_index: int,
    pub id_chain: Seq<u64>,
    pub scope: ScopeView,
    pub parent: Option<int>,
    pub marked_for_unmount: bool,
    pub z: u64,
}

/// The model of one exec cache entry.
pub open spec fn cache_entry_model(n: ExpandedNode) -> ExpEntry {
    ExpEntry {
        instance_index: n.instance_index as int,
        id_chain: n.id_chain@,
        scope: n.scope_view@,
        parent: match n.parent {
            Some(p) => Some(p as int),
            None => None,
        },
        marked_for_unmount: n.marked_for_unmount,
        z: n.z_index,
    }
}

/// The models of a cache segment.
pub open spec fn cache_model(s: Seq<ExpandedNode>) -> Seq<ExpEntry> {
    s.map_values(|n: ExpandedNode| cache_entry_model(n))
}

/// The views of a list of id chains.
pub open spec fn chain_views(s: Seq<Vec<u64>>) -> Seq<Seq<u64>> {
    s.map_values(|c: Vec<u64>| c@)
}

/// The scope a component installs: its property bag, no repeat bindings.
pub open spec fn component_scope_view(props: Seq<(u64, Value)>) -> ScopeView {
    ScopeView {
        properties: props.map_values(|p: (u64, Value)| (p.0, p.1@)),
        repeat_index: None,
        repeat_datum: None,
    }
}

/// The scope one repeat iteration installs: the index and datum alone.
pub open spec fn iteration_scope_view(index: i64, datum: ValueModel) -> ScopeView {
    ScopeView {
        properties: Seq::empty(),
        repeat_index: Some(index),
        repeat_datum: Some(datum),
    }
}

/// Whether a repeat binding names a real iteration of a real repeat node.
pub open spec fn binding_valid(nodes: Seq<InstanceNode>, b: RepeatBinding) -> bool {
    &&& 0 <= b.repeat_node < nodes.len()
    &&& match nodes[b.repeat_node as int].kind {
        InstanceKind::Repeat(ref rep) => 0 <= b.index < rep.data@.len(),
        _ => false,
    }
}

/// Whether every binding of an environment is valid.
pub open spec fn env_valid(nodes: Seq<InstanceNode>, env: Seq<RepeatBinding>) -> bool {
    forall|j: int| 0 <= j < env.len() ==> #[trigger] binding_valid(nodes, env[j])
}

/// The datum a valid binding denotes.
pub open spec fn binding_datum(nodes: Seq<InstanceNode>, b: RepeatBinding) -> ValueModel {
    match nodes[b.repeat_node as int].kind {
        InstanceKind::Repeat(ref rep) => rep.data@[b.index as int]@,
        _ => ValueModel::Bool(false),
    }
}

/// The repeat indices an environment contributes to an id chain.
pub open spec fn env_indices(env: Seq<RepeatBinding>) -> Seq<u64> {
    env.map_values(|b: RepeatBinding| b.index as u64)
}

/// What pulling a typed `i64` property yields, as a model.
pub open spec fn pull_i64_model(table: Seq<Expr>, scope: ScopeView, p: Property<i64>) -> Result<
    i64,
    RuntimeError,
> {
    match pull_spec(table, scope, p.vtable_id_spec(), ValueModel::Int(prop_value(p))) {
        Ok(ValueModel::Int(x)) => Ok(x),
        Ok(_) => Err(RuntimeError::CoercionFailure),
        Err(e) => Err(e),
    }
}

/// What pulling a typed `u32` property yields, as a model.
pub open spec fn pull_u32_model(table: Seq<Expr>, scope: ScopeView, p: Property<u32>) -> Result<
    u32,
    RuntimeError,
> {
    match pull_spec(table, scope, p.vtable_id_spec(), ValueModel::Int(prop_value(p) as i64)) {
        Ok(ValueModel::Int(x)) => if 0 <= x <= u32::MAX {
            Ok(x as u32)
        } else {
            Err(RuntimeError::CoercionFailure)
        },
        Ok(_) => Err(RuntimeError::CoercionFailure),
        Err(e) => Err(e),
    }
}

/// What pulling a typed `Color` property yields, as a model.
pub open spec fn pull_color_model(
    table: Seq<Expr>,
    scope: ScopeView,
    p: Property<crate::value::Color>,
) -> Result<crate::value::Color, RuntimeError> {
    match pull_spec(table, scope, p.vtable_id_spec(), ValueModel::Color(prop_value(p))) {
        Ok(ValueModel::Color(c)) => Ok(c),
        Ok(_) => Err(RuntimeError::CoercionFailure),
        Err(e) => Err(e),
    }
}

/// What pulling a typed `Size` property yields, as a model.
pub open spec fn pull_size_model(table: Seq<Expr>, scope: ScopeView, p: Property<Size>) -> Result<
    Size,
    RuntimeError,
> {
    match pull_spec(table, scope, p.vtable_id_spec(), ValueModel::Size(prop_value(p))) {
        Ok(ValueModel::Size(s)) => Ok(s),
        Ok(_) => Err(RuntimeError::CoercionFailure),
        Err(e) => Err(e),
    }
}

/// Whether every widget property of this node pulls successfully under
/// the scope: the fatal half of native-state computation.
pub open spec fn widget_pulls_spec(
    kind: InstanceKind,
    table: Seq<Expr>,
    scope: ScopeView,
) -> Result<(), RuntimeError> {
    match kind {
        InstanceKind::Slider(ref s) => {
            let p = s.properties;
            match (
                pull_i64_model(table, scope, p.value),
                pull_i64_model(table, scope, p.step),
                pull_i64_model(table, scope, p.min),
                pull_i64_model(table, scope, p.max),
                pull_i64_model(table, scope, p.border_radius),
                pull_color_model(table, scope, p.accent),
                pull_color_model(table, scope, p.background),
            ) {
                (Ok(_), Ok(_), Ok(_), Ok(_), Ok(_), Ok(_), Ok(_)) => Ok(()),
                (Err(e), _, _, _, _, _, _) => Err(e),
                (_, Err(e), _, _, _, _, _) => Err(e),
                (_, _, Err(e), _, _, _, _) => Err(e),
                (_, _, _, Err(e), _, _, _) => Err(e),
                (_, _, _, _, Err(e), _, _) => Err(e),
                (_, _, _, _, _, Err(e), _) => Err(e),
                (_, _, _, _, _, _, Err(e)) => Err(e),
            }
        },
        InstanceKind::Dropdown(ref d) => {
            let p = d.properties;
            match (
                pull_u32_model(table, scope, p.selected_id),
                pull_color_model(table, scope, p.background),
                pull_color_model(table, scope, p.stroke_color),
                pull_size_model(table, scope, p.stroke_width),
                pull_i64_model(table, scope, p.border_radius),
            ) {
                (Ok(_), Ok(_), Ok(_), Ok(_), Ok(_)) => Ok(()),
                (Err(e), _, _, _, _) => Err(e),
                (_, Err(e), _, _, _) => Err(e),
                (_, _, Err(e), _, _) => Err(e),
                (_, _, _, Err(e), _) => Err(e),
                (_, _, _, _, Err(e)) => Err(e),
            }
        },
        _ => Ok(()),
    }
}

/// Whether every settable property of this node pulls successfully:
/// layout properties first, then widget properties.
pub open spec fn node_pulls_spec(
    node: InstanceNode,
    table: Seq<Expr>,
    scope: ScopeView,
) -> Result<(), RuntimeError> {
    match crate::layout::pull_common_spec(table, scope, node.common) {
        Ok(_) => widget_pulls_spec(node.kind, table, scope),
        Err(e) => Err(e),
    }
}

/// The observable native-bridge state of a node whose properties pull
/// successfully: sliders, dropdowns and frames carry one, other kinds
/// none. A dropdown's stroke width resolves against its own computed
/// width, falling back to zero where that leaves the representable
/// range.
pub open spec fn native_state_of(
    kind: InstanceKind,
    table: Seq<Expr>,
    scope: ScopeView,
    tab: TransformAndBounds,
) -> Option<NodeState> {
    match kind {
        InstanceKind::Slider(ref s) => {
            let p = s.properties;
            match (
                pull_i64_model(table, scope, p.value),
                pull_i64_model(table, scope, p.step),
                pull_i64_model(table, scope, p.min),
                pull_i64_model(table, scope, p.max),
                pull_i64_model(table, scope, p.border_radius),
                pull_color_model(table, scope, p.accent),
                pull_color_model(table, scope, p.background),
            ) {
                (Ok(value), Ok(step), Ok(min), Ok(max), Ok(border_radius), Ok(accent), Ok(
                    background,
                )) => Some(
                    NodeState::Slider(
                        SliderState {
                            size_x: tab.bounds.0,
                            size_y: tab.bounds.1,
                            transform: tab.transform,
                            value,
                            step,
                            min,
                            max,
                            accent,
                            background,
                            border_radius,
                        },
                    ),
                ),
                _ => None,
            }
        },
        InstanceKind::Dropdown(ref d) => {
            let p = d.properties;
            match (
                pull_u32_model(table, scope, p.selected_id),
                pull_color_model(table, scope, p.background),
                pull_color_model(table, scope, p.stroke_color),
                pull_size_model(table, scope, p.stroke_width),
                pull_i64_model(table, scope, p.border_radius),
            ) {
                (Ok(selected_id), Ok(background), Ok(stroke_color), Ok(stroke_size), Ok(
                    border_radius,
                )) => {
                    let stroke_width = match size_eval_spec(stroke_size, tab.bounds.0) {
                        Some(v) => v,
                        None => 0,
                    };
                    Some(
                        NodeState::Dropdown(
                            DropdownState {
                                size_x: tab.bounds.0,
                                size_y: tab.bounds.1,
                                transform: tab.transform,
                                selected_id,
                                background,
                                stroke_color,
                                stroke_width,
                                border_radius,
                            },
                        ),
                    )
                },
                _ => None,
            }
        },
        InstanceKind::Frame(_) => Some(
            NodeState::Frame(
                FrameState {
                    size_x: tab.bounds.0,
                    size_y: tab.bounds.1,
                    transform: tab.transform,
                },
            ),
        ),
        _ => None,
    }
}

/// Whether cache entry `k` carries exactly the geometry, native state and
/// static flags its instance node and dynamic parent dictate.
pub open spec fn entry_geometry_ok(
    nodes: Seq<InstanceNode>,
    table: Seq<Expr>,
    cache: Seq<ExpandedNode>,
    k: int,
    root_tab: TransformAndBounds,
) -> bool {
    let e = cache[k];
    &&& 0 <= e.instance_index < nodes.len()
    &&& match e.parent {
        Some(p) => 0 <= p < k,
        None => true,
    }
    &&& {
        let container = match e.parent {
            None => root_tab,
            Some(p) => cache[p as int].tab,
        };
        let node = nodes[e.instance_index as int];
        match crate::layout::pull_common_spec(table, e.scope_view@, node.common) {
            Ok(pulled) => match crate::layout::tab_geometry_spec(
                pulled,
                node.common.transform,
                container,
            ) {
                Some(t) => e.tab == t && e.geometry_valid,
                None => e.tab == crate::layout::degenerate_tab() && !e.geometry_valid,
            },
            Err(_) => false,
        }
    }
    &&& e.native_state == native_state_of(
        nodes[e.instance_index as int].kind,
        table,
        e.scope_view@,
        e.tab,
    )
    &&& e.clipping == kind_clips(nodes[e.instance_index as int].kind)
    &&& e.invisible_to_raycasting == kind_flags(
        nodes[e.instance_index as int].kind,
    ).invisible_to_raycasting
    &&& e.instance_id == nodes[e.instance_index as int].instance_id
}

/// The layer depth a node reports upward: its children's maximum, plus
/// one where the node starts a new native render layer; depth saturates
/// rather than wraps.
pub open spec fn bump_depth(kids: u64, layer: Layer) -> u64 {
    if layer is Native {
        if kids == u64::MAX {
            kids
        } else {
            (kids + 1) as u64
        }
    } else {
        kids
    }
}

/// The larger of two depths.
pub open spec fn max_depth(a: u64, b: u64) -> u64 {
    if a >= b {
        a
    } else {
        b
    }
}


/// The kid expansion of a component at `my_pos`: flatten its slot
/// children under the current scope, then traverse its template under
/// its own scope.
pub open spec fn expand_component_arm(
    nodes: Seq<InstanceNode>,
    table: Seq<Expr>,
    marked: Seq<u64>,
    idx: int,
    indices: Seq<u64>,
    scope: ScopeView,
    m: bool,
    my_pos: int,
    fuel: int,
) -> Result<(Seq<ExpEntry>, Seq<Seq<u64>>, u64), RuntimeError>
    decreases fuel, nodes.len() - idx, 3int, 0int,
    when 0 <= idx < nodes.len() && tree_wf(nodes) && fuel >= 0 && nodes[idx].kind is Component
    via expand_component_arm_decreases
{
    match nodes[idx].kind {
        InstanceKind::Component(ref c) => match flatten_list_spec(
            nodes,
            table,
            scope,
            nodes[idx].children@,
            0,
        ) {
            Ok(new_adoptees) => expand_children_spec(
                nodes,
                table,
                marked,
                idx,
                c.template@,
                0,
                indices,
                component_scope_view(c.properties@),
                new_adoptees,
                m,
                my_pos + 1,
                Some(my_pos),
                fuel,
            ),
            Err(e) => Err(e),
        },
        _ => Err(RuntimeError::MissingStackFrame),
    }
}

/// The kid expansion of a slot at `my_pos`: resolve the adoptee index,
/// render nothing where it is out of range, and otherwise traverse the
/// adoptee under its repeat bindings, spending one unit of slot budget.
pub open spec fn expand_slot_arm(
    nodes: Seq<InstanceNode>,
    table: Seq<Expr>,
    marked: Seq<u64>,
    idx: int,
    indices: Seq<u64>,
    scope: ScopeView,
    adoptees: Seq<(int, Seq<RepeatBinding>)>,
    m: bool,
    my_pos: int,
    fuel: int,
) -> Result<(Seq<ExpEntry>, Seq<Seq<u64>>, u64), RuntimeError>
    decreases fuel, nodes.len() - idx, 3int, 0int,
    when 0 <= idx < nodes.len() && tree_wf(nodes) && fuel >= 0 && nodes[idx].kind is Slot
    via expand_slot_arm_decreases
{
    match nodes[idx].kind {
        InstanceKind::Slot(ref sl) => match pull_i64_model(table, scope, sl.index) {
            Ok(n) => if 0 <= n < adoptees.len() {
                let (anode, env) = adoptees[n as int];
                if fuel <= 0 {
                    Err(RuntimeError::RecursionLimit)
                } else if 0 <= anode < nodes.len() && env_valid(nodes, env) {
                    let sub_scope = if env.len() == 0 {
                        scope
                    } else {
                        iteration_scope_view(env.last().index, binding_datum(nodes, env.last()))
                    };
                    expand_spec(
                        nodes,
                        table,
                        marked,
                        anode,
                        indices + env_indices(env),
                        sub_scope,
                        adoptees,
                        m,
                        my_pos + 1,
                        Some(my_pos),
                        fuel - 1,
                    )
                } else {
                    Err(RuntimeError::MissingScopeValue)
                }
            } else {
                Ok((Seq::empty(), Seq::empty(), 0u64))
            },
            Err(e) => Err(e),
        },
        _ => Err(RuntimeError::MissingStackFrame),
    }
}

#[via_fn]
proof fn expand_component_arm_decreases(
    nodes: Seq<InstanceNode>,
    table: Seq<Expr>,
    marked: Seq<u64>,
    idx: int,
    indices: Seq<u64>,
    scope: ScopeView,
    m: bool,
    my_pos: int,
    fuel: int,
) {
    assert(node_wf(nodes, idx));
}

#[via_fn]
proof fn expand_slot_arm_decreases(
    nodes: Seq<InstanceNode>,
    table: Seq<Expr>,
    marked: Seq<u64>,
    idx: int,
    indices: Seq<u64>,
    scope: ScopeView,
    adoptees: Seq<(int, Seq<RepeatBinding>)>,
    m: bool,
    my_pos: int,
    fuel: int,
) {
}

/// The expansion of the subtree rooted at `idx` for this tick: the cache
/// entries it contributes in traversal (pre-)order, the id chains in
/// post-order, and the node's layer depth. `indices` are the repeat
/// indices of the enclosing iteration scopes, `scope` the current
/// evaluation scope, `adoptees` the flattened slot content of the
/// nearest component, `inherited` the unmount flag passed down, `base`
/// the absolute cache position this subtree starts at, and `fuel` the
/// remaining slot-jump budget.
pub open spec fn expand_spec(
    nodes: Seq<InstanceNode>,
    table: Seq<Expr>,
    marked: Seq<u64>,
    idx: int,
    indices: Seq<u64>,
    scope: ScopeView,
    adoptees: Seq<(int, Seq<RepeatBinding>)>,
    inherited: bool,
    base: int,
    parent: Option<int>,
    fuel: int,
) -> Result<(Seq<ExpEntry>, Seq<Seq<u64>>, u64), RuntimeError>
    decreases fuel, nodes.len() - idx, 4int, 0int,
    when 0 <= idx < nodes.len() && tree_wf(nodes) && fuel >= 0
    via expand_spec_decreases
{
    let node = nodes[idx];
    let chain = seq![node.instance_id] + indices;
    let m = inherited || marked.contains(node.instance_id);
    let kids: Result<(Seq<ExpEntry>, Seq<Seq<u64>>, u64), RuntimeError> = match node_pulls_spec(
        node,
        table,
        scope,
    ) {
        Err(e) => Err(e),
        Ok(_) => match node.kind {
        InstanceKind::Component(_) => expand_component_arm(
            nodes,
            table,
            marked,
            idx,
            indices,
            scope,
            m,
            base,
            fuel,
        ),
        InstanceKind::Repeat(ref rep) => expand_repeat_spec(
            nodes,
            table,
            marked,
            idx,
            rep.data@,
            0,
            indices,
            adoptees,
            m,
            base + 1,
            Some(base),
            fuel,
        ),
        InstanceKind::Conditional(ref c) => match cond_eval(table, scope, c.condition) {
            Ok(true) => expand_children_spec(
                nodes,
                table,
                marked,
                idx,
                nodes[idx].children@,
                0,
                indices,
                scope,
                adoptees,
                m,
                base + 1,
                Some(base),
                fuel,
            ),
            Ok(false) => Ok((Seq::empty(), Seq::empty(), 0u64)),
            Err(e) => Err(e),
        },
        InstanceKind::Slot(_) => expand_slot_arm(
            nodes,
            table,
            marked,
            idx,
            indices,
            scope,
            adoptees,
            m,
            base,
            fuel,
        ),
        _ => expand_children_spec(
            nodes,
            table,
            marked,
            idx,
            nodes[idx].children@,
            0,
            indices,
            scope,
            adoptees,
            m,
            base + 1,
            Some(base),
            fuel,
        ),
        },
    };
    match kids {
        Ok((kentries, kpost, kdepth)) => {
            let z = bump_depth(kdepth, kind_flags(node.kind).layer);
            let entry = ExpEntry {
                instance_index: idx,
                id_chain: chain,
                scope,
                parent,
                marked_for_unmount: m,
                z,
            };
            Ok((seq![entry] + kentries, kpost.push(chain), z))
        },
        Err(e) => Err(e),
    }
}

/// The concatenated expansion of `list[k..]`, each child under the same
/// environment, accumulating the maximum depth.
pub open spec fn expand_children_spec(
    nodes: Seq<InstanceNode>,
    table: Seq<Expr>,
    marked: Seq<u64>,
    from: int,
    list: Seq<usize>,
    k: int,
    indices: Seq<u64>,
    scope: ScopeView,
    adoptees: Seq<(int, Seq<RepeatBinding>)>,
    inherited: bool,
    base: int,
    parent: Option<int>,
    fuel: int,
) -> Result<(Seq<ExpEntry>, Seq<Seq<u64>>, u64), RuntimeError>
    decreases fuel, nodes.len() - from, 1int, list.len() - k,
    when 0 <= from < nodes.len() && tree_wf(nodes) && 0 <= k <= list.len() && fuel >= 0 && (
    forall|j: int| 0 <= j < list.len() ==> from < #[trigger] list[j] < nodes.len())
    via expand_children_spec_decreases
{
    if k >= list.len() {
        Ok((Seq::empty(), Seq::empty(), 0u64))
    } else {
        match expand_spec(
            nodes,
            table,
            marked,
            list[k] as int,
            indices,
            scope,
            adoptees,
            inherited,
            base,
            parent,
            fuel,
        ) {
            Ok((e1, p1, d1)) => match expand_children_spec(
                nodes,
                table,
                marked,
                from,
                list,
                k + 1,
                indices,
                scope,
                adoptees,
                inherited,
                base + e1.len(),
                parent,
                fuel,
            ) {
                Ok((e2, p2, d2)) => Ok((e1 + e2, p1 + p2, max_depth(d1, d2))),
                Err(e) => Err(e),
            },
            Err(e) => Err(e),
        }
    }
}

/// The concatenated expansion of a repeat's children for iterations
/// `i..`, each under a fresh iteration scope with its index appended to
/// the chain.
pub open spec fn expand_repeat_spec(
    nodes: Seq<InstanceNode>,
    table: Seq<Expr>,
    marked: Seq<u64>,
    rep_idx: int,
    data: Seq<Value>,
    i: int,
    indices: Seq<u64>,
    adoptees: Seq<(int, Seq<RepeatBinding>)>,
    inherited: bool,
    base: int,
    parent: Option<int>,
    fuel: int,
) -> Result<(Seq<ExpEntry>, Seq<Seq<u64>>, u64), RuntimeError>
    decreases fuel, nodes.len() - rep_idx, 2int, data.len() - i,
    when 0 <= rep_idx < nodes.len() && tree_wf(nodes) && (nodes[rep_idx].kind matches
        InstanceKind::Repeat(ref rep) && rep.data@ == data) && 0 <= i <= data.len() && data.len()
        <= i64::MAX && fuel >= 0
    via expand_repeat_spec_decreases
{
    if i >= data.len() {
        Ok((Seq::empty(), Seq::empty(), 0u64))
    } else {
        let iscope = iteration_scope_view(i as i64, data[i]@);
        match expand_children_spec(
            nodes,
            table,
            marked,
            rep_idx,
            nodes[rep_idx].children@,
            0,
            indices.push(i as u64),
            iscope,
            adoptees,
            inherited,
            base,
            parent,
            fuel,
        ) {
            Ok((e1, p1, d1)) => match expand_repeat_spec(
                nodes,
                table,
                marked,
                rep_idx,
                data,
                i + 1,
                indices,
                adoptees,
                inherited,
                base + e1.len(),
                parent,
                fuel,
            ) {
                Ok((e2, p2, d2)) => Ok((e1 + e2, p1 + p2, max_depth(d1, d2))),
                Err(e) => Err(e),
            },
            Err(e) => Err(e),
        }
    }
}

#[via_fn]
proof fn expand_spec_decreases(
    nodes: Seq<InstanceNode>,
    table: Seq<Expr>,
    marked: Seq<u64>,
    idx: int,
    indices: Seq<u64>,
    scope: ScopeView,
    adoptees: Seq<(int, Seq<RepeatBinding>)>,
    inherited: bool,
    base: int,
    parent: Option<int>,
    fuel: int,
) {
    assert(node_wf(nodes, idx));
}

#[via_fn]
proof fn expand_children_spec_decreases(
    nodes: Seq<InstanceNode>,
    table: Seq<Expr>,
    marked: Seq<u64>,
    from: int,
    list: Seq<usize>,
    k: int,
    indices: Seq<u64>,
    scope: ScopeView,
    adoptees: Seq<(int, Seq<RepeatBinding>)>,
    inherited: bool,
    base: int,
    parent: Option<int>,
    fuel: int,
) {
    if k < list.len() {
        assert(from < list[k] < nodes.len());
    }
}

#[via_fn]
proof fn expand_repeat_spec_decreases(
    nodes: Seq<InstanceNode>,
    table: Seq<Expr>,
    marked: Seq<u64>,
    rep_idx: int,
    data: Seq<Value>,
    i: int,
    indices: Seq<u64>,
    adoptees: Seq<(int, Seq<RepeatBinding>)>,
    inherited: bool,
    base: int,
    parent: Option<int>,
    fuel: int,
) {
    assert(node_wf(nodes, rep_idx));
}

/// The model of an optional cache position.
pub open spec fn opt_pos_model(p: Option<usize>) -> Option<int> {
    match p {
        Some(v) => Some(v as int),
        None => None,
    }
}

fn contains_u64(set: &Vec<u64>, x: u64) -> (r: bool)
    ensures
        r == set@.contains(x),
{
    let n = set.len();
    let mut i: usize = 0;
    while i < n
        invariant
            i <= n,
            n == set@.len(),
            forall|j: int| 0 <= j < i ==> set@[j] != x,
        decreases n - i,
    {
        if set[i] == x {
            return true;
        }
        i = i + 1;
    }
    false
}

fn make_chain(instance_id: u64, indices: &Vec<u64>) -> (r: Vec<u64>)
    ensures
        r@ == seq![instance_id] + indices@,
{
    let mut chain: Vec<u64> = Vec::new();
    chain.push(instance_id);
    let n = indices.len();
    let mut i: usize = 0;
    while i < n
        invariant
            i <= n,
            n == indices@.len(),
            chain@ == seq![instance_id] + indices@.take(i as int),
        decreases n - i,
    {
        chain.push(indices[i]);
        proof {
            assert(chain@ =~= seq![instance_id] + indices@.take(i as int + 1));
        }
        i = i + 1;
    }
    proof {
        assert(indices@.take(n as int) =~= indices@);
    }
    chain
}

fn dup_props(props: &Vec<(u64, Value)>) -> (r: Vec<(u64, Value)>)
    ensures
        r@.map_values(|p: (u64, Value)| (p.0, p.1@)) == props@.map_values(
            |p: (u64, Value)| (p.0, p.1@),
        ),
{
    let mut out: Vec<(u64, Value)> = Vec::new();
    let n = props.len();
    let mut i: usize = 0;
    while i < n
        invariant
            i <= n,
            n == props@.len(),
            out@.len() == i,
            forall|j: int|
                0 <= j < i ==> #[trigger] out@[j].0 == props@[j].0 && out@[j].1@ == props@[j].1@,
        decreases n - i,
    {
        let entry = (props[i].0, props[i].1.duplicate());
        out.push(entry);
        i = i + 1;
    }
    proof {
        assert(out@.map_values(|p: (u64, Value)| (p.0, p.1@)) =~= props@.map_values(
            |p: (u64, Value)| (p.0, p.1@),
        ));
    }
    out
}

/// Compute the native-bridge state of one node, failing exactly where a
/// widget property fails to pull.
fn compute_native_state(
    kind: &InstanceKind,
    table: &ExpressionTable,
    scope: &Scope,
    tab: &TransformAndBounds,
) -> (r: Result<Option<NodeState>, RuntimeError>)
    ensures
        match widget_pulls_spec(*kind, table.entries@, scope@) {
            Ok(_) => r == Ok::<Option<NodeState>, RuntimeError>(
                native_state_of(*kind, table.entries@, scope@, *tab),
            ),
            Err(e) => r == Err::<Option<NodeState>, RuntimeError>(e),
        },
{
    match kind {
        InstanceKind::Slider(s) => {
            let p = &s.properties;
            let value = match crate::property::pull_i64(table, scope, &p.value) {
                Ok(v) => v,
                Err(e) => {
                    return Err(e);
                },
            };
            let step = match crate::property::pull_i64(table, scope, &p.step) {
                Ok(v) => v,
                Err(e) => {
                    return Err(e);
                },
            };
            let min = match crate::property::pull_i64(table, scope, &p.min) {
                Ok(v) => v,
                Err(e) => {
                    return Err(e);
                },
            };
            let max = match crate::property::pull_i64(table, scope, &p.max) {
                Ok(v) => v,
                Err(e) => {
                    return Err(e);
                },
            };
            let border_radius = match crate::property::pull_i64(table, scope, &p.border_radius) {
                Ok(v) => v,
                Err(e) => {
                    return Err(e);
                },
            };
            let accent = match crate::property::pull_color(table, scope, &p.accent) {
                Ok(v) => v,
                Err(e) => {
                    return Err(e);
                },
            };
            let background = match crate::property::pull_color(table, scope, &p.background) {
                Ok(v) => v,
                Err(e) => {
                    return Err(e);
                },
            };
            Ok(
                Some(
                    NodeState::Slider(
                        SliderState {
                            size_x: tab.bounds.0,
                            size_y: tab.bounds.1,
                            transform: tab.transform,
                            value,
                            step,
                            min,
                            max,
                            accent,
                            background,
                            border_radius,
                        },
                    ),
                ),
            )
        },
        InstanceKind::Dropdown(d) => {
            let p = &d.properties;
            let selected_id = match crate::property::pull_u32(table, scope, &p.selected_id) {
                Ok(v) => v,
                Err(e) => {
                    return Err(e);
                },
            };
            let background = match crate::property::pull_color(table, scope, &p.background) {
                Ok(v) => v,
                Err(e) => {
                    return Err(e);
                },
            };
            let stroke_color = match crate::property::pull_color(table, scope, &p.stroke_color) {
                Ok(v) => v,
                Err(e) => {
                    return Err(e);
                },
            };
            let stroke_size = match crate::property::pull_size(table, scope, &p.stroke_width) {
                Ok(v) => v,
                Err(e) => {
                    return Err(e);
                },
            };
            let border_radius = match crate::property::pull_i64(table, scope, &p.border_radius) {
                Ok(v) => v,
                Err(e) => {
                    return Err(e);
                },
            };
            let stroke_width = match stroke_size.evaluate(tab.bounds, crate::value::Axis::X) {
                Some(v) => v,
                None => 0,
            };
            Ok(
                Some(
                    NodeState::Dropdown(
                        DropdownState {
                            size_x: tab.bounds.0,
                            size_y: tab.bounds.1,
                            transform: tab.transform,
                            selected_id,
                            background,
                            stroke_color,
                            stroke_width,
                            border_radius,
                        },
                    ),
                ),
            )
        },
        InstanceKind::Frame(_) => Ok(
            Some(
                NodeState::Frame(
                    FrameState {
                        size_x: tab.bounds.0,
                        size_y: tab.bounds.1,
                        transform: tab.transform,
                    },
                ),
            ),
        ),
        _ => Ok(None),
    }
}


fn check_binding(tree: &InstanceTree, b: RepeatBinding) -> (r: bool)
    ensures
        r == binding_valid(tree.nodes@, b),
{
    if b.repeat_node >= tree.nodes.len() {
        return false;
    }
    match &tree.nodes[b.repeat_node].kind {
        InstanceKind::Repeat(r2) => b.index >= 0 && (b.index as u64) < (r2.data.len() as u64),
        _ => false,
    }
}

fn binding_datum_exec(tree: &InstanceTree, b: RepeatBinding) -> (r: Value)
    requires
        binding_valid(tree.nodes@, b),
    ensures
        r@ == binding_datum(tree.nodes@, b),
{
    match &tree.nodes[b.repeat_node].kind {
        InstanceKind::Repeat(r2) => {
            proof {
                assert(0 <= b.index < r2.data@.len());
                assert(tree.nodes@[b.repeat_node as int].kind matches InstanceKind::Repeat(
                    ref rep,
                ) && rep.data@ == r2.data@);
            }
            let dl = r2.data.len();
            proof {
                assert(dl == r2.data@.len());
                assert(b.index as usize as int == b.index as int);
            }
            let d = r2.data[b.index as usize].duplicate();
            proof {
                assert(d@ == binding_datum(tree.nodes@, b));
            }
            d
        },
        _ => {
            proof {
                assert(false);
            }
            Value::Bool(false)
        },
    }
}

/// What one traversal call guarantees: its spec outcome matches, the
/// caches only grew, and every new entry carries correct geometry.
pub open spec fn traverse_post_ok(
    nodes: Seq<InstanceNode>,
    table: Seq<Expr>,
    spec_result: Result<(Seq<ExpEntry>, Seq<Seq<u64>>, u64), RuntimeError>,
    r: Result<u64, RuntimeError>,
    out0: Seq<ExpandedNode>,
    out1: Seq<ExpandedNode>,
    post0: Seq<Vec<u64>>,
    post1: Seq<Vec<u64>>,
    root_tab: TransformAndBounds,
) -> bool {
    match r {
        Ok(depth) => {
            &&& spec_result == Ok::<(Seq<ExpEntry>, Seq<Seq<u64>>, u64), RuntimeError>(
                (
                    cache_model(out1.skip(out0.len() as int)),
                    chain_views(post1.skip(post0.len() as int)),
                    depth,
                ),
            )
            &&& out1.len() >= out0.len()
            &&& out1.take(out0.len() as int) == out0
            &&& post1.len() >= post0.len()
            &&& post1.take(post0.len() as int) == post0
            &&& forall|k: int|
                out0.len() <= k < out1.len() ==> entry_geometry_ok(nodes, table, out1, k, root_tab)
        },
        Err(e) => spec_result == Err::<(Seq<ExpEntry>, Seq<Seq<u64>>, u64), RuntimeError>(e),
    }
}

/// Entries whose geometry was correct stay correct when the cache only
/// grows past them: the predicate of entry `k` reads entries at or below
/// `k` alone.
proof fn lemma_geometry_extend(
    nodes: Seq<InstanceNode>,
    table: Seq<Expr>,
    pre: Seq<ExpandedNode>,
    cur: Seq<ExpandedNode>,
    lo: int,
    root_tab: TransformAndBounds,
)
    requires
        0 <= lo,
        pre.len() <= cur.len(),
        cur.take(pre.len() as int) == pre,
        forall|k: int| lo <= k < pre.len() ==> entry_geometry_ok(nodes, table, pre, k, root_tab),
        forall|k: int|
            pre.len() <= k < cur.len() ==> entry_geometry_ok(nodes, table, cur, k, root_tab),
    ensures
        forall|k: int| lo <= k < cur.len() ==> entry_geometry_ok(nodes, table, cur, k, root_tab),
{
    assert forall|k: int| lo <= k < cur.len() implies entry_geometry_ok(
        nodes,
        table,
        cur,
        k,
        root_tab,
    ) by {
        if k < pre.len() {
            assert(entry_geometry_ok(nodes, table, pre, k, root_tab));
            assert(cur[k] == pre[k]) by {
                assert(cur.take(pre.len() as int)[k] == cur[k]);
            }
            match pre[k].parent {
                Some(p) => {
                    assert(cur[p as int] == pre[p as int]) by {
                        assert(cur.take(pre.len() as int)[p as int] == cur[p as int]);
                    }
                },
                None => {},
            }
        }
    }
}

/// Traverse every node of `list` in order under one environment,
/// appending their expansions and accumulating the maximum layer depth.
#[verifier::rlimit(100)]
fn recurse_children(
    tree: &InstanceTree,
    table: &ExpressionTable,
    marked: &Vec<u64>,
    from: usize,
    list: &Vec<usize>,
    indices: &Vec<u64>,
    scope: &Scope,
    adoptees: &Vec<Adoptee>,
    inherited: bool,
    parent: Option<usize>,
    container_tab: TransformAndBounds,
    Ghost(root_tab): Ghost<TransformAndBounds>,
    out: &mut Vec<ExpandedNode>,
    post: &mut Vec<Vec<u64>>,
    fuel: u64,
) -> (r: Result<u64, RuntimeError>)
    requires
        tree.wf(),
        from < tree.nodes@.len(),
        forall|j: int| 0 <= j < list@.len() ==> from < #[trigger] list@[j] < tree.nodes@.len(),
        match parent {
            Some(p) => p < old(out)@.len() && old(out)@[p as int].tab == container_tab,
            None => container_tab == root_tab,
        },
    ensures
        traverse_post_ok(
            tree.nodes@,
            table.entries@,
            expand_children_spec(
                tree.nodes@,
                table.entries@,
                marked@,
                from as int,
                list@,
                0,
                indices@,
                scope@,
                adoptee_views(adoptees@),
                inherited,
                old(out)@.len() as int,
                opt_pos_model(parent),
                fuel as int,
            ),
            r,
            old(out)@,
            final(out)@,
            old(post)@,
            final(post)@,
            root_tab,
        ),
    decreases fuel, tree.nodes@.len() - from, 1int, 0int,
{
    let ghost base_out = out@;
    let ghost base_post = post@;
    let ghost mut eacc: Seq<ExpEntry> = Seq::empty();
    let ghost mut pacc: Seq<Seq<u64>> = Seq::empty();
    let mut depth: u64 = 0;
    let n = list.len();
    let mut k: usize = 0;
    proof {
        assert(cache_model(out@.skip(base_out.len() as int)) =~= eacc);
        assert(chain_views(post@.skip(base_post.len() as int)) =~= pacc);
        assert(out@.take(base_out.len() as int) =~= base_out);
        assert(post@.take(base_post.len() as int) =~= base_post);
    }
    while k < n
        invariant
            tree.wf(),
            from < tree.nodes@.len(),
            n == list@.len(),
            forall|j: int| 0 <= j < list@.len() ==> from < #[trigger] list@[j] < tree.nodes@.len(),
            0 <= k <= n,
            out@.len() >= base_out.len(),
            out@.take(base_out.len() as int) == base_out,
            post@.len() >= base_post.len(),
            post@.take(base_post.len() as int) == base_post,
            cache_model(out@.skip(base_out.len() as int)) == eacc,
            chain_views(post@.skip(base_post.len() as int)) == pacc,
            base_out == old(out)@,
            base_post == old(post)@,
            match parent {
                Some(p) => p < base_out.len() && base_out[p as int].tab == container_tab,
                None => container_tab == root_tab,
            },
            forall|j: int|
                base_out.len() <= j < out@.len() ==> entry_geometry_ok(
                    tree.nodes@,
                    table.entries@,
                    out@,
                    j,
                    root_tab,
                ),
            ({
                let whole = expand_children_spec(
                    tree.nodes@,
                    table.entries@,
                    marked@,
                    from as int,
                    list@,
                    0,
                    indices@,
                    scope@,
                    adoptee_views(adoptees@),
                    inherited,
                    base_out.len() as int,
                    opt_pos_model(parent),
                    fuel as int,
                );
                let rest = expand_children_spec(
                    tree.nodes@,
                    table.entries@,
                    marked@,
                    from as int,
                    list@,
                    k as int,
                    indices@,
                    scope@,
                    adoptee_views(adoptees@),
                    inherited,
                    out@.len() as int,
                    opt_pos_model(parent),
                    fuel as int,
                );
                match rest {
                    Ok((e2, p2, d2)) => whole == Ok::<
                        (Seq<ExpEntry>, Seq<Seq<u64>>, u64),
                        RuntimeError,
                    >((eacc + e2, pacc + p2, max_depth(depth, d2))),
                    Err(_) => whole == rest,
                }
            }),
        decreases n - k,
    {
        proof {
            assert(from < list@[k as int] < tree.nodes@.len());
        }
        let child = list[k];
        let ghost prev_out = out@;
        let ghost prev_post = post@;
        let r1 = recurse_traverse_render_tree(
            tree,
            table,
            marked,
            child,
            indices,
            scope,
            adoptees,
            inherited,
            parent,
            container_tab,
            Ghost(root_tab),
            out,
            post,
            fuel,
        );
        let d1 = match r1 {
            Ok(d) => d,
            Err(e) => {
                return Err(e);
            },
        };
        let ghost old_depth = depth;
        if d1 > depth {
            depth = d1;
        }
        proof {
            let e1 = cache_model(out@.skip(prev_out.len() as int));
            let p1 = chain_views(post@.skip(prev_post.len() as int));
            assert(out@.take(base_out.len() as int) =~= base_out);
            assert(post@.take(base_post.len() as int) =~= base_post);
            assert(cache_model(out@.skip(base_out.len() as int)) =~= eacc + e1);
            assert(chain_views(post@.skip(base_post.len() as int)) =~= pacc + p1);
            lemma_geometry_extend(
                tree.nodes@,
                table.entries@,
                prev_out,
                out@,
                base_out.len() as int,
                root_tab,
            );
            let rest_next = expand_children_spec(
                tree.nodes@,
                table.entries@,
                marked@,
                from as int,
                list@,
                k as int + 1,
                indices@,
                scope@,
                adoptee_views(adoptees@),
                inherited,
                out@.len() as int,
                opt_pos_model(parent),
                fuel as int,
            );
            let old_eacc = eacc;
            let old_pacc = pacc;
            eacc = eacc + e1;
            pacc = pacc + p1;
            match rest_next {
                Ok((e2, p2, d2)) => {
                    assert(old_eacc + (e1 + e2) =~= eacc + e2);
                    assert(old_pacc + (p1 + p2) =~= pacc + p2);
                    assert(max_depth(old_depth, max_depth(d1, d2)) == max_depth(depth, d2));
                },
                Err(_) => {},
            }
        }
        k = k + 1;
    }
    proof {
        assert(eacc + Seq::<ExpEntry>::empty() =~= eacc);
        assert(pacc + Seq::<Seq<u64>>::empty() =~= pacc);
        assert(max_depth(depth, 0u64) == depth);
    }
    Ok(depth)
}

/// The kid traversal of a component node standing at `my_pos`.
#[verifier::rlimit(100)]
fn recurse_component_arm(
    tree: &InstanceTree,
    table: &ExpressionTable,
    marked: &Vec<u64>,
    idx: usize,
    indices: &Vec<u64>,
    scope: &Scope,
    m: bool,
    my_pos: usize,
    tab: TransformAndBounds,
    Ghost(root_tab): Ghost<TransformAndBounds>,
    out: &mut Vec<ExpandedNode>,
    post: &mut Vec<Vec<u64>>,
    fuel: u64,
) -> (r: Result<u64, RuntimeError>)
    requires
        tree.wf(),
        idx < tree.nodes@.len(),
        tree.nodes@[idx as int].kind is Component,
        my_pos < old(out)@.len(),
        old(out)@.len() == my_pos + 1,
        old(out)@[my_pos as int].tab == tab,
    ensures
        traverse_post_ok(
            tree.nodes@,
            table.entries@,
            expand_component_arm(
                tree.nodes@,
                table.entries@,
                marked@,
                idx as int,
                indices@,
                scope@,
                m,
                my_pos as int,
                fuel as int,
            ),
            r,
            old(out)@,
            final(out)@,
            old(post)@,
            final(post)@,
            root_tab,
        ),
    decreases fuel, tree.nodes@.len() - idx, 2int, 0int,
{
    proof {
        assert(node_wf(tree.nodes@, idx as int));
    }
    let node = &tree.nodes[idx];
    match &node.kind {
        InstanceKind::Component(c) => {
            let mut new_adoptees: Vec<Adoptee> = Vec::new();
            let ghost mut aacc: Seq<(int, Seq<RepeatBinding>)> = Seq::empty();
            let na = node.children.len();
            let mut ka: usize = 0;
            let env0: Vec<RepeatBinding> = Vec::new();
            proof {
                assert(adoptee_views(new_adoptees@) =~= aacc);
            }
            while ka < na
                invariant
                    tree.wf(),
                    idx < tree.nodes@.len(),
                    tree.nodes@[idx as int].kind is Component,
                    na == tree.nodes@[idx as int].children@.len(),
                    0 <= ka <= na,
                    env0@ == Seq::<RepeatBinding>::empty(),
                    adoptee_views(new_adoptees@) == aacc,
                    ({
                        let whole = flatten_list_spec(
                            tree.nodes@,
                            table.entries@,
                            scope@,
                            tree.nodes@[idx as int].children@,
                            0,
                        );
                        let rest = flatten_list_spec(
                            tree.nodes@,
                            table.entries@,
                            scope@,
                            tree.nodes@[idx as int].children@,
                            ka as int,
                        );
                        match rest {
                            Ok(rs) => whole == Ok::<Seq<(int, Seq<RepeatBinding>)>, RuntimeError>(
                                aacc + rs,
                            ),
                            Err(_) => whole == rest,
                        }
                    }),
                decreases na - ka,
            {
                proof {
                    assert(node_wf(tree.nodes@, idx as int));
                    assert(idx < tree.nodes@[idx as int].children@[ka as int] < tree.nodes@.len());
                }
                let child = tree.nodes[idx].children[ka];
                let fr = crate::runtime::process_adoptee_recursive(
                    tree,
                    table,
                    scope,
                    child,
                    &env0,
                    &mut new_adoptees,
                );
                match fr {
                    Ok(_) => (),
                    Err(e) => {
                        return Err(e);
                    },
                }
                proof {
                    let s_child = crate::runtime::flatten_spec(
                        tree.nodes@,
                        table.entries@,
                        scope@,
                        tree.nodes@[idx as int].children@[ka as int] as int,
                        Seq::empty(),
                    );
                    let rest_next = flatten_list_spec(
                        tree.nodes@,
                        table.entries@,
                        scope@,
                        tree.nodes@[idx as int].children@,
                        ka as int + 1,
                    );
                    let old_aacc = aacc;
                    aacc = aacc + s_child->Ok_0;
                    match rest_next {
                        Ok(rs) => {
                            assert(old_aacc + (s_child->Ok_0 + rs) =~= aacc + rs);
                        },
                        Err(_) => {},
                    }
                }
                ka = ka + 1;
            }
            proof {
                assert(aacc + Seq::<(int, Seq<RepeatBinding>)>::empty() =~= aacc);
            }
            let cscope = Scope {
                properties: dup_props(&c.properties),
                repeat_index: None,
                repeat_datum: None,
            };
            proof {
                assert(cscope@.properties =~= component_scope_view(c.properties@).properties);
                assert(cscope@ == component_scope_view(c.properties@));
                assert forall|j: int| 0 <= j < c.template@.len() implies idx
                    < #[trigger] c.template@[j] < tree.nodes@.len() by {
                    assert(node_wf(tree.nodes@, idx as int));
                }
            }
            recurse_children(
                tree,
                table,
                marked,
                idx,
                &c.template,
                indices,
                &cscope,
                &new_adoptees,
                m,
                Some(my_pos),
                tab,
                Ghost(root_tab),
                out,
                post,
                fuel,
            )
        },
        _ => {
            proof {
                assert(false);
            }
            Err(RuntimeError::MissingStackFrame)
        },
    }
}

/// The kid traversal of a repeat node standing at `my_pos`: once per
/// datum, under a fresh iteration scope, with the index appended to the
/// chain.
#[verifier::rlimit(100)]
fn recurse_repeat_arm(
    tree: &InstanceTree,
    table: &ExpressionTable,
    marked: &Vec<u64>,
    idx: usize,
    indices: &Vec<u64>,
    scope: &Scope,
    adoptees: &Vec<Adoptee>,
    m: bool,
    my_pos: usize,
    tab: TransformAndBounds,
    Ghost(root_tab): Ghost<TransformAndBounds>,
    out: &mut Vec<ExpandedNode>,
    post: &mut Vec<Vec<u64>>,
    fuel: u64,
) -> (r: Result<u64, RuntimeError>)
    requires
        tree.wf(),
        idx < tree.nodes@.len(),
        tree.nodes@[idx as int].kind is Repeat,
        my_pos < old(out)@.len(),
        old(out)@[my_pos as int].tab == tab,
    ensures
        ({
            let data = match tree.nodes@[idx as int].kind {
                InstanceKind::Repeat(ref rep) => rep.data@,
                _ => Seq::empty(),
            };
            traverse_post_ok(
                tree.nodes@,
                table.entries@,
                expand_repeat_spec(
                    tree.nodes@,
                    table.entries@,
                    marked@,
                    idx as int,
                    data,
                    0,
                    indices@,
                    adoptee_views(adoptees@),
                    m,
                    old(out)@.len() as int,
                    Some(my_pos as int),
                    fuel as int,
                ),
                r,
                old(out)@,
                final(out)@,
                old(post)@,
                final(post)@,
                root_tab,
            )
        }),
    decreases fuel, tree.nodes@.len() - idx, 2int, 0int,
{
    proof {
        assert(node_wf(tree.nodes@, idx as int));
    }
    let node = &tree.nodes[idx];
    match &node.kind {
        InstanceKind::Repeat(rep) => {
            let nd = rep.data.len();
            let ghost rep_base_out = out@;
            let ghost rep_base_post = post@;
            let ghost mut eacc: Seq<ExpEntry> = Seq::empty();
            let ghost mut pacc: Seq<Seq<u64>> = Seq::empty();
            let mut rdepth: u64 = 0;
            let mut i: usize = 0;
            proof {
                assert(cache_model(out@.skip(rep_base_out.len() as int)) =~= eacc);
                assert(chain_views(post@.skip(rep_base_post.len() as int)) =~= pacc);
                assert(out@.take(rep_base_out.len() as int) =~= rep_base_out);
                assert(post@.take(rep_base_post.len() as int) =~= rep_base_post);
            }
            while i < nd
                invariant
                    tree.wf(),
                    idx < tree.nodes@.len(),
                    *node == tree.nodes@[idx as int],
                    (tree.nodes@[idx as int].kind matches InstanceKind::Repeat(ref r2)
                        && r2.data@.len() == nd && r2.data@ == rep.data@),
                    rep.data@.len() == nd,
                    nd <= i64::MAX,
                    0 <= i <= nd,
                    my_pos < rep_base_out.len(),
                    rep_base_out[my_pos as int].tab == tab,
                    out@.len() >= rep_base_out.len(),
                    out@.take(rep_base_out.len() as int) == rep_base_out,
                    post@.len() >= rep_base_post.len(),
                    post@.take(rep_base_post.len() as int) == rep_base_post,
                    cache_model(out@.skip(rep_base_out.len() as int)) == eacc,
                    chain_views(post@.skip(rep_base_post.len() as int)) == pacc,
                    rep_base_out == old(out)@,
                    rep_base_post == old(post)@,
                    forall|j: int|
                        rep_base_out.len() <= j < out@.len() ==> entry_geometry_ok(
                            tree.nodes@,
                            table.entries@,
                            out@,
                            j,
                            root_tab,
                        ),
                    ({
                        let whole = expand_repeat_spec(
                            tree.nodes@,
                            table.entries@,
                            marked@,
                            idx as int,
                            rep.data@,
                            0,
                            indices@,
                            adoptee_views(adoptees@),
                            m,
                            rep_base_out.len() as int,
                            Some(my_pos as int),
                            fuel as int,
                        );
                        let rest = expand_repeat_spec(
                            tree.nodes@,
                            table.entries@,
                            marked@,
                            idx as int,
                            rep.data@,
                            i as int,
                            indices@,
                            adoptee_views(adoptees@),
                            m,
                            out@.len() as int,
                            Some(my_pos as int),
                            fuel as int,
                        );
                        match rest {
                            Ok((e2, p2, d2)) => whole == Ok::<
                                (Seq<ExpEntry>, Seq<Seq<u64>>, u64),
                                RuntimeError,
                            >((eacc + e2, pacc + p2, max_depth(rdepth, d2))),
                            Err(_) => whole == rest,
                        }
                    }),
                decreases nd - i,
            {
                let datum = rep.data[i].duplicate();
                let iscope = Scope {
                    properties: Vec::new(),
                    repeat_index: Some(i as i64),
                    repeat_datum: Some(datum),
                };
                proof {
                    assert(iscope@.properties =~= iteration_scope_view(
                        i as i64,
                        rep.data@[i as int]@,
                    ).properties);
                    assert(iscope@ == iteration_scope_view(i as i64, rep.data@[i as int]@));
                }
                let mut indices2 = indices.clone();
                indices2.push(i as u64);
                proof {
                    assert(indices2@ =~= indices@.push(i as u64));
                }
                let ghost prev_out = out@;
                let ghost prev_post = post@;
                proof {
                    assert(node_wf(tree.nodes@, idx as int));
                    assert forall|j2: int| 0 <= j2 < node.children@.len() implies idx
                        < #[trigger] node.children@[j2] < tree.nodes@.len() by {}
                    assert(out@[my_pos as int] == rep_base_out[my_pos as int]) by {
                        assert(out@.take(rep_base_out.len() as int)[my_pos as int]
                            == out@[my_pos as int]);
                    }
                }
                let r1 = recurse_children(
                    tree,
                    table,
                    marked,
                    idx,
                    &node.children,
                    &indices2,
                    &iscope,
                    adoptees,
                    m,
                    Some(my_pos),
                    tab,
                    Ghost(root_tab),
                    out,
                    post,
                    fuel,
                );
                let d1 = match r1 {
                    Ok(d) => d,
                    Err(e) => {
                        return Err(e);
                    },
                };
                let ghost old_rdepth = rdepth;
                if d1 > rdepth {
                    rdepth = d1;
                }
                proof {
                    let e1 = cache_model(out@.skip(prev_out.len() as int));
                    let p1 = chain_views(post@.skip(prev_post.len() as int));
                    assert(out@.take(rep_base_out.len() as int) =~= rep_base_out);
                    assert(post@.take(rep_base_post.len() as int) =~= rep_base_post);
                    assert(cache_model(out@.skip(rep_base_out.len() as int)) =~= eacc + e1);
                    assert(chain_views(post@.skip(rep_base_post.len() as int)) =~= pacc + p1);
                    lemma_geometry_extend(
                        tree.nodes@,
                        table.entries@,
                        prev_out,
                        out@,
                        rep_base_out.len() as int,
                        root_tab,
                    );
                    let rest_next = expand_repeat_spec(
                        tree.nodes@,
                        table.entries@,
                        marked@,
                        idx as int,
                        rep.data@,
                        i as int + 1,
                        indices@,
                        adoptee_views(adoptees@),
                        m,
                        out@.len() as int,
                        Some(my_pos as int),
                        fuel as int,
                    );
                    let old_eacc = eacc;
                    let old_pacc = pacc;
                    eacc = eacc + e1;
                    pacc = pacc + p1;
                    match rest_next {
                        Ok((e2, p2, d2)) => {
                            assert(old_eacc + (e1 + e2) =~= eacc + e2);
                            assert(old_pacc + (p1 + p2) =~= pacc + p2);
                            assert(max_depth(old_rdepth, max_depth(d1, d2)) == max_depth(
                                rdepth,
                                d2,
                            ));
                        },
                        Err(_) => {},
                    }
                }
                i = i + 1;
            }
            proof {
                assert(eacc + Seq::<ExpEntry>::empty() =~= eacc);
                assert(pacc + Seq::<Seq<u64>>::empty() =~= pacc);
                assert(max_depth(rdepth, 0u64) == rdepth);
            }
            Ok(rdepth)
        },
        _ => {
            proof {
                assert(false);
            }
            Err(RuntimeError::MissingStackFrame)
        },
    }
}

/// The kid traversal of a slot node standing at `my_pos`.
#[verifier::rlimit(100)]
fn recurse_slot_arm(
    tree: &InstanceTree,
    table: &ExpressionTable,
    marked: &Vec<u64>,
    idx: usize,
    indices: &Vec<u64>,
    scope: &Scope,
    adoptees: &Vec<Adoptee>,
    m: bool,
    my_pos: usize,
    tab: TransformAndBounds,
    Ghost(root_tab): Ghost<TransformAndBounds>,
    out: &mut Vec<ExpandedNode>,
    post: &mut Vec<Vec<u64>>,
    fuel: u64,
) -> (r: Result<u64, RuntimeError>)
    requires
        tree.wf(),
        idx < tree.nodes@.len(),
        tree.nodes@[idx as int].kind is Slot,
        my_pos < old(out)@.len(),
        old(out)@.len() == my_pos + 1,
        old(out)@[my_pos as int].tab == tab,
    ensures
        traverse_post_ok(
            tree.nodes@,
            table.entries@,
            expand_slot_arm(
                tree.nodes@,
                table.entries@,
                marked@,
                idx as int,
                indices@,
                scope@,
                adoptee_views(adoptees@),
                m,
                my_pos as int,
                fuel as int,
            ),
            r,
            old(out)@,
            final(out)@,
            old(post)@,
            final(post)@,
            root_tab,
        ),
    decreases fuel, tree.nodes@.len() - idx, 2int, 0int,
{
    proof {
        assert(node_wf(tree.nodes@, idx as int));
    }
    let node = &tree.nodes[idx];
    match &node.kind {
        InstanceKind::Slot(sl) => {
            match crate::property::pull_i64(table, scope, &sl.index) {
                Err(e) => Err(e),
                Ok(nidx) => {
                    if nidx >= 0 && (nidx as u64) < (adoptees.len() as u64) {
                        if fuel == 0 {
                            Err(RuntimeError::RecursionLimit)
                        } else {
                            let a = &adoptees[nidx as usize];
                            proof {
                                assert(adoptee_views(adoptees@)[nidx as int] == (
                                a.node as int,
                                a.env@,
                                ));
                            }
                            if a.node >= tree.nodes.len() {
                                Err(RuntimeError::MissingScopeValue)
                            } else {
                                let mut indices2 = indices.clone();
                                proof {
                                    assert(indices2@ =~= indices@);
                                    assert(env_indices(a.env@.take(0)) =~= Seq::<u64>::empty());
                                    assert(indices2@ =~= indices@ + env_indices(a.env@.take(0)));
                                }
                                let ne = a.env.len();
                                let mut j: usize = 0;
                                while j < ne
                                    invariant
                                        tree.wf(),
                                        idx < tree.nodes@.len(),
                                        tree.nodes@[idx as int].kind is Slot,
                                        (tree.nodes@[idx as int].kind matches InstanceKind::Slot(
                                            ref s2,
                                        ) && pull_i64_model(table.entries@, scope@, s2.index)
                                            == Ok::<i64, RuntimeError>(nidx)),
                                        0 <= nidx,
                                        nidx < adoptees@.len(),
                                        fuel >= 1,
                                        a.node < tree.nodes@.len(),
                                        adoptee_views(adoptees@)[nidx as int] == (
                                        a.node as int,
                                        a.env@,
                                        ),
                                        ne == a.env@.len(),
                                        0 <= j <= ne,
                                        indices2@ == indices@ + env_indices(a.env@.take(j as int)),
                                        forall|t: int|
                                            0 <= t < j ==> #[trigger] binding_valid(
                                                tree.nodes@,
                                                a.env@[t],
                                            ),
                                    decreases ne - j,
                                {
                                    let b = a.env[j];
                                    if !check_binding(tree, b) {
                                        proof {
                                            assert(!binding_valid(
                                                tree.nodes@,
                                                a.env@[j as int],
                                            ));
                                            assert(!env_valid(tree.nodes@, a.env@));
                                        }
                                        return Err(RuntimeError::MissingScopeValue);
                                    }
                                    indices2.push(b.index as u64);
                                    proof {
                                        assert(a.env@.take(j as int + 1).drop_last()
                                            =~= a.env@.take(j as int));
                                        assert(env_indices(a.env@.take(j as int + 1))
                                            =~= env_indices(a.env@.take(j as int)).push(
                                            a.env@[j as int].index as u64,
                                        ));
                                        assert(indices2@ =~= indices@ + env_indices(
                                            a.env@.take(j as int + 1),
                                        ));
                                    }
                                    j = j + 1;
                                }
                                proof {
                                    assert(a.env@.take(ne as int) =~= a.env@);
                                    assert(env_valid(tree.nodes@, a.env@));
                                }
                                if a.env.len() == 0 {
                                    recurse_traverse_render_tree(
                                        tree,
                                        table,
                                        marked,
                                        a.node,
                                        &indices2,
                                        scope,
                                        adoptees,
                                        m,
                                        Some(my_pos),
                                        tab,
                                        Ghost(root_tab),
                                        out,
                                        post,
                                        fuel - 1,
                                    )
                                } else {
                                    let lastb = a.env[a.env.len() - 1];
                                    proof {
                                        assert(binding_valid(
                                            tree.nodes@,
                                            a.env@[a.env@.len() - 1],
                                        ));
                                    }
                                    let datum = binding_datum_exec(tree, lastb);
                                    let iscope = Scope {
                                        properties: Vec::new(),
                                        repeat_index: Some(lastb.index),
                                        repeat_datum: Some(datum),
                                    };
                                    proof {
                                        assert(iscope@.properties =~= iteration_scope_view(
                                            lastb.index,
                                            binding_datum(tree.nodes@, lastb),
                                        ).properties);
                                        assert(iscope@ == iteration_scope_view(
                                            lastb.index,
                                            binding_datum(tree.nodes@, lastb),
                                        ));
                                    }
                                    recurse_traverse_render_tree(
                                        tree,
                                        table,
                                        marked,
                                        a.node,
                                        &indices2,
                                        &iscope,
                                        adoptees,
                                        m,
                                        Some(my_pos),
                                        tab,
                                        Ghost(root_tab),
                                        out,
                                        post,
                                        fuel - 1,
                                    )
                                }
                            }
                        }
                    } else {
                        proof {
                            assert(cache_model(out@.skip(out@.len() as int)) =~= Seq::<
                                ExpEntry,
                            >::empty());
                            assert(chain_views(post@.skip(post@.len() as int)) =~= Seq::<
                                Seq<u64>,
                            >::empty());
                            assert(out@.take(out@.len() as int) =~= out@);
                            assert(post@.take(post@.len() as int) =~= post@);
                        }
                        Ok(0u64)
                    }
                },
            }
        },
        _ => {
            proof {
                assert(false);
            }
            Err(RuntimeError::MissingStackFrame)
        },
    }
}


/// Pull one node's properties, compute its geometry and native state,
/// and append its cache entry with a placeholder layer.
#[verifier::rlimit(100)]
fn push_node_entry(
    tree: &InstanceTree,
    table: &ExpressionTable,
    marked: &Vec<u64>,
    idx: usize,
    indices: &Vec<u64>,
    scope: &Scope,
    inherited: bool,
    parent: Option<usize>,
    container_tab: TransformAndBounds,
    Ghost(root_tab): Ghost<TransformAndBounds>,
    out: &mut Vec<ExpandedNode>,
) -> (r: Result<(TransformAndBounds, bool), RuntimeError>)
    requires
        tree.wf(),
        idx < tree.nodes@.len(),
        match parent {
            Some(p) => p < old(out)@.len() && old(out)@[p as int].tab == container_tab,
            None => container_tab == root_tab,
        },
    ensures
        match r {
            Ok((tab, m)) => {
                &&& node_pulls_spec(tree.nodes@[idx as int], table.entries@, scope@) is Ok
                &&& m == (inherited || marked@.contains(tree.nodes@[idx as int].instance_id))
                &&& final(out)@.len() == old(out)@.len() + 1
                &&& final(out)@.take(old(out)@.len() as int) == old(out)@
                &&& final(out)@.last().tab == tab
                &&& final(out)@.last().z_index == 0
                &&& cache_entry_model(final(out)@.last()) == (ExpEntry {
                    instance_index: idx as int,
                    id_chain: seq![tree.nodes@[idx as int].instance_id] + indices@,
                    scope: scope@,
                    parent: opt_pos_model(parent),
                    marked_for_unmount: m,
                    z: 0u64,
                })
                &&& entry_geometry_ok(
                    tree.nodes@,
                    table.entries@,
                    final(out)@,
                    old(out)@.len() as int,
                    root_tab,
                )
            },
            Err(e) => node_pulls_spec(tree.nodes@[idx as int], table.entries@, scope@) == Err::<
                (),
                RuntimeError,
            >(e) && final(out)@ == old(out)@,
        },
{
    let node = &tree.nodes[idx];
    let pulled = match crate::layout::pull_common(table, scope, &node.common) {
        Ok(v) => v,
        Err(e) => {
            return Err(e);
        },
    };
    let (tab, gvalid): (TransformAndBounds, bool) = match crate::layout::tab_geometry(
        &pulled,
        &node.common.transform,
        &container_tab,
    ) {
        Some(t) => (t, true),
        None => (TransformAndBounds { transform: Affine::ident(), bounds: (0, 0) }, false),
    };
    let nstate = match compute_native_state(&node.kind, table, scope, &tab) {
        Ok(v) => v,
        Err(e) => {
            return Err(e);
        },
    };
    let chain = make_chain(node.instance_id, indices);
    let m = inherited || contains_u64(marked, node.instance_id);
    let flags = node.flags();
    let clipping = node.is_clipping();
    let entry = ExpandedNode {
        id_chain: chain,
        instance_index: idx,
        instance_id: node.instance_id,
        parent,
        tab,
        z_index: 0,
        clipping,
        invisible_to_raycasting: flags.invisible_to_raycasting,
        geometry_valid: gvalid,
        marked_for_unmount: m,
        native_state: nstate,
        scope_view: Ghost(scope@),
    };
    out.push(entry);
    proof {
        assert(out@.take(old(out)@.len() as int) =~= old(out)@);
        assert(entry_geometry_ok(
            tree.nodes@,
            table.entries@,
            out@,
            old(out)@.len() as int,
            root_tab,
        ));
    }
    Ok((tab, m))
}


/// Assign a node's render layer bottom-up and record its post-order
/// position, leaving every other entry untouched.
#[verifier::rlimit(100)]
fn finalize_node(
    tree: &InstanceTree,
    table: &ExpressionTable,
    idx: usize,
    my_pos: usize,
    kdepth: u64,
    Ghost(root_tab): Ghost<TransformAndBounds>,
    Ghost(base_post): Ghost<Seq<Vec<u64>>>,
    Ghost(entry0): Ghost<ExpEntry>,
    out: &mut Vec<ExpandedNode>,
    post: &mut Vec<Vec<u64>>,
) -> (z: u64)
    requires
        tree.wf(),
        idx < tree.nodes@.len(),
        my_pos < old(out)@.len(),
        cache_entry_model(old(out)@[my_pos as int]) == entry0,
        old(post)@.len() >= base_post.len(),
        old(post)@.take(base_post.len() as int) == base_post,
        forall|j: int|
            my_pos <= j < old(out)@.len() ==> entry_geometry_ok(
                tree.nodes@,
                table.entries@,
                old(out)@,
                j,
                root_tab,
            ),
    ensures
        final(out)@.len() == old(out)@.len(),
        final(out)@.take(my_pos as int) == old(out)@.take(my_pos as int),
        final(post)@.len() == old(post)@.len() + 1,
        final(post)@.take(base_post.len() as int) == base_post,
        final(post)@.drop_last() == old(post)@,
        cache_model(final(out)@.skip(my_pos as int)) == seq![
            ExpEntry { z, ..entry0 },
        ] + cache_model(old(out)@.skip(my_pos as int + 1)),
        chain_views(final(post)@.skip(base_post.len() as int)) == chain_views(
            old(post)@.skip(base_post.len() as int),
        ).push(entry0.id_chain),
        z == bump_depth(kdepth, kind_flags(tree.nodes@[idx as int].kind).layer),
        forall|j: int|
            my_pos <= j < final(out)@.len() ==> entry_geometry_ok(
                tree.nodes@,
                table.entries@,
                final(out)@,
                j,
                root_tab,
            ),
{
    let node = &tree.nodes[idx];
    let flags = node.flags();
    let is_native = match flags.layer {
        Layer::Native => true,
        _ => false,
    };
    let z: u64 = if is_native {
        if kdepth == u64::MAX {
            kdepth
        } else {
            kdepth + 1
        }
    } else {
        kdepth
    };
    let ghost pre_z_out = out@;
    let e_ref = &mut out[my_pos];
    e_ref.z_index = z;
    proof {
        assert(out@ =~= pre_z_out.update(my_pos as int, out@[my_pos as int]));
        assert(out@.take(my_pos as int) =~= pre_z_out.take(my_pos as int));
        assert forall|j: int| my_pos <= j < out@.len() implies entry_geometry_ok(
            tree.nodes@,
            table.entries@,
            out@,
            j,
            root_tab,
        ) by {
            assert(entry_geometry_ok(tree.nodes@, table.entries@, pre_z_out, j, root_tab));
            assert forall|i2: int| 0 <= i2 < out@.len() && i2 != my_pos implies out@[i2]
                == pre_z_out[i2] by {}
        }
        assert(cache_entry_model(out@[my_pos as int]) == (ExpEntry { z, ..entry0 }));
        assert(cache_model(out@.skip(my_pos as int)) =~= seq![
            ExpEntry { z, ..entry0 },
        ] + cache_model(pre_z_out.skip(my_pos as int + 1)));
    }
    let chain2 = out[my_pos].id_chain.clone();
    proof {
        assert(chain2@ == entry0.id_chain);
    }
    post.push(chain2);
    proof {
        assert(post@.drop_last() =~= old(post)@);
        assert(post@.take(base_post.len() as int) =~= base_post);
        assert(chain_views(post@.skip(base_post.len() as int)) =~= chain_views(
            old(post)@.skip(base_post.len() as int),
        ).push(entry0.id_chain));
    }
    z
}

/// Traverse one node: pull its properties, compute its geometry and
/// native state, append its cache entry, recurse into whatever its kind
/// makes visible this tick, then assign its render layer bottom-up and
/// record its post-order position.
#[verifier::rlimit(100)]
fn recurse_traverse_render_tree(
    tree: &InstanceTree,
    table: &ExpressionTable,
    marked: &Vec<u64>,
    idx: usize,
    indices: &Vec<u64>,
    scope: &Scope,
    adoptees: &Vec<Adoptee>,
    inherited: bool,
    parent: Option<usize>,
    container_tab: TransformAndBounds,
    Ghost(root_tab): Ghost<TransformAndBounds>,
    out: &mut Vec<ExpandedNode>,
    post: &mut Vec<Vec<u64>>,
    fuel: u64,
) -> (r: Result<u64, RuntimeError>)
    requires
        tree.wf(),
        idx < tree.nodes@.len(),
        match parent {
            Some(p) => p < old(out)@.len() && old(out)@[p as int].tab == container_tab,
            None => container_tab == root_tab,
        },
    ensures
        traverse_post_ok(
            tree.nodes@,
            table.entries@,
            expand_spec(
                tree.nodes@,
                table.entries@,
                marked@,
                idx as int,
                indices@,
                scope@,
                adoptee_views(adoptees@),
                inherited,
                old(out)@.len() as int,
                opt_pos_model(parent),
                fuel as int,
            ),
            r,
            old(out)@,
            final(out)@,
            old(post)@,
            final(post)@,
            root_tab,
        ),
    decreases fuel, tree.nodes@.len() - idx, 3int, 0int,
{
    proof {
        assert(node_wf(tree.nodes@, idx as int));
    }
    let ghost base_out = out@;
    let ghost base_post = post@;
    let my_pos = out.len();
    let (tab, m) = match push_node_entry(
        tree,
        table,
        marked,
        idx,
        indices,
        scope,
        inherited,
        parent,
        container_tab,
        Ghost(root_tab),
        out,
    ) {
        Ok(v) => v,
        Err(e) => {
            return Err(e);
        },
    };
    let node = &tree.nodes[idx];
    let flags = node.flags();
    let ghost pushed_out = out@;
    proof {
        assert(out@[my_pos as int].tab == tab);
    }
    let kids_r: Result<u64, RuntimeError> = match &node.kind {
        InstanceKind::Component(_) => recurse_component_arm(
            tree,
            table,
            marked,
            idx,
            indices,
            scope,
            m,
            my_pos,
            tab,
            Ghost(root_tab),
            out,
            post,
            fuel,
        ),
        InstanceKind::Repeat(_) => recurse_repeat_arm(
            tree,
            table,
            marked,
            idx,
            indices,
            scope,
            adoptees,
            m,
            my_pos,
            tab,
            Ghost(root_tab),
            out,
            post,
            fuel,
        ),
        InstanceKind::Conditional(c) => {
            match crate::property::pull_bool(table, scope, &c.condition) {
                Ok(true) => recurse_children(
                    tree,
                    table,
                    marked,
                    idx,
                    &node.children,
                    indices,
                    scope,
                    adoptees,
                    m,
                    Some(my_pos),
                    tab,
                    Ghost(root_tab),
                    out,
                    post,
                    fuel,
                ),
                Ok(false) => {
                    proof {
                        assert(cache_model(out@.skip(out@.len() as int)) =~= Seq::<
                            ExpEntry,
                        >::empty());
                        assert(chain_views(post@.skip(post@.len() as int)) =~= Seq::<
                            Seq<u64>,
                        >::empty());
                    }
                    Ok(0u64)
                },
                Err(e) => Err(e),
            }
        },
        InstanceKind::Slot(_) => recurse_slot_arm(
            tree,
            table,
            marked,
            idx,
            indices,
            scope,
            adoptees,
            m,
            my_pos,
            tab,
            Ghost(root_tab),
            out,
            post,
            fuel,
        ),
        _ => recurse_children(
            tree,
            table,
            marked,
            idx,
            &node.children,
            indices,
            scope,
            adoptees,
            m,
            Some(my_pos),
            tab,
            Ghost(root_tab),
            out,
            post,
            fuel,
        ),
    };
    let kdepth = match kids_r {
        Ok(d) => d,
        Err(e) => {
            return Err(e);
        },
    };
    let ghost entry0 = ExpEntry {
        instance_index: idx as int,
        id_chain: seq![tree.nodes@[idx as int].instance_id] + indices@,
        scope: scope@,
        parent: opt_pos_model(parent),
        marked_for_unmount: m,
        z: 0u64,
    };
    proof {
        assert(out@.take(base_out.len() as int) =~= base_out);
        assert(post@.take(base_post.len() as int) =~= base_post);
        assert(out@[my_pos as int] == out@.skip(base_out.len() as int)[0]);
        assert(out@.take(pushed_out.len() as int) =~= pushed_out);
        lemma_geometry_extend(
            tree.nodes@,
            table.entries@,
            pushed_out,
            out@,
            my_pos as int,
            root_tab,
        );
    }
    let z = finalize_node(
        tree,
        table,
        idx,
        my_pos,
        kdepth,
        Ghost(root_tab),
        Ghost(base_post),
        Ghost(entry0),
        out,
        post,
    );
    proof {
        assert(out@.take(base_out.len() as int) =~= base_out);
        assert(cache_model(out@.skip(base_out.len() as int)) =~= seq![
            ExpEntry { z, ..entry0 },
        ] + cache_model(out@.skip(base_out.len() as int + 1)));
    }
    Ok(z)
}

/// Expand the whole instance tree for one tick: from the root component,
/// identity transform and full viewport bounds, produce the per-tick
/// cache in traversal order, the id chains in post-order, and the
/// discovered render-layer depth, exactly as `expand_spec` says with a
/// slot budget of one jump per instance. A fatal error leaves no partial
/// result.
pub fn traverse_render_tree(
    tree: &InstanceTree,
    table: &ExpressionTable,
    marked: &Vec<u64>,
    viewport: (i64, i64),
) -> (r: Result<(Vec<ExpandedNode>, Vec<Vec<u64>>, u64), RuntimeError>)
    requires
        tree.wf(),
    ensures
        ({
            let spec_result = expand_spec(
                tree.nodes@,
                table.entries@,
                marked@,
                0,
                Seq::empty(),
                crate::property::empty_scope_view(),
                Seq::empty(),
                false,
                0,
                None,
                tree.nodes@.len() as int,
            );
            match r {
                Ok((cache, post, depth)) => spec_result == Ok::<
                    (Seq<ExpEntry>, Seq<Seq<u64>>, u64),
                    RuntimeError,
                >((cache_model(cache@), chain_views(post@), depth)) && (forall|k: int|
                    0 <= k < cache@.len() ==> entry_geometry_ok(
                        tree.nodes@,
                        table.entries@,
                        cache@,
                        k,
                        TransformAndBounds {
                            transform: crate::math::identity(),
                            bounds: viewport,
                        },
                    )),
                Err(e) => spec_result == Err::<(Seq<ExpEntry>, Seq<Seq<u64>>, u64), RuntimeError>(
                    e,
                ),
            }
        }),
{
    let mut out: Vec<ExpandedNode> = Vec::new();
    let mut post: Vec<Vec<u64>> = Vec::new();
    let indices: Vec<u64> = Vec::new();
    let scope = Scope::empty();
    let adoptees: Vec<Adoptee> = Vec::new();
    let root_tab = TransformAndBounds { transform: Affine::ident(), bounds: viewport };
    let fuel: u64 = tree.nodes.len() as u64;
    proof {
        assert(adoptee_views(adoptees@) =~= Seq::<(int, Seq<RepeatBinding>)>::empty());
    }
    let r = recurse_traverse_render_tree(
        tree,
        table,
        marked,
        0,
        &indices,
        &scope,
        &adoptees,
        false,
        None,
        root_tab,
        Ghost(root_tab),
        &mut out,
        &mut post,
        fuel,
    );
    match r {
        Ok(depth) => {
            proof {
                assert(cache_model(out@.skip(0)) =~= cache_model(out@));
                assert(chain_views(post@.skip(0)) =~= chain_views(post@));
            }
            Ok((out, post, depth))
        },
        Err(e) => Err(e),
    }
}

/// Whether every clipping ancestor of cache entry `k`, reached through
/// parent links, itself contains the point; a malformed parent link never
/// passes.
pub open spec fn clip_ancestors_pass(cache: Seq<ExpandedNode>, k: int, px: int, py: int) -> bool
    decreases k,
{
    if !(0 <= k < cache.len()) {
        false
    } else {
        match cache[k].parent {
            None => true,
            Some(p) => if 0 <= p < k {
                (cache[p as int].clipping ==> hit_spec(cache[p as int].tab, px, py))
                    && clip_ancestors_pass(cache, p as int, px, py)
            } else {
                false
            },
        }
    }
}

/// Whether cache entry `k` is hit by a ray at the point: the entry is a
/// ray-cast candidate, its own box contains the point, and no clipping
/// ancestor excludes it.
pub open spec fn candidate_hit(cache: Seq<ExpandedNode>, k: int, px: int, py: int) -> bool {
    &&& 0 <= k < cache.len()
    &&& !cache[k].invisible_to_raycasting
    &&& hit_spec(cache[k].tab, px, py)
    &&& clip_ancestors_pass(cache, k, px, py)
}

/// The topmost hit at or below cache position `i`: the cache is in
/// traversal order, so later entries draw on top and the scan runs
/// backwards; the root at position zero is never a hit.
pub open spec fn raycast_spec(cache: Seq<ExpandedNode>, i: int, px: int, py: int) -> Option<int>
    decreases i,
{
    if !(1 <= i < cache.len()) {
        None
    } else if candidate_hit(cache, i, px, py) {
        Some(i)
    } else {
        raycast_spec(cache, i - 1, px, py)
    }
}

/// Ray casting returns the topmost fully-passing candidate: a returned
/// index is a non-root candidate hit with no candidate above it, and no
/// index is returned only where no non-root candidate exists at all.
pub proof fn lemma_raycast_topmost(cache: Seq<ExpandedNode>, i: int, px: int, py: int)
    requires
        i < cache.len(),
    ensures
        match raycast_spec(cache, i, px, py) {
            Some(j) => 1 <= j <= i && candidate_hit(cache, j, px, py) && (forall|t: int|
                j < t <= i ==> !candidate_hit(cache, t, px, py)),
            None => forall|t: int| 1 <= t <= i ==> !candidate_hit(cache, t, px, py),
        },
    decreases i,
{
    if 1 <= i {
        if !candidate_hit(cache, i, px, py) {
            lemma_raycast_topmost(cache, i - 1, px, py);
        }
    }
}

/// A point outside a clipping container never hits the container's
/// descendants: a candidate whose clipping ancestor fails its own test is
/// rejected, so the ray cast never returns it.
pub proof fn lemma_clipped_child_not_hit(
    cache: Seq<ExpandedNode>,
    child: int,
    ancestor: usize,
    i: int,
    px: int,
    py: int,
)
    requires
        i < cache.len(),
        0 <= child < cache.len(),
        cache[child].parent == Some(ancestor),
        ancestor < child,
        cache[ancestor as int].clipping,
        !hit_spec(cache[ancestor as int].tab, px, py),
    ensures
        !candidate_hit(cache, child, px, py),
        raycast_spec(cache, i, px, py) != Some(child),
{
    assert(!clip_ancestors_pass(cache, child, px, py));
    lemma_raycast_topmost(cache, i, px, py);
}

/// Simple 2-D ray casting: scan the per-tick cache topmost-first (later
/// traversal order draws on top), excluding the root; a candidate wins
/// only if its own box contains the point and every clipping ancestor's
/// box does too, exactly as `raycast_spec` says.
pub fn get_topmost_element_beneath_ray(cache: &Vec<ExpandedNode>, ray: (i64, i64)) -> (r: Option<
    usize,
>)
    ensures
        match r {
            Some(i) => raycast_spec(cache@, cache@.len() - 1, ray.0 as int, ray.1 as int) == Some(
                i as int,
            ),
            None => raycast_spec(cache@, cache@.len() - 1, ray.0 as int, ray.1 as int) is None,
        },
{
    if cache.len() == 0 {
        return None;
    }
    let mut i: usize = cache.len() - 1;
    while i >= 1
        invariant
            i < cache@.len(),
            raycast_spec(cache@, cache@.len() - 1, ray.0 as int, ray.1 as int) == raycast_spec(
                cache@,
                i as int,
                ray.0 as int,
                ray.1 as int,
            ),
        decreases i,
    {
        let node = &cache[i];
        if !node.invisible_to_raycasting && crate::math::contains_point(&node.tab, ray.0, ray.1) {
            let mut cur: usize = i;
            let mut pass = true;
            let mut done = false;
            while !done
                invariant
                    i < cache@.len(),
                    cur <= i,
                    !done ==> pass && clip_ancestors_pass(cache@, i as int, ray.0 as int, ray.1 as int)
                        == clip_ancestors_pass(cache@, cur as int, ray.0 as int, ray.1 as int),
                    done ==> pass == clip_ancestors_pass(cache@, i as int, ray.0 as int, ray.1 as int),
                decreases cur + (if done { 0int } else { 1int }),
            {
                match cache[cur].parent {
                    None => {
                        done = true;
                    },
                    Some(p) => {
                        if p >= cur {
                            pass = false;
                            done = true;
                        } else if cache[p].clipping && !crate::math::contains_point(
                            &cache[p].tab,
                            ray.0,
                            ray.1,
                        ) {
                            pass = false;
                            done = true;
                        } else {
                            cur = p;
                        }
                    },
                }
            }
            if pass {
                return Some(i);
            }
        }
        i = i - 1;
    }
    None
}

/// The element at the center of the viewport, if any: the ray runs at
/// half the viewport bounds, rounding down.
pub fn get_focused_element(cache: &Vec<ExpandedNode>, viewport: (i64, i64)) -> (r: Option<usize>)
    ensures
        match r {
            Some(i) => raycast_spec(
                cache@,
                cache@.len() - 1,
                viewport.0 as int / 2,
                viewport.1 as int / 2,
            ) == Some(i as int),
            None => raycast_spec(
                cache@,
                cache@.len() - 1,
                viewport.0 as int / 2,
                viewport.1 as int / 2,
            ) is None,
        },
{
    let cx = match viewport.0.checked_div_euclid(2) {
        Some(v) => v,
        None => 0,
    };
    let cy = match viewport.1.checked_div_euclid(2) {
        Some(v) => v,
        None => 0,
    };
    proof {
        crate::value::lemma_div100_in_range_pub(viewport.0 as int);
        crate::value::lemma_div100_in_range_pub(viewport.1 as int);
    }
    get_topmost_element_beneath_ray(cache, (cx, cy))
}

/// Whether the tree holds only plain render nodes: no repeat, slot or
/// conditional construct anywhere.
pub open spec fn tree_plain(nodes: Seq<InstanceNode>) -> bool {
    forall|i: int|
        0 <= i < nodes.len() ==> !((#[trigger] nodes[i].kind) is Repeat || nodes[i].kind is Slot
            || nodes[i].kind is Conditional)
}

/// In a tree with no repeats (nor slots or conditionals), every expanded
/// entry's id chain is exactly its bare instance id, every subtree
/// contributes at least its own entry, and entries of distinct instance
/// nodes carry distinct chains; with each instance node standing in one
/// place of such a tree, each therefore yields exactly one entry per
/// tick.
pub proof fn lemma_plain_tree_bare_chains(
    nodes: Seq<InstanceNode>,
    table: Seq<Expr>,
    marked: Seq<u64>,
    idx: int,
    scope: ScopeView,
    adoptees: Seq<(int, Seq<RepeatBinding>)>,
    inherited: bool,
    base: int,
    parent: Option<int>,
    fuel: int,
)
    requires
        0 <= idx < nodes.len(),
        tree_wf(nodes),
        tree_plain(nodes),
        fuel >= 0,
    ensures
        ({
            let r = expand_spec(
                nodes,
                table,
                marked,
                idx,
                Seq::empty(),
                scope,
                adoptees,
                inherited,
                base,
                parent,
                fuel,
            );
            r matches Ok(res) ==> res.0.len() >= 1 && (forall|k: int|
                0 <= k < res.0.len() ==> 0 <= (#[trigger] res.0[k]).instance_index < nodes.len()
                    && res.0[k].id_chain == seq![
                    nodes[res.0[k].instance_index].instance_id,
                ]) && (forall|k1: int, k2: int|
                0 <= k1 < res.0.len() && 0 <= k2 < res.0.len() && (#[trigger] res.0[k1]).instance_index
                    != (#[trigger] res.0[k2]).instance_index ==> res.0[k1].id_chain
                    != res.0[k2].id_chain)
        }),
    decreases fuel, nodes.len() - idx, 3int, 0int,
{
    assert(node_wf(nodes, idx));
    let node = nodes[idx];
    let chain = seq![node.instance_id] + Seq::<u64>::empty();
    assert(chain =~= seq![node.instance_id]);
    match node.kind {
        InstanceKind::Component(ref c) => {
            match flatten_list_spec(nodes, table, scope, node.children@, 0) {
                Ok(new_adoptees) => {
                    lemma_plain_children_bare_chains(
                        nodes,
                        table,
                        marked,
                        idx,
                        c.template@,
                        0,
                        component_scope_view(c.properties@),
                        new_adoptees,
                        inherited || marked.contains(node.instance_id),
                        base + 1,
                        Some(base),
                        fuel,
                    );
                },
                Err(_) => {},
            }
        },
        InstanceKind::Repeat(_) => {
            assert(false);
        },
        InstanceKind::Conditional(_) => {
            assert(false);
        },
        InstanceKind::Slot(_) => {
            assert(false);
        },
        _ => {
            lemma_plain_children_bare_chains(
                nodes,
                table,
                marked,
                idx,
                nodes[idx].children@,
                0,
                scope,
                adoptees,
                inherited || marked.contains(node.instance_id),
                base + 1,
                Some(base),
                fuel,
            );
        },
    }
    match expand_spec(
        nodes,
        table,
        marked,
        idx,
        Seq::empty(),
        scope,
        adoptees,
        inherited,
        base,
        parent,
        fuel,
    ) {
        Ok(res) => {
            assert forall|k1: int, k2: int|
                0 <= k1 < res.0.len() && 0 <= k2 < res.0.len() && (#[trigger] res.0[k1]).instance_index
                    != (#[trigger] res.0[k2]).instance_index implies res.0[k1].id_chain
                != res.0[k2].id_chain by {
                assert(nodes[res.0[k1].instance_index].instance_id != nodes[res.0[k2].instance_index].instance_id)
                    by {
                    let a = res.0[k1].instance_index;
                    let b = res.0[k2].instance_index;
                    if a < b {
                        assert(nodes[a].instance_id != nodes[b].instance_id);
                    } else {
                        assert(nodes[b].instance_id != nodes[a].instance_id);
                    }
                }
                assert(res.0[k1].id_chain[0] != res.0[k2].id_chain[0]);
            }
        },
        Err(_) => {},
    }
}

/// As `lemma_plain_tree_bare_chains`, over every child of `list[k..]`.
proof fn lemma_plain_children_bare_chains(
    nodes: Seq<InstanceNode>,
    table: Seq<Expr>,
    marked: Seq<u64>,
    from: int,
    list: Seq<usize>,
    k: int,
    scope: ScopeView,
    adoptees: Seq<(int, Seq<RepeatBinding>)>,
    inherited: bool,
    base: int,
    parent: Option<int>,
    fuel: int,
)
    requires
        0 <= from < nodes.len(),
        tree_wf(nodes),
        tree_plain(nodes),
        fuel >= 0,
        0 <= k <= list.len(),
        forall|j: int| 0 <= j < list.len() ==> from < #[trigger] list[j] < nodes.len(),
    ensures
        ({
            let r = expand_children_spec(
                nodes,
                table,
                marked,
                from,
                list,
                k,
                Seq::empty(),
                scope,
                adoptees,
                inherited,
                base,
                parent,
                fuel,
            );
            r matches Ok(res) ==> (forall|j: int|
                0 <= j < res.0.len() ==> 0 <= (#[trigger] res.0[j]).instance_index < nodes.len()
                    && res.0[j].id_chain == seq![
                    nodes[res.0[j].instance_index].instance_id,
                ])
        }),
    decreases fuel, nodes.len() - from, 1int, list.len() - k,
{
    if k < list.len() {
        lemma_plain_tree_bare_chains(
            nodes,
            table,
            marked,
            list[k] as int,
            scope,
            adoptees,
            inherited,
            base,
            parent,
            fuel,
        );
        match expand_spec(
            nodes,
            table,
            marked,
            list[k] as int,
            Seq::empty(),
            scope,
            adoptees,
            inherited,
            base,
            parent,
            fuel,
        ) {
            Ok((e1, _p1, _d1)) => {
                lemma_plain_children_bare_chains(
                    nodes,
                    table,
                    marked,
                    from,
                    list,
                    k + 1,
                    scope,
                    adoptees,
                    inherited,
                    base + e1.len(),
                    parent,
                    fuel,
                );
            },
            Err(_) => {},
        }
    }
}

/// Whether every entry's id chain carries `indices` as the prefix of its
/// repeat-index part: position zero is the instance id, then come the
/// enclosing iteration indices outermost first.
pub open spec fn chains_extend(entries: Seq<ExpEntry>, indices: Seq<u64>) -> bool {
    forall|k: int|
        0 <= k < entries.len() ==> (#[trigger] entries[k]).id_chain.len() >= 1 + indices.len()
            && entries[k].id_chain.subrange(1, 1 + indices.len() as int) == indices
}

/// Every entry a subtree expansion produces carries the enclosing
/// iteration indices as a chain prefix; two iterations of one repeat
/// therefore never share an id chain, which makes the n times m
/// expansions of nested repeats pairwise distinct.
pub proof fn lemma_chains_extend_indices(
    nodes: Seq<InstanceNode>,
    table: Seq<Expr>,
    marked: Seq<u64>,
    idx: int,
    indices: Seq<u64>,
    scope: ScopeView,
    adoptees: Seq<(int, Seq<RepeatBinding>)>,
    inherited: bool,
    base: int,
    parent: Option<int>,
    fuel: int,
)
    requires
        0 <= idx < nodes.len(),
        tree_wf(nodes),
        fuel >= 0,
    ensures
        ({
            let r = expand_spec(
                nodes,
                table,
                marked,
                idx,
                indices,
                scope,
                adoptees,
                inherited,
                base,
                parent,
                fuel,
            );
            r matches Ok(res) ==> chains_extend(res.0, indices)
        }),
    decreases fuel, nodes.len() - idx, 4int, 0int,
{
    assert(node_wf(nodes, idx));
    let node = nodes[idx];
    let chain = seq![node.instance_id] + indices;
    assert(chain.subrange(1, 1 + indices.len() as int) =~= indices);
    let m = inherited || marked.contains(node.instance_id);
    match node.kind {
        InstanceKind::Component(_) => {
            lemma_chains_extend_component(
                nodes,
                table,
                marked,
                idx,
                indices,
                scope,
                m,
                base,
                fuel,
            );
        },
        InstanceKind::Repeat(ref rep) => {
            lemma_chains_extend_repeat(
                nodes,
                table,
                marked,
                idx,
                rep.data@,
                0,
                indices,
                adoptees,
                m,
                base + 1,
                Some(base),
                fuel,
            );
        },
        InstanceKind::Conditional(ref c) => {
            match cond_eval(table, scope, c.condition) {
                Ok(true) => {
                    lemma_chains_extend_children(
                        nodes,
                        table,
                        marked,
                        idx,
                        nodes[idx].children@,
                        0,
                        indices,
                        scope,
                        adoptees,
                        m,
                        base + 1,
                        Some(base),
                        fuel,
                    );
                },
                _ => {},
            }
        },
        InstanceKind::Slot(_) => {
            lemma_chains_extend_slot(
                nodes,
                table,
                marked,
                idx,
                indices,
                scope,
                adoptees,
                m,
                base,
                fuel,
            );
        },
        _ => {
            lemma_chains_extend_children(
                nodes,
                table,
                marked,
                idx,
                nodes[idx].children@,
                0,
                indices,
                scope,
                adoptees,
                m,
                base + 1,
                Some(base),
                fuel,
            );
        },
    }
}

proof fn lemma_chains_extend_component(
    nodes: Seq<InstanceNode>,
    table: Seq<Expr>,
    marked: Seq<u64>,
    idx: int,
    indices: Seq<u64>,
    scope: ScopeView,
    m: bool,
    my_pos: int,
    fuel: int,
)
    requires
        0 <= idx < nodes.len(),
        tree_wf(nodes),
        fuel >= 0,
        nodes[idx].kind is Component,
    ensures
        ({
            let r = expand_component_arm(
                nodes,
                table,
                marked,
                idx,
                indices,
                scope,
                m,
                my_pos,
                fuel,
            );
            r matches Ok(res) ==> chains_extend(res.0, indices)
        }),
    decreases fuel, nodes.len() - idx, 3int, 0int,
{
    assert(node_wf(nodes, idx));
    match nodes[idx].kind {
        InstanceKind::Component(ref c) => {
            match flatten_list_spec(nodes, table, scope, nodes[idx].children@, 0) {
                Ok(new_adoptees) => {
                    lemma_chains_extend_children(
                        nodes,
                        table,
                        marked,
                        idx,
                        c.template@,
                        0,
                        indices,
                        component_scope_view(c.properties@),
                        new_adoptees,
                        m,
                        my_pos + 1,
                        Some(my_pos),
                        fuel,
                    );
                },
                Err(_) => {},
            }
        },
        _ => {},
    }
}

proof fn lemma_chains_extend_slot(
    nodes: Seq<InstanceNode>,
    table: Seq<Expr>,
    marked: Seq<u64>,
    idx: int,
    indices: Seq<u64>,
    scope: ScopeView,
    adoptees: Seq<(int, Seq<RepeatBinding>)>,
    m: bool,
    my_pos: int,
    fuel: int,
)
    requires
        0 <= idx < nodes.len(),
        tree_wf(nodes),
        fuel >= 0,
        nodes[idx].kind is Slot,
    ensures
        ({
            let r = expand_slot_arm(
                nodes,
                table,
                marked,
                idx,
                indices,
                scope,
                adoptees,
                m,
                my_pos,
                fuel,
            );
            r matches Ok(res) ==> chains_extend(res.0, indices)
        }),
    decreases fuel, nodes.len() - idx, 3int, 0int,
{
    match nodes[idx].kind {
        InstanceKind::Slot(ref sl) => {
            match pull_i64_model(table, scope, sl.index) {
                Ok(n) => {
                    if 0 <= n < adoptees.len() {
                        let (anode, env) = adoptees[n as int];
                        if fuel > 0 && 0 <= anode < nodes.len() && env_valid(nodes, env) {
                            let sub_scope = if env.len() == 0 {
                                scope
                            } else {
                                iteration_scope_view(
                                    env.last().index,
                                    binding_datum(nodes, env.last()),
                                )
                            };
                            lemma_chains_extend_indices(
                                nodes,
                                table,
                                marked,
                                anode,
                                indices + env_indices(env),
                                sub_scope,
                                adoptees,
                                m,
                                my_pos + 1,
                                Some(my_pos),
                                fuel - 1,
                            );
                            let r = expand_spec(
                                nodes,
                                table,
                                marked,
                                anode,
                                indices + env_indices(env),
                                sub_scope,
                                adoptees,
                                m,
                                my_pos + 1,
                                Some(my_pos),
                                fuel - 1,
                            );
                            match r {
                                Ok(res) => {
                                    assert forall|k: int|
                                        0 <= k < res.0.len() implies (#[trigger] res.0[k]).id_chain.len()
                                        >= 1 + indices.len() && res.0[k].id_chain.subrange(
                                        1,
                                        1 + indices.len() as int,
                                    ) == indices by {
                                        let ext = indices + env_indices(env);
                                        assert(res.0[k].id_chain.subrange(1, 1 + ext.len() as int)
                                            == ext);
                                        assert(res.0[k].id_chain.subrange(
                                            1,
                                            1 + indices.len() as int,
                                        ) =~= indices);
                                    }
                                },
                                Err(_) => {},
                            }
                        }
                    }
                },
                Err(_) => {},
            }
        },
        _ => {},
    }
}

proof fn lemma_chains_extend_children(
    nodes: Seq<InstanceNode>,
    table: Seq<Expr>,
    marked: Seq<u64>,
    from: int,
    list: Seq<usize>,
    k: int,
    indices: Seq<u64>,
    scope: ScopeView,
    adoptees: Seq<(int, Seq<RepeatBinding>)>,
    inherited: bool,
    base: int,
    parent: Option<int>,
    fuel: int,
)
    requires
        0 <= from < nodes.len(),
        tree_wf(nodes),
        fuel >= 0,
        0 <= k <= list.len(),
        forall|j: int| 0 <= j < list.len() ==> from < #[trigger] list[j] < nodes.len(),
    ensures
        ({
            let r = expand_children_spec(
                nodes,
                table,
                marked,
                from,
                list,
                k,
                indices,
                scope,
                adoptees,
                inherited,
                base,
                parent,
                fuel,
            );
            r matches Ok(res) ==> chains_extend(res.0, indices)
        }),
    decreases fuel, nodes.len() - from, 1int, list.len() - k,
{
    if k < list.len() {
        lemma_chains_extend_indices(
            nodes,
            table,
            marked,
            list[k] as int,
            indices,
            scope,
            adoptees,
            inherited,
            base,
            parent,
            fuel,
        );
        match expand_spec(
            nodes,
            table,
            marked,
            list[k] as int,
            indices,
            scope,
            adoptees,
            inherited,
            base,
            parent,
            fuel,
        ) {
            Ok((e1, _p1, _d1)) => {
                lemma_chains_extend_children(
                    nodes,
                    table,
                    marked,
                    from,
                    list,
                    k + 1,
                    indices,
                    scope,
                    adoptees,
                    inherited,
                    base + e1.len(),
                    parent,
                    fuel,
                );
            },
            Err(_) => {},
        }
    }
}

/// Each iteration of a repeat stamps its own index into every chain it
/// produces: entries of iterations `i` and `j` with `i != j` can never
/// share an id chain, so nested repeats over `n` and `m` items address
/// their expansions pairwise distinctly.
pub proof fn lemma_chains_extend_repeat(
    nodes: Seq<InstanceNode>,
    table: Seq<Expr>,
    marked: Seq<u64>,
    rep_idx: int,
    data: Seq<Value>,
    i: int,
    indices: Seq<u64>,
    adoptees: Seq<(int, Seq<RepeatBinding>)>,
    inherited: bool,
    base: int,
    parent: Option<int>,
    fuel: int,
)
    requires
        0 <= rep_idx < nodes.len(),
        tree_wf(nodes),
        fuel >= 0,
        (nodes[rep_idx].kind matches InstanceKind::Repeat(ref rep) && rep.data@ == data),
        0 <= i <= data.len(),
        data.len() <= i64::MAX,
    ensures
        ({
            let r = expand_repeat_spec(
                nodes,
                table,
                marked,
                rep_idx,
                data,
                i,
                indices,
                adoptees,
                inherited,
                base,
                parent,
                fuel,
            );
            r matches Ok(res) ==> chains_extend(res.0, indices) && (forall|k: int|
                0 <= k < res.0.len() ==> (#[trigger] res.0[k]).id_chain.len() >= 2
                    + indices.len() && i <= res.0[k].id_chain[1 + indices.len() as int]
                    < data.len())
        }),
    decreases fuel, nodes.len() - rep_idx, 2int, data.len() - i,
{
    assert(node_wf(nodes, rep_idx));
    if i < data.len() {
        let iscope = iteration_scope_view(i as i64, data[i]@);
        let ind2 = indices.push(i as u64);
        lemma_chains_extend_children(
            nodes,
            table,
            marked,
            rep_idx,
            nodes[rep_idx].children@,
            0,
            ind2,
            iscope,
            adoptees,
            inherited,
            base,
            parent,
            fuel,
        );
        match expand_children_spec(
            nodes,
            table,
            marked,
            rep_idx,
            nodes[rep_idx].children@,
            0,
            ind2,
            iscope,
            adoptees,
            inherited,
            base,
            parent,
            fuel,
        ) {
            Ok((e1, _p1, _d1)) => {
                lemma_chains_extend_repeat(
                    nodes,
                    table,
                    marked,
                    rep_idx,
                    data,
                    i + 1,
                    indices,
                    adoptees,
                    inherited,
                    base + e1.len(),
                    parent,
                    fuel,
                );
                match expand_repeat_spec(
                    nodes,
                    table,
                    marked,
                    rep_idx,
                    data,
                    i,
                    indices,
                    adoptees,
                    inherited,
                    base,
                    parent,
                    fuel,
                ) {
                    Ok(res) => {
                        assert forall|k: int|
                            0 <= k < res.0.len() implies (#[trigger] res.0[k]).id_chain.len() >= 2
                            + indices.len() && i <= res.0[k].id_chain[1 + indices.len() as int]
                            < data.len() && res.0[k].id_chain.len() >= 1 + indices.len()
                            && res.0[k].id_chain.subrange(1, 1 + indices.len() as int)
                            == indices by {
                            if k < e1.len() {
                                assert(res.0[k] == e1[k]);
                                assert(e1[k].id_chain.subrange(1, 1 + ind2.len() as int) == ind2);
                                assert(e1[k].id_chain[1 + indices.len() as int]
                                    == ind2[indices.len() as int]) by {
                                    assert(e1[k].id_chain.subrange(1, 1 + ind2.len() as int)[
                                        indices.len() as int] == e1[k].id_chain[1
                                        + indices.len() as int]);
                                }
                                assert(e1[k].id_chain.subrange(1, 1 + indices.len() as int)
                                    =~= indices) by {
                                    assert forall|t: int| 0 <= t < indices.len() implies e1[k].id_chain.subrange(
                                        1,
                                        1 + indices.len() as int,
                                    )[t] == indices[t] by {
                                        assert(e1[k].id_chain.subrange(1, 1 + ind2.len() as int)[t]
                                            == e1[k].id_chain[1 + t]);
                                        assert(ind2[t] == indices[t]);
                                    }
                                }
                            } else {
                                let rest = expand_repeat_spec(
                                    nodes,
                                    table,
                                    marked,
                                    rep_idx,
                                    data,
                                    i + 1,
                                    indices,
                                    adoptees,
                                    inherited,
                                    base + e1.len(),
                                    parent,
                                    fuel,
                                );
                                assert(res.0[k] == rest->Ok_0.0[k - e1.len()]);
                            }
                        }
                    },
                    Err(_) => {},
                }
            },
            Err(_) => {},
        }
    }
}

/// How many entries expand a given instance node.
pub open spec fn entry_count_at(entries: Seq<ExpEntry>, idx: int) -> int {
    entries.filter(|e: ExpEntry| e.instance_index == idx).len() as int
}

/// Layout properties all left at their defaults.
pub open spec fn default_common() -> CommonProperties {
    CommonProperties {
        x: None,
        y: None,
        width: None,
        height: None,
        anchor_x: None,
        anchor_y: None,
        scale_x: None,
        scale_y: None,
        skew_x: None,
        skew_y: None,
        rotate_quarter_turns: None,
        transform: None,
    }
}

/// Whether a node is an inert leaf: a group with no children and every
/// layout property left at its default.
pub open spec fn plain_leaf(nodes: Seq<InstanceNode>, leaf: int) -> bool {
    &&& 0 <= leaf < nodes.len()
    &&& nodes[leaf].kind is Group
    &&& nodes[leaf].children@.len() == 0
    &&& nodes[leaf].common == default_common()
}


proof fn lemma_count_concat(a: Seq<ExpEntry>, b: Seq<ExpEntry>, leaf: int)
    ensures
        entry_count_at(a + b, leaf) == entry_count_at(a, leaf) + entry_count_at(b, leaf),
{
    let pred = |e: ExpEntry| e.instance_index == leaf;
    Seq::filter_distributes_over_add(a, b, pred);
}

proof fn lemma_count_single(e: ExpEntry, leaf: int)
    ensures
        entry_count_at(seq![e], leaf) == (if e.instance_index == leaf {
            1int
        } else {
            0int
        }),
{
    reveal(Seq::filter);
    let pred = |x: ExpEntry| x.instance_index == leaf;
    assert(seq![e].drop_last() =~= Seq::<ExpEntry>::empty());
    assert(Seq::<ExpEntry>::empty().filter(pred) =~= Seq::<ExpEntry>::empty());
}

proof fn lemma_count_all_matching(s: Seq<ExpEntry>, leaf: int)
    requires
        forall|k: int| 0 <= k < s.len() ==> (#[trigger] s[k]).instance_index == leaf,
    ensures
        entry_count_at(s, leaf) == s.len(),
{
    let pred = |e: ExpEntry| e.instance_index == leaf;
    crate::tick::lemma_filter_all(s, pred);
}

/// An inert leaf expands to exactly its own entry, under any scope and
/// any enclosing iteration.
proof fn lemma_leaf_expands_single(
    nodes: Seq<InstanceNode>,
    table: Seq<Expr>,
    marked: Seq<u64>,
    leaf: usize,
    indices: Seq<u64>,
    scope: ScopeView,
    adoptees: Seq<(int, Seq<RepeatBinding>)>,
    inherited: bool,
    base: int,
    parent: Option<int>,
    fuel: int,
)
    requires
        tree_wf(nodes),
        plain_leaf(nodes, leaf as int),
        fuel >= 0,
    ensures
        ({
            let r = expand_spec(
                nodes,
                table,
                marked,
                leaf as int,
                indices,
                scope,
                adoptees,
                inherited,
                base,
                parent,
                fuel,
            );
            r matches Ok(res) && res.0.len() == 1 && res.0[0].instance_index == leaf
        }),
{
    reveal(Seq::filter);
    let r = expand_spec(
        nodes,
        table,
        marked,
        leaf as int,
        indices,
        scope,
        adoptees,
        inherited,
        base,
        parent,
        fuel,
    );
    assert(node_pulls_spec(nodes[leaf as int], table, scope) is Ok);
    assert(expand_children_spec(
        nodes,
        table,
        marked,
        leaf as int,
        nodes[leaf as int].children@,
        0,
        indices,
        scope,
        adoptees,
        inherited || marked.contains(nodes[leaf as int].instance_id),
        base + 1,
        Some(base),
        fuel,
    ) == Ok::<(Seq<ExpEntry>, Seq<Seq<u64>>, u64), RuntimeError>(
        (Seq::empty(), Seq::empty(), 0u64),
    ));
}

/// A repeat whose sole child is an inert leaf expands each iteration to
/// exactly one leaf entry: iterations `i..n` contribute `n - i` of them
/// and nothing else.
#[verifier::rlimit(100)]
proof fn lemma_leaf_repeat_counts(
    nodes: Seq<InstanceNode>,
    table: Seq<Expr>,
    marked: Seq<u64>,
    rep_idx: usize,
    data: Seq<Value>,
    i: int,
    leaf: usize,
    indices: Seq<u64>,
    adoptees: Seq<(int, Seq<RepeatBinding>)>,
    inherited: bool,
    base: int,
    parent: Option<int>,
    fuel: int,
)
    requires
        tree_wf(nodes),
        rep_idx < nodes.len(),
        (nodes[rep_idx as int].kind matches InstanceKind::Repeat(ref rep) && rep.data@ == data),
        nodes[rep_idx as int].children@ == seq![leaf],
        plain_leaf(nodes, leaf as int),
        rep_idx < leaf,
        0 <= i <= data.len(),
        data.len() <= i64::MAX,
        fuel >= 0,
    ensures
        ({
            let r = expand_repeat_spec(
                nodes,
                table,
                marked,
                rep_idx as int,
                data,
                i,
                indices,
                adoptees,
                inherited,
                base,
                parent,
                fuel,
            );
            r matches Ok(res) && res.0.len() == data.len() - i && (forall|k: int|
                0 <= k < res.0.len() ==> (#[trigger] res.0[k]).instance_index == leaf)
        }),
    decreases data.len() - i,
{
    assert(node_wf(nodes, rep_idx as int));
    if i < data.len() {
        let iscope = iteration_scope_view(i as i64, data[i]@);
        let ind2 = indices.push(i as u64);
        lemma_leaf_expands_single(
            nodes,
            table,
            marked,
            leaf,
            ind2,
            iscope,
            adoptees,
            inherited,
            base,
            parent,
            fuel,
        );
        assert(nodes[rep_idx as int].children@[0] == leaf);
        let kids = expand_children_spec(
            nodes,
            table,
            marked,
            rep_idx as int,
            nodes[rep_idx as int].children@,
            0,
            ind2,
            iscope,
            adoptees,
            inherited,
            base,
            parent,
            fuel,
        );
        let e1 = expand_spec(
            nodes,
            table,
            marked,
            leaf as int,
            ind2,
            iscope,
            adoptees,
            inherited,
            base,
            parent,
            fuel,
        );
        assert(expand_children_spec(
            nodes,
            table,
            marked,
            rep_idx as int,
            nodes[rep_idx as int].children@,
            1,
            ind2,
            iscope,
            adoptees,
            inherited,
            base + e1->Ok_0.0.len(),
            parent,
            fuel,
        ) == Ok::<(Seq<ExpEntry>, Seq<Seq<u64>>, u64), RuntimeError>(
            (Seq::empty(), Seq::empty(), 0u64),
        ));
        assert(kids matches Ok(kr) && kr.0.len() == 1 && kr.0[0].instance_index == leaf) by {
            assert(kids->Ok_0.0 =~= e1->Ok_0.0 + Seq::<ExpEntry>::empty());
        }
        lemma_leaf_repeat_counts(
            nodes,
            table,
            marked,
            rep_idx,
            data,
            i + 1,
            leaf,
            indices,
            adoptees,
            inherited,
            base + kids->Ok_0.0.len(),
            parent,
            fuel,
        );
    }
}

/// A repeat over `n` items nested in a repeat over `m` items produces
/// exactly `n * m` expansions of the leaf template node per tick; their
/// id chains are pairwise distinct by `lemma_chains_extend_repeat`.
#[verifier::rlimit(100)]
pub proof fn lemma_nested_repeat_product(
    nodes: Seq<InstanceNode>,
    table: Seq<Expr>,
    marked: Seq<u64>,
    outer: usize,
    inner: usize,
    leaf: usize,
    indices: Seq<u64>,
    scope: ScopeView,
    adoptees: Seq<(int, Seq<RepeatBinding>)>,
    inherited: bool,
    base: int,
    parent: Option<int>,
    fuel: int,
)
    requires
        tree_wf(nodes),
        outer < nodes.len(),
        nodes[outer as int].kind is Repeat,
        nodes[outer as int].children@ == seq![inner],
        nodes[outer as int].common == default_common(),
        outer < inner < nodes.len(),
        nodes[inner as int].kind is Repeat,
        nodes[inner as int].children@ == seq![leaf],
        nodes[inner as int].common == default_common(),
        inner < leaf,
        plain_leaf(nodes, leaf as int),
        fuel >= 0,
    ensures
        ({
            let m = match nodes[outer as int].kind {
                InstanceKind::Repeat(ref rep) => rep.data@.len() as int,
                _ => 0,
            };
            let n = match nodes[inner as int].kind {
                InstanceKind::Repeat(ref rep) => rep.data@.len() as int,
                _ => 0,
            };
            let r = expand_spec(
                nodes,
                table,
                marked,
                outer as int,
                indices,
                scope,
                adoptees,
                inherited,
                base,
                parent,
                fuel,
            );
            r matches Ok(res) && entry_count_at(res.0, leaf as int) == n * m
        }),
{
    assert(node_wf(nodes, outer as int));
    let m_data = match nodes[outer as int].kind {
        InstanceKind::Repeat(ref rep) => rep.data@,
        _ => Seq::empty(),
    };
    assert(node_pulls_spec(nodes[outer as int], table, scope) is Ok);
    let mflag = inherited || marked.contains(nodes[outer as int].instance_id);
    lemma_outer_repeat_counts(
        nodes,
        table,
        marked,
        outer,
        m_data,
        0,
        inner,
        leaf,
        indices,
        adoptees,
        mflag,
        base + 1,
        Some(base),
        fuel,
    );
    let r = expand_spec(
        nodes,
        table,
        marked,
        outer as int,
        indices,
        scope,
        adoptees,
        inherited,
        base,
        parent,
        fuel,
    );
    let kids = expand_repeat_spec(
        nodes,
        table,
        marked,
        outer as int,
        m_data,
        0,
        indices,
        adoptees,
        mflag,
        base + 1,
        Some(base),
        fuel,
    );
    match r {
        Ok(res) => {
            assert(res.0 =~= seq![res.0[0]] + kids->Ok_0.0);
            lemma_count_concat(seq![res.0[0]], kids->Ok_0.0, leaf as int);
            lemma_count_single(res.0[0], leaf as int);
            let m = m_data.len() as int;
            let n = match nodes[inner as int].kind {
                InstanceKind::Repeat(ref rep) => rep.data@.len() as int,
                _ => 0,
            };
            assert(m * n == n * m) by (nonlinear_arith);
        },
        Err(_) => {
            assert(false);
        },
    }
}

/// Iterations `i..m` of the outer repeat contribute `(m - i) * n` leaf
/// entries.
#[verifier::rlimit(100)]
proof fn lemma_outer_repeat_counts(
    nodes: Seq<InstanceNode>,
    table: Seq<Expr>,
    marked: Seq<u64>,
    outer: usize,
    data: Seq<Value>,
    i: int,
    inner: usize,
    leaf: usize,
    indices: Seq<u64>,
    adoptees: Seq<(int, Seq<RepeatBinding>)>,
    inherited: bool,
    base: int,
    parent: Option<int>,
    fuel: int,
)
    requires
        tree_wf(nodes),
        outer < nodes.len(),
        (nodes[outer as int].kind matches InstanceKind::Repeat(ref rep) && rep.data@ == data),
        nodes[outer as int].children@ == seq![inner],
        nodes[outer as int].common == default_common(),
        outer < inner < nodes.len(),
        nodes[inner as int].kind is Repeat,
        nodes[inner as int].children@ == seq![leaf],
        nodes[inner as int].common == default_common(),
        inner < leaf,
        plain_leaf(nodes, leaf as int),
        0 <= i <= data.len(),
        data.len() <= i64::MAX,
        fuel >= 0,
    ensures
        ({
            let n = match nodes[inner as int].kind {
                InstanceKind::Repeat(ref rep) => rep.data@.len() as int,
                _ => 0,
            };
            let r = expand_repeat_spec(
                nodes,
                table,
                marked,
                outer as int,
                data,
                i,
                indices,
                adoptees,
                inherited,
                base,
                parent,
                fuel,
            );
            r matches Ok(res) && entry_count_at(res.0, leaf as int) == (data.len() - i) * n
        }),
    decreases data.len() - i,
{
    assert(node_wf(nodes, outer as int));
    assert(node_wf(nodes, inner as int));
    let n = match nodes[inner as int].kind {
        InstanceKind::Repeat(ref rep) => rep.data@.len() as int,
        _ => 0,
    };
    let r = expand_repeat_spec(
        nodes,
        table,
        marked,
        outer as int,
        data,
        i,
        indices,
        adoptees,
        inherited,
        base,
        parent,
        fuel,
    );
    if i >= data.len() {
        lemma_count_all_matching(Seq::<ExpEntry>::empty(), leaf as int);
        assert(r->Ok_0.0 =~= Seq::<ExpEntry>::empty());
    } else {
        let iscope = iteration_scope_view(i as i64, data[i]@);
        let ind2 = indices.push(i as u64);
        // The single child of this iteration is the inner repeat.
        lemma_inner_expansion_counts(
            nodes,
            table,
            marked,
            inner,
            leaf,
            ind2,
            iscope,
            adoptees,
            inherited,
            base,
            parent,
            fuel,
        );
        assert(nodes[outer as int].children@[0] == inner);
        let e1 = expand_spec(
            nodes,
            table,
            marked,
            inner as int,
            ind2,
            iscope,
            adoptees,
            inherited,
            base,
            parent,
            fuel,
        );
        let kids = expand_children_spec(
            nodes,
            table,
            marked,
            outer as int,
            nodes[outer as int].children@,
            0,
            ind2,
            iscope,
            adoptees,
            inherited,
            base,
            parent,
            fuel,
        );
        assert(expand_children_spec(
            nodes,
            table,
            marked,
            outer as int,
            nodes[outer as int].children@,
            1,
            ind2,
            iscope,
            adoptees,
            inherited,
            base + e1->Ok_0.0.len(),
            parent,
            fuel,
        ) == Ok::<(Seq<ExpEntry>, Seq<Seq<u64>>, u64), RuntimeError>(
            (Seq::empty(), Seq::empty(), 0u64),
        ));
        assert(kids->Ok_0.0 =~= e1->Ok_0.0 + Seq::<ExpEntry>::empty());
        assert(kids->Ok_0.0 =~= e1->Ok_0.0);
        assert(entry_count_at(kids->Ok_0.0, leaf as int) == n);
        lemma_outer_repeat_counts(
            nodes,
            table,
            marked,
            outer,
            data,
            i + 1,
            inner,
            leaf,
            indices,
            adoptees,
            inherited,
            base + kids->Ok_0.0.len(),
            parent,
            fuel,
        );
        let rest = expand_repeat_spec(
            nodes,
            table,
            marked,
            outer as int,
            data,
            i + 1,
            indices,
            adoptees,
            inherited,
            base + kids->Ok_0.0.len(),
            parent,
            fuel,
        );
        assert(r->Ok_0.0 =~= kids->Ok_0.0 + rest->Ok_0.0);
        lemma_count_concat(kids->Ok_0.0, rest->Ok_0.0, leaf as int);
        assert(entry_count_at(r->Ok_0.0, leaf as int) == n + (data.len() - i - 1) * n);
        assert(n + (data.len() - i - 1) * n == (data.len() - i) * n) by (nonlinear_arith);
    }
}

/// One inner repeat (with its iteration bindings already applied)
/// expands to its own entry plus exactly one leaf entry per datum.
#[verifier::rlimit(100)]
proof fn lemma_inner_expansion_counts(
    nodes: Seq<InstanceNode>,
    table: Seq<Expr>,
    marked: Seq<u64>,
    inner: usize,
    leaf: usize,
    indices: Seq<u64>,
    scope: ScopeView,
    adoptees: Seq<(int, Seq<RepeatBinding>)>,
    inherited: bool,
    base: int,
    parent: Option<int>,
    fuel: int,
)
    requires
        tree_wf(nodes),
        inner < nodes.len(),
        nodes[inner as int].kind is Repeat,
        nodes[inner as int].children@ == seq![leaf],
        nodes[inner as int].common == default_common(),
        inner < leaf,
        plain_leaf(nodes, leaf as int),
        fuel >= 0,
    ensures
        ({
            let n = match nodes[inner as int].kind {
                InstanceKind::Repeat(ref rep) => rep.data@.len() as int,
                _ => 0,
            };
            let r = expand_spec(
                nodes,
                table,
                marked,
                inner as int,
                indices,
                scope,
                adoptees,
                inherited,
                base,
                parent,
                fuel,
            );
            r matches Ok(res) && entry_count_at(res.0, leaf as int) == n
        }),
{
    assert(node_wf(nodes, inner as int));
    let n_data = match nodes[inner as int].kind {
        InstanceKind::Repeat(ref rep) => rep.data@,
        _ => Seq::empty(),
    };
    assert(node_pulls_spec(nodes[inner as int], table, scope) is Ok);
    let mflag = inherited || marked.contains(nodes[inner as int].instance_id);
    lemma_leaf_repeat_counts(
        nodes,
        table,
        marked,
        inner,
        n_data,
        0,
        leaf,
        indices,
        adoptees,
        mflag,
        base + 1,
        Some(base),
        fuel,
    );
    let kids = expand_repeat_spec(
        nodes,
        table,
        marked,
        inner as int,
        n_data,
        0,
        indices,
        adoptees,
        mflag,
        base + 1,
        Some(base),
        fuel,
    );
    lemma_count_all_matching(kids->Ok_0.0, leaf as int);
    let r = expand_spec(
        nodes,
        table,
        marked,
        inner as int,
        indices,
        scope,
        adoptees,
        inherited,
        base,
        parent,
        fuel,
    );
    match r {
        Ok(res) => {
            assert(res.0 =~= seq![res.0[0]] + kids->Ok_0.0);
            lemma_count_concat(seq![res.0[0]], kids->Ok_0.0, leaf as int);
            lemma_count_single(res.0[0], leaf as int);
        },
        Err(_) => {
            assert(false);
        },
    }
}

} // verus!
