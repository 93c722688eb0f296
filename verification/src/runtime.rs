//! The runtime stack: one frame per component or repeat-iteration
//! boundary, carrying the frame's scope, its flattened slot content
//! (adoptees), and an optional timeline. Frames form a stack mirroring
//! the ancestor chain; strict discipline, one pop per push.
//!
//! Flattening is a pure tree rewrite: an adoptee produced by a
//! transparent construct (repeat or conditional) is replaced by its
//! materialized children, recursively, preserving source order.

use vstd::prelude::*;
use crate::property::{
    pull_spec,
    Expr,
    ExpressionTable,
    Property,
    prop_value,
    RuntimeError,
    Scope,
    ScopeView,
    Timeline,
};
use crate::template::{node_wf, tree_wf, InstanceKind, InstanceNode, InstanceTree};
use crate::value::ValueModel;

verus! {

/// One repeat iteration a node was lifted out of: the iteration index and
/// the repeat node whose datum it binds.
#[derive(Clone, Copy, Debug, PartialEq, Eq, Structural)]
pub struct RepeatBinding {
    pub index: i64,
    pub repeat_node: usize,
}

/// One flattened slot-content entry: the renderable node, and the repeat
/// bindings of every transparent repeat it was lifted out of, outermost
/// first.
#[derive(Clone, Debug)]
pub struct Adoptee {
    pub node: usize,
    pub env: Vec<RepeatBinding>,
}

impl View for Adoptee {
    type V = (int, Seq<RepeatBinding>);

    open spec fn view(&self) -> (int, Seq<RepeatBinding>) {
        (self.node as int, self.env@)
    }
}

/// The views of a list of adoptees.
pub open spec fn adoptee_views(s: Seq<Adoptee>) -> Seq<(int, Seq<RepeatBinding>)> {
    s.map_values(|a: Adoptee| a@)
}

/// The outcome of condition evaluation during flattening, as a model:
/// pull the property, then demand a boolean.
pub open spec fn cond_eval(table: Seq<Expr>, scope: ScopeView, p: Property<bool>) -> Result<
    bool,
    RuntimeError,
> {
    match pull_spec(table, scope, p.vtable_id_spec(), ValueModel::Bool(prop_value(p))) {
        Ok(ValueModel::Bool(b)) => Ok(b),
        Ok(_) => Err(RuntimeError::CoercionFailure),
        Err(e) => Err(e),
    }
}

/// The flattened form of the subtree rooted at `idx` as slot content
/// under `env`: a transparent conditional contributes its children while
/// its condition holds and nothing otherwise; a transparent repeat
/// contributes its children once per datum, with the binding appended;
/// any other node contributes itself.
pub open spec fn flatten_spec(
    nodes: Seq<InstanceNode>,
    table: Seq<Expr>,
    scope: ScopeView,
    idx: int,
    env: Seq<RepeatBinding>,
) -> Result<Seq<(int, Seq<RepeatBinding>)>, RuntimeError>
    decreases nodes.len() - idx, 2int, 0int,
    when 0 <= idx < nodes.len() && tree_wf(nodes)
    via flatten_spec_decreases
{
    match nodes[idx].kind {
        InstanceKind::Conditional(ref c) => match cond_eval(table, scope, c.condition) {
            Ok(true) => flatten_children_spec(nodes, table, scope, idx, nodes[idx].children@, 0, env),
            Ok(false) => Ok(Seq::empty()),
            Err(e) => Err(e),
        },
        InstanceKind::Repeat(ref rep) => flatten_repeat_spec(
            nodes,
            table,
            scope,
            idx,
            rep.data@.len() as int,
            0,
            env,
        ),
        _ => Ok(seq![(idx, env)]),
    }
}

/// The concatenated flattening of `children[k..]` under `env`.
pub open spec fn flatten_children_spec(
    nodes: Seq<InstanceNode>,
    table: Seq<Expr>,
    scope: ScopeView,
    parent: int,
    children: Seq<usize>,
    k: int,
    env: Seq<RepeatBinding>,
) -> Result<Seq<(int, Seq<RepeatBinding>)>, RuntimeError>
    decreases nodes.len() - parent, 0int, children.len() - k,
    when 0 <= parent < nodes.len() && tree_wf(nodes) && children == nodes[parent].children@ && 0
        <= k <= children.len()
    via flatten_children_spec_decreases
{
    if k >= children.len() {
        Ok(Seq::empty())
    } else {
        match flatten_spec(nodes, table, scope, children[k] as int, env) {
            Ok(first) => match flatten_children_spec(
                nodes,
                table,
                scope,
                parent,
                children,
                k + 1,
                env,
            ) {
                Ok(rest) => Ok(first + rest),
                Err(e) => Err(e),
            },
            Err(e) => Err(e),
        }
    }
}

/// The concatenated flattening of a repeat's children for iterations
/// `k..n`, each copy with its binding appended to `env`.
pub open spec fn flatten_repeat_spec(
    nodes: Seq<InstanceNode>,
    table: Seq<Expr>,
    scope: ScopeView,
    parent: int,
    n: int,
    k: int,
    env: Seq<RepeatBinding>,
) -> Result<Seq<(int, Seq<RepeatBinding>)>, RuntimeError>
    decreases nodes.len() - parent, 1int, n - k,
    when 0 <= parent < nodes.len() && tree_wf(nodes) && nodes[parent].kind is Repeat && 0 <= k <= n
        <= i64::MAX
    via flatten_repeat_spec_decreases
{
    if k >= n {
        Ok(Seq::empty())
    } else {
        let child_env = env.push(RepeatBinding { index: k as i64, repeat_node: parent as usize });
        match flatten_children_spec(
            nodes,
            table,
            scope,
            parent,
            nodes[parent].children@,
            0,
            child_env,
        ) {
            Ok(first) => match flatten_repeat_spec(nodes, table, scope, parent, n, k + 1, env) {
                Ok(rest) => Ok(first + rest),
                Err(e) => Err(e),
            },
            Err(e) => Err(e),
        }
    }
}

#[via_fn]
proof fn flatten_spec_decreases(
    nodes: Seq<InstanceNode>,
    table: Seq<Expr>,
    scope: ScopeView,
    idx: int,
    env: Seq<RepeatBinding>,
) {
    assert(node_wf(nodes, idx));
}

#[via_fn]
proof fn flatten_children_spec_decreases(
    nodes: Seq<InstanceNode>,
    table: Seq<Expr>,
    scope: ScopeView,
    parent: int,
    children: Seq<usize>,
    k: int,
    env: Seq<RepeatBinding>,
) {
    assert(node_wf(nodes, parent));
    if k < children.len() {
        assert(parent < nodes[parent].children@[k] < nodes.len());
    }
}

#[via_fn]
proof fn flatten_repeat_spec_decreases(
    nodes: Seq<InstanceNode>,
    table: Seq<Expr>,
    scope: ScopeView,
    parent: int,
    n: int,
    k: int,
    env: Seq<RepeatBinding>,
) {
    assert(node_wf(nodes, parent));
}

/// Flatten the subtree rooted at `idx` as slot content, appending the
/// result to `out`, exactly as `flatten_spec` says.
pub fn process_adoptee_recursive(
    tree: &InstanceTree,
    table: &ExpressionTable,
    scope: &Scope,
    idx: usize,
    env: &Vec<RepeatBinding>,
    out: &mut Vec<Adoptee>,
) -> (r: Result<(), RuntimeError>)
    requires
        tree.wf(),
        idx < tree.nodes@.len(),
    ensures
        match r {
            Ok(_) => flatten_spec(tree.nodes@, table.entries@, scope@, idx as int, env@) matches Ok(
                s,
            ) && adoptee_views(final(out)@) == adoptee_views(old(out)@) + s,
            Err(e) => flatten_spec(tree.nodes@, table.entries@, scope@, idx as int, env@) == Err::<
                Seq<(int, Seq<RepeatBinding>)>,
                RuntimeError,
            >(e),
        },
    decreases tree.nodes@.len() - idx, 2int, 0int,
{
    proof {
        assert(node_wf(tree.nodes@, idx as int));
    }
    let node = &tree.nodes[idx];
    match &node.kind {
        InstanceKind::Conditional(c) => {
            match crate::property::pull_bool(table, scope, &c.condition) {
                Ok(true) => flatten_children_exec(tree, table, scope, idx, env, out),
                Ok(false) => {
                    proof {
                        assert(adoptee_views(out@) =~= adoptee_views(out@) + Seq::<
                            (int, Seq<RepeatBinding>),
                        >::empty());
                    }
                    Ok(())
                },
                Err(e) => Err(e),
            }
        },
        InstanceKind::Repeat(rep) => {
            let n = rep.data.len();
            let ghost base = adoptee_views(out@);
            let ghost mut acc: Seq<(int, Seq<RepeatBinding>)> = Seq::empty();
            let mut k: usize = 0;
            proof {
                assert(base + acc =~= base);
            }
            while k < n
                invariant
                    tree.wf(),
                    idx < tree.nodes@.len(),
                    (tree.nodes@[idx as int].kind matches InstanceKind::Repeat(ref r2)
                        && r2.data@.len() == n),
                    n <= i64::MAX,
                    0 <= k <= n,
                    adoptee_views(out@) == base + acc,
                    ({
                        let whole = flatten_repeat_spec(
                            tree.nodes@,
                            table.entries@,
                            scope@,
                            idx as int,
                            n as int,
                            0,
                            env@,
                        );
                        let rest = flatten_repeat_spec(
                            tree.nodes@,
                            table.entries@,
                            scope@,
                            idx as int,
                            n as int,
                            k as int,
                            env@,
                        );
                        match rest {
                            Ok(rs) => whole == Ok::<Seq<(int, Seq<RepeatBinding>)>, RuntimeError>(
                                acc + rs,
                            ),
                            Err(_) => whole == rest,
                        }
                    }),
                decreases n - k,
            {
                let mut child_env: Vec<RepeatBinding> = env.clone();
                child_env.push(RepeatBinding { index: k as i64, repeat_node: idx });
                let r = flatten_children_exec(tree, table, scope, idx, &child_env, out);
                match r {
                    Ok(_) => (),
                    Err(e) => {
                        return Err(e);
                    },
                }
                proof {
                    let s_child = flatten_children_spec(
                        tree.nodes@,
                        table.entries@,
                        scope@,
                        idx as int,
                        tree.nodes@[idx as int].children@,
                        0,
                        env@.push(RepeatBinding { index: k as i64, repeat_node: idx }),
                    );
                    let rest_next = flatten_repeat_spec(
                        tree.nodes@,
                        table.entries@,
                        scope@,
                        idx as int,
                        n as int,
                        k as int + 1,
                        env@,
                    );
                    let old_acc = acc;
                    acc = acc + s_child->Ok_0;
                    assert(adoptee_views(out@) =~= base + acc);
                    match rest_next {
                        Ok(rs) => {
                            assert(old_acc + (s_child->Ok_0 + rs) =~= acc + rs);
                        },
                        Err(_) => {},
                    }
                }
                k = k + 1;
            }
            proof {
                assert(acc + Seq::<(int, Seq<RepeatBinding>)>::empty() =~= acc);
            }
            Ok(())
        },
        _ => {
            let adoptee = Adoptee { node: idx, env: env.clone() };
            out.push(adoptee);
            proof {
                assert(adoptee_views(out@) =~= adoptee_views(old(out)@) + seq![
                    (idx as int, env@),
                ]);
            }
            Ok(())
        },
    }
}

/// Flatten every child of `parent` in order, appending to `out`.
fn flatten_children_exec(
    tree: &InstanceTree,
    table: &ExpressionTable,
    scope: &Scope,
    parent: usize,
    env: &Vec<RepeatBinding>,
    out: &mut Vec<Adoptee>,
) -> (r: Result<(), RuntimeError>)
    requires
        tree.wf(),
        parent < tree.nodes@.len(),
    ensures
        match r {
            Ok(_) => flatten_children_spec(
                tree.nodes@,
                table.entries@,
                scope@,
                parent as int,
                tree.nodes@[parent as int].children@,
                0,
                env@,
            ) matches Ok(s) && adoptee_views(final(out)@) == adoptee_views(old(out)@) + s,
            Err(e) => flatten_children_spec(
                tree.nodes@,
                table.entries@,
                scope@,
                parent as int,
                tree.nodes@[parent as int].children@,
                0,
                env@,
            ) == Err::<Seq<(int, Seq<RepeatBinding>)>, RuntimeError>(e),
        },
    decreases tree.nodes@.len() - parent, 1int, 0int,
{
    proof {
        assert(node_wf(tree.nodes@, parent as int));
    }
    let ghost children = tree.nodes@[parent as int].children@;
    let ghost base = adoptee_views(out@);
    let ghost mut acc: Seq<(int, Seq<RepeatBinding>)> = Seq::empty();
    let n = tree.nodes[parent].children.len();
    let mut k: usize = 0;
    proof {
        assert(base + acc =~= base);
    }
    while k < n
        invariant
            tree.wf(),
            parent < tree.nodes@.len(),
            children == tree.nodes@[parent as int].children@,
            n == children.len(),
            0 <= k <= n,
            adoptee_views(out@) == base + acc,
            ({
                let whole = flatten_children_spec(
                    tree.nodes@,
                    table.entries@,
                    scope@,
                    parent as int,
                    children,
                    0,
                    env@,
                );
                let rest = flatten_children_spec(
                    tree.nodes@,
                    table.entries@,
                    scope@,
                    parent as int,
                    children,
                    k as int,
                    env@,
                );
                match rest {
                    Ok(rs) => whole == Ok::<Seq<(int, Seq<RepeatBinding>)>, RuntimeError>(
                        acc + rs,
                    ),
                    Err(_) => whole == rest,
                }
            }),
        decreases n - k,
    {
        proof {
            assert(node_wf(tree.nodes@, parent as int));
            assert(parent < children[k as int] < tree.nodes@.len());
        }
        let child = tree.nodes[parent].children[k];
        let r = process_adoptee_recursive(tree, table, scope, child, env, out);
        match r {
            Ok(_) => (),
            Err(e) => {
                return Err(e);
            },
        }
        proof {
            let s_child = flatten_spec(
                tree.nodes@,
                table.entries@,
                scope@,
                children[k as int] as int,
                env@,
            );
            let rest_next = flatten_children_spec(
                tree.nodes@,
                table.entries@,
                scope@,
                parent as int,
                children,
                k as int + 1,
                env@,
            );
            let old_acc = acc;
            acc = acc + s_child->Ok_0;
            assert(adoptee_views(out@) =~= base + acc);
            match rest_next {
                Ok(rs) => {
                    assert(old_acc + (s_child->Ok_0 + rs) =~= acc + rs);
                },
                Err(_) => {},
            }
        }
        k = k + 1;
    }
    proof {
        assert(acc + Seq::<(int, Seq<RepeatBinding>)>::empty() =~= acc);
    }
    Ok(())
}

/// A single frame of the runtime stack: the flattened adoptees available
/// to slots below it, the evaluation scope, an optional timeline, and the
/// shadow flag of synthetic repeat-iteration frames, which adoptee lookup
/// skips.
#[derive(Debug)]
pub struct StackFrame {
    pub adoptees: Vec<Adoptee>,
    pub scope: Scope,
    pub timeline: Option<Timeline>,
    pub shadow_scope_only: bool,
}

impl StackFrame {
    /// Whether this frame carries any adoptees.
    pub fn has_adoptees(&self) -> (r: bool)
        ensures
            r == (self.adoptees@.len() > 0),
    {
        self.adoptees.len() > 0
    }

    /// The frame's evaluation scope.
    pub fn get_scope(&self) -> (r: &Scope)
        ensures
            r == &self.scope,
    {
        &self.scope
    }
}

/// The repeat indices carried by the stack, bottom to top: one entry per
/// frame whose scope binds an iteration index.
pub open spec fn repeat_indices(stack: Seq<StackFrame>) -> Seq<u64>
    decreases stack.len(),
{
    if stack.len() == 0 {
        Seq::empty()
    } else {
        repeat_indices(stack.drop_last()) + (match stack.last().scope.repeat_index {
            Some(i) => seq![i as u64],
            None => Seq::empty(),
        })
    }
}

/// The playhead position of the nearest frame that carries a timeline,
/// searching from the top; a stack with none is at position zero.
pub open spec fn playhead_spec(stack: Seq<StackFrame>) -> u64
    decreases stack.len(),
{
    if stack.len() == 0 {
        0u64
    } else {
        match stack.last().timeline {
            Some(t) => t.playhead_position,
            None => playhead_spec(stack.drop_last()),
        }
    }
}

/// The frame adoptee lookup reads: the topmost frame that is not a
/// shadow frame.
pub open spec fn adoptee_frame_spec(stack: Seq<StackFrame>) -> Option<int>
    decreases stack.len(),
{
    if stack.len() == 0 {
        None
    } else if !stack.last().shadow_scope_only {
        Some(stack.len() - 1)
    } else {
        adoptee_frame_spec(stack.drop_last())
    }
}

/// The scope expressions evaluate under: the top frame's, or the empty
/// scope when the stack is empty.
pub open spec fn top_scope_view(stack: Seq<StackFrame>) -> ScopeView {
    if stack.len() == 0 {
        crate::property::empty_scope_view()
    } else {
        stack.last().scope@
    }
}

/// The concatenated flattening of the nodes `list[k..]`, each with an
/// empty binding environment.
pub open spec fn flatten_list_spec(
    nodes: Seq<InstanceNode>,
    table: Seq<Expr>,
    scope: ScopeView,
    list: Seq<usize>,
    k: int,
) -> Result<Seq<(int, Seq<RepeatBinding>)>, RuntimeError>
    decreases list.len() - k,
    when 0 <= k <= list.len()
{
    if k >= list.len() {
        Ok(Seq::empty())
    } else {
        match flatten_spec(nodes, table, scope, list[k] as int, Seq::empty()) {
            Ok(first) => match flatten_list_spec(nodes, table, scope, list, k + 1) {
                Ok(rest) => Ok(first + rest),
                Err(e) => Err(e),
            },
            Err(e) => Err(e),
        }
    }
}

/// The engine's home for scope and stack-frame logic, aside from
/// rendering.
#[derive(Debug)]
pub struct Runtime {
    pub stack: Vec<StackFrame>,
}

impl Runtime {
    /// A runtime with an empty stack.
    pub fn new() -> (r: Runtime)
        ensures
            r.stack@.len() == 0,
    {
        Runtime { stack: Vec::new() }
    }

    /// The top frame, without mutating the stack.
    pub fn peek_stack_frame(&self) -> (r: Option<&StackFrame>)
        ensures
            match r {
                Some(f) => self.stack@.len() > 0 && *f == self.stack@.last(),
                None => self.stack@.len() == 0,
            },
    {
        if self.stack.len() > 0 {
            Some(&self.stack[self.stack.len() - 1])
        } else {
            None
        }
    }

    /// Remove the top frame; one pop per push.
    pub fn pop_stack_frame(&mut self)
        ensures
            old(self).stack@.len() > 0 ==> final(self).stack@ == old(self).stack@.drop_last(),
            old(self).stack@.len() == 0 ==> final(self).stack@ == old(self).stack@,
    {
        if self.stack.len() > 0 {
            self.stack.pop();
            proof {
                assert(self.stack@ =~= old(self).stack@.drop_last());
            }
        }
    }

    /// Push a new frame: flatten the unexpanded adoptees under the
    /// current top scope, then install them with the given scope,
    /// timeline, and shadow flag.
    pub fn push_stack_frame(
        &mut self,
        tree: &InstanceTree,
        table: &ExpressionTable,
        unexpanded_adoptees: &Vec<usize>,
        scope: Scope,
        timeline: Option<Timeline>,
        shadow_scope_only: bool,
    ) -> (r: Result<(), RuntimeError>)
        requires
            tree.wf(),
            forall|k: int|
                0 <= k < unexpanded_adoptees@.len() ==> #[trigger] unexpanded_adoptees@[k]
                    < tree.nodes@.len(),
        ensures
            match r {
                Ok(_) => {
                    &&& flatten_list_spec(
                        tree.nodes@,
                        table.entries@,
                        top_scope_view(old(self).stack@),
                        unexpanded_adoptees@,
                        0,
                    ) matches Ok(s)
                    &&& final(self).stack@.len() == old(self).stack@.len() + 1
                    &&& final(self).stack@.drop_last() == old(self).stack@
                    &&& adoptee_views(final(self).stack@.last().adoptees@) == (
                    flatten_list_spec(
                        tree.nodes@,
                        table.entries@,
                        top_scope_view(old(self).stack@),
                        unexpanded_adoptees@,
                        0,
                    ))->Ok_0
                    &&& final(self).stack@.last().scope == scope
                    &&& final(self).stack@.last().timeline == timeline
                    &&& final(self).stack@.last().shadow_scope_only == shadow_scope_only
                },
                Err(e) => {
                    &&& flatten_list_spec(
                        tree.nodes@,
                        table.entries@,
                        top_scope_view(old(self).stack@),
                        unexpanded_adoptees@,
                        0,
                    ) == Err::<Seq<(int, Seq<RepeatBinding>)>, RuntimeError>(e)
                    &&& final(self).stack@ == old(self).stack@
                },
            },
    {
        let ghost sv = top_scope_view(self.stack@);
        let empty_scope = Scope::empty();
        let env0: Vec<RepeatBinding> = Vec::new();
        let mut adoptees: Vec<Adoptee> = Vec::new();
        let ghost mut acc: Seq<(int, Seq<RepeatBinding>)> = Seq::empty();
        let n = unexpanded_adoptees.len();
        let mut k: usize = 0;
        proof {
            assert(adoptee_views(adoptees@) =~= acc);
        }
        while k < n
            invariant
                tree.wf(),
                n == unexpanded_adoptees@.len(),
                forall|j: int|
                    0 <= j < unexpanded_adoptees@.len() ==> #[trigger] unexpanded_adoptees@[j]
                        < tree.nodes@.len(),
                0 <= k <= n,
                env0@ == Seq::<RepeatBinding>::empty(),
                sv == top_scope_view(self.stack@),
                self.stack@ == old(self).stack@,
                empty_scope@ == crate::property::empty_scope_view(),
                adoptee_views(adoptees@) == acc,
                ({
                    let whole = flatten_list_spec(
                        tree.nodes@,
                        table.entries@,
                        sv,
                        unexpanded_adoptees@,
                        0,
                    );
                    let rest = flatten_list_spec(
                        tree.nodes@,
                        table.entries@,
                        sv,
                        unexpanded_adoptees@,
                        k as int,
                    );
                    match rest {
                        Ok(rs) => whole == Ok::<Seq<(int, Seq<RepeatBinding>)>, RuntimeError>(
                            acc + rs,
                        ),
                        Err(_) => whole == rest,
                    }
                }),
            decreases n - k,
        {
            let idx = unexpanded_adoptees[k];
            let r = if self.stack.len() > 0 {
                let escope = &self.stack[self.stack.len() - 1].scope;
                process_adoptee_recursive(tree, table, escope, idx, &env0, &mut adoptees)
            } else {
                process_adoptee_recursive(tree, table, &empty_scope, idx, &env0, &mut adoptees)
            };
            match r {
                Ok(_) => (),
                Err(e) => {
                    return Err(e);
                },
            }
            proof {
                let s_child = flatten_spec(
                    tree.nodes@,
                    table.entries@,
                    sv,
                    unexpanded_adoptees@[k as int] as int,
                    Seq::empty(),
                );
                let rest_next = flatten_list_spec(
                    tree.nodes@,
                    table.entries@,
                    sv,
                    unexpanded_adoptees@,
                    k as int + 1,
                );
                let old_acc = acc;
                acc = acc + s_child->Ok_0;
                match rest_next {
                    Ok(rs) => {
                        assert(old_acc + (s_child->Ok_0 + rs) =~= acc + rs);
                    },
                    Err(_) => {},
                }
            }
            k = k + 1;
        }
        proof {
            assert(acc + Seq::<(int, Seq<RepeatBinding>)>::empty() =~= acc);
        }
        let frame = StackFrame { adoptees, scope, timeline, shadow_scope_only };
        self.stack.push(frame);
        proof {
            assert(self.stack@.drop_last() =~= old(self).stack@);
        }
        Ok(())
    }

    /// The repeat indices carried by the stack, bottom to top.
    pub fn get_list_of_repeat_indicies_from_stack(&self) -> (r: Vec<u64>)
        ensures
            r@ == repeat_indices(self.stack@),
    {
        let mut out: Vec<u64> = Vec::new();
        let n = self.stack.len();
        let mut i: usize = 0;
        proof {
            assert(self.stack@.take(0) =~= Seq::<StackFrame>::empty());
        }
        while i < n
            invariant
                i <= n,
                n == self.stack@.len(),
                out@ == repeat_indices(self.stack@.take(i as int)),
            decreases n - i,
        {
            proof {
                assert(self.stack@.take(i as int + 1).drop_last() =~= self.stack@.take(i as int));
                assert(self.stack@.take(i as int + 1).last() == self.stack@[i as int]);
            }
            match self.stack[i].scope.repeat_index {
                Some(ix) => {
                    out.push(ix as u64);
                },
                None => (),
            }
            i = i + 1;
        }
        proof {
            assert(self.stack@.take(n as int) =~= self.stack@);
        }
        out
    }

    /// The playhead position of the nearest enclosing timeline, or zero.
    pub fn get_timeline_playhead_position(&self) -> (r: u64)
        ensures
            r == playhead_spec(self.stack@),
    {
        let mut i = self.stack.len();
        proof {
            assert(self.stack@.take(self.stack@.len() as int) =~= self.stack@);
        }
        while i > 0
            invariant
                i <= self.stack@.len(),
                playhead_spec(self.stack@) == playhead_spec(self.stack@.take(i as int)),
            decreases i,
        {
            proof {
                assert(self.stack@.take(i as int).last() == self.stack@[i as int - 1]);
                assert(self.stack@.take(i as int).drop_last() =~= self.stack@.take(i as int - 1));
            }
            match self.stack[i - 1].timeline {
                Some(t) => {
                    return t.playhead_position;
                },
                None => (),
            }
            i = i - 1;
        }
        0
    }

    /// The adoptee at index `n` of the topmost non-shadow frame, or
    /// nothing where the index is out of range: callers render nothing
    /// for that slot.
    pub fn nth_adoptee(&self, n: usize) -> (r: Option<Adoptee>)
        ensures
            match adoptee_frame_spec(self.stack@) {
                Some(fi) => {
                    if n < self.stack@[fi].adoptees@.len() {
                        r matches Some(a) && a@ == self.stack@[fi].adoptees@[n as int]@
                    } else {
                        r is None
                    }
                },
                None => r is None,
            },
    {
        let mut i = self.stack.len();
        proof {
            assert(self.stack@.take(self.stack@.len() as int) =~= self.stack@);
        }
        while i > 0
            invariant
                i <= self.stack@.len(),
                adoptee_frame_spec(self.stack@) == adoptee_frame_spec(
                    self.stack@.take(i as int),
                ),
            decreases i,
        {
            proof {
                assert(self.stack@.take(i as int).last() == self.stack@[i as int - 1]);
                assert(self.stack@.take(i as int).drop_last() =~= self.stack@.take(i as int - 1));
            }
            if !self.stack[i - 1].shadow_scope_only {
                let frame = &self.stack[i - 1];
                if n < frame.adoptees.len() {
                    let a = &frame.adoptees[n];
                    return Some(Adoptee { node: a.node, env: a.env.clone() });
                } else {
                    return None;
                }
            }
            i = i - 1;
        }
        None
    }
}

} // verus!
