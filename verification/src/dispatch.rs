//! Event dispatch: a pointer, key or form interrupt lands on one cache
//! entry and bubbles up the dynamic parent chain; at each node the
//! handlers registered for that event fire, in registration order, keyed
//! by the node's id chain. Handlers are opaque tokens the host resolves
//! to callbacks.

use vstd::prelude::*;
use crate::registry::ExpandedNode;
use crate::template::{HandlerRegistry, InstanceNode, InstanceTree};
use crate::tick::fired_models;

verus! {

/// The events a handler can be registered for and dispatched through
/// bubbling.
#[derive(Clone, Copy, Debug, PartialEq, Eq, Structural)]
pub enum EventKind {
    Scroll,
    Jab,
    TouchStart,
    TouchMove,
    TouchEnd,
    KeyDown,
    KeyUp,
    KeyPress,
    Click,
    MouseDown,
    MouseUp,
    MouseMove,
    MouseOver,
    MouseOut,
    DoubleClick,
    ContextMenu,
    Wheel,
}

/// The handler tokens a registry holds for one event.
pub open spec fn handlers_of_spec(reg: HandlerRegistry, kind: EventKind) -> Seq<u64> {
    match kind {
        EventKind::Scroll => reg.scroll_handlers@,
        EventKind::Jab => reg.jab_handlers@,
        EventKind::TouchStart => reg.touch_start_handlers@,
        EventKind::TouchMove => reg.touch_move_handlers@,
        EventKind::TouchEnd => reg.touch_end_handlers@,
        EventKind::KeyDown => reg.key_down_handlers@,
        EventKind::KeyUp => reg.key_up_handlers@,
        EventKind::KeyPress => reg.key_press_handlers@,
        EventKind::Click => reg.click_handlers@,
        EventKind::MouseDown => reg.mouse_down_handlers@,
        EventKind::MouseUp => reg.mouse_up_handlers@,
        EventKind::MouseMove => reg.mouse_move_handlers@,
        EventKind::MouseOver => reg.mouse_over_handlers@,
        EventKind::MouseOut => reg.mouse_out_handlers@,
        EventKind::DoubleClick => reg.double_click_handlers@,
        EventKind::ContextMenu => reg.context_menu_handlers@,
        EventKind::Wheel => reg.wheel_handlers@,
    }
}

fn handlers_of(reg: &HandlerRegistry, kind: EventKind) -> (r: &Vec<u64>)
    ensures
        r@ == handlers_of_spec(*reg, kind),
{
    match kind {
        EventKind::Scroll => &reg.scroll_handlers,
        EventKind::Jab => &reg.jab_handlers,
        EventKind::TouchStart => &reg.touch_start_handlers,
        EventKind::TouchMove => &reg.touch_move_handlers,
        EventKind::TouchEnd => &reg.touch_end_handlers,
        EventKind::KeyDown => &reg.key_down_handlers,
        EventKind::KeyUp => &reg.key_up_handlers,
        EventKind::KeyPress => &reg.key_press_handlers,
        EventKind::Click => &reg.click_handlers,
        EventKind::MouseDown => &reg.mouse_down_handlers,
        EventKind::MouseUp => &reg.mouse_up_handlers,
        EventKind::MouseMove => &reg.mouse_move_handlers,
        EventKind::MouseOver => &reg.mouse_over_handlers,
        EventKind::MouseOut => &reg.mouse_out_handlers,
        EventKind::DoubleClick => &reg.double_click_handlers,
        EventKind::ContextMenu => &reg.context_menu_handlers,
        EventKind::Wheel => &reg.wheel_handlers,
    }
}

/// The handler tokens one cache entry fires itself for an event, keyed by
/// its id chain.
pub open spec fn own_handlers_spec(
    nodes: Seq<InstanceNode>,
    cache: Seq<ExpandedNode>,
    k: int,
    kind: EventKind,
) -> Seq<(Seq<u64>, u64)> {
    if 0 <= cache[k].instance_index < nodes.len() {
        handlers_of_spec(nodes[cache[k].instance_index as int].handlers, kind).map_values(
            |t: u64| (cache[k].id_chain@, t),
        )
    } else {
        Seq::empty()
    }
}

/// The full bubbled dispatch from cache entry `k`: its own handlers, then
/// each ancestor's, walking the dynamic parent chain to the root; a
/// malformed parent link stops the walk.
pub open spec fn dispatch_spec(
    nodes: Seq<InstanceNode>,
    cache: Seq<ExpandedNode>,
    k: int,
    kind: EventKind,
) -> Seq<(Seq<u64>, u64)>
    decreases k,
{
    if !(0 <= k < cache.len()) {
        Seq::empty()
    } else {
        let own = own_handlers_spec(nodes, cache, k, kind);
        match cache[k].parent {
            None => own,
            Some(p) => if 0 <= p < k {
                own + dispatch_spec(nodes, cache, p as int, kind)
            } else {
                own
            },
        }
    }
}

/// Dispatch one event at a cache entry and bubble it up the parent
/// chain, exactly as `dispatch_spec` says: the result names, in firing
/// order, each handler token with the id chain of the node it fires on.
#[verifier::rlimit(100)]
pub fn dispatch_event(
    tree: &InstanceTree,
    cache: &Vec<ExpandedNode>,
    start: usize,
    kind: EventKind,
) -> (r: Vec<(Vec<u64>, u64)>)
    requires
        start < cache@.len(),
    ensures
        fired_models(r@) == dispatch_spec(tree.nodes@, cache@, start as int, kind),
{
    let mut fired: Vec<(Vec<u64>, u64)> = Vec::new();
    let ghost mut facc: Seq<(Seq<u64>, u64)> = Seq::empty();
    let mut cur: usize = start;
    let mut done = false;
    proof {
        assert(fired_models(fired@) =~= facc);
    }
    while !done
        invariant
            start < cache@.len(),
            cur < cache@.len(),
            fired_models(fired@) == facc,
            !done ==> dispatch_spec(tree.nodes@, cache@, start as int, kind) == facc
                + dispatch_spec(tree.nodes@, cache@, cur as int, kind),
            done ==> dispatch_spec(tree.nodes@, cache@, start as int, kind) == facc,
        decreases cur + (if done {
            0int
        } else {
            1int
        }),
    {
        let ghost own = own_handlers_spec(tree.nodes@, cache@, cur as int, kind);
        if cache[cur].instance_index < tree.nodes.len() {
            let node = &tree.nodes[cache[cur].instance_index];
            let toks = handlers_of(&node.handlers, kind);
            let nt = toks.len();
            let mut t: usize = 0;
            while t < nt
                invariant
                    cur < cache@.len(),
                    cache@[cur as int].instance_index < tree.nodes@.len(),
                    *node == tree.nodes@[cache@[cur as int].instance_index as int],
                    toks@ == handlers_of_spec(node.handlers, kind),
                    nt == toks@.len(),
                    0 <= t <= nt,
                    own == own_handlers_spec(tree.nodes@, cache@, cur as int, kind),
                    own == toks@.map_values(|tok: u64| (cache@[cur as int].id_chain@, tok)),
                    fired_models(fired@) == facc + toks@.take(t as int).map_values(
                        |tok: u64| (cache@[cur as int].id_chain@, tok),
                    ),
                decreases nt - t,
            {
                let token = toks[t];
                let chain = cache[cur].id_chain.clone();
                proof {
                    assert(chain@ =~= cache@[cur as int].id_chain@);
                }
                let ghost prev_fired = fired@;
                fired.push((chain, token));
                proof {
                    assert(toks@.take(t as int + 1) =~= toks@.take(t as int).push(
                        toks@[t as int],
                    ));
                    assert(toks@.take(t as int + 1).map_values(
                        |tok: u64| (cache@[cur as int].id_chain@, tok),
                    ) =~= toks@.take(t as int).map_values(
                        |tok: u64| (cache@[cur as int].id_chain@, tok),
                    ).push((cache@[cur as int].id_chain@, toks@[t as int])));
                    assert(fired_models(fired@) =~= fired_models(prev_fired).push(
                        (cache@[cur as int].id_chain@, toks@[t as int]),
                    ));
                    assert(fired_models(fired@) =~= facc + toks@.take(t as int + 1).map_values(
                        |tok: u64| (cache@[cur as int].id_chain@, tok),
                    ));
                }
                t = t + 1;
            }
            proof {
                assert(toks@.take(nt as int) =~= toks@);
            }
        } else {
            proof {
                assert(own =~= Seq::<(Seq<u64>, u64)>::empty());
                assert(fired_models(fired@) =~= facc + own);
            }
        }
        proof {
            let old_facc = facc;
            facc = facc + own;
            match cache@[cur as int].parent {
                None => {},
                Some(p) => {
                    if 0 <= p < cur {
                        assert(old_facc + (own + dispatch_spec(
                            tree.nodes@,
                            cache@,
                            p as int,
                            kind,
                        )) =~= facc + dispatch_spec(tree.nodes@, cache@, p as int, kind));
                    }
                },
            }
        }
        match cache[cur].parent {
            None => {
                done = true;
            },
            Some(p) => {
                if p >= cur {
                    done = true;
                } else {
                    cur = p;
                }
            },
        }
    }
    fired
}

/// Bubble a scroll event up from one cache entry.
pub fn dispatch_scroll(tree: &InstanceTree, cache: &Vec<ExpandedNode>, start: usize) -> (r: Vec<
    (Vec<u64>, u64),
>)
    requires
        start < cache@.len(),
    ensures
        fired_models(r@) == dispatch_spec(tree.nodes@, cache@, start as int, EventKind::Scroll),
{
    dispatch_event(tree, cache, start, EventKind::Scroll)
}

/// Bubble a jab event up from one cache entry.
pub fn dispatch_jab(tree: &InstanceTree, cache: &Vec<ExpandedNode>, start: usize) -> (r: Vec<
    (Vec<u64>, u64),
>)
    requires
        start < cache@.len(),
    ensures
        fired_models(r@) == dispatch_spec(tree.nodes@, cache@, start as int, EventKind::Jab),
{
    dispatch_event(tree, cache, start, EventKind::Jab)
}

/// Bubble a touch-start event up from one cache entry.
pub fn dispatch_touch_start(tree: &InstanceTree, cache: &Vec<ExpandedNode>, start: usize) -> (r: Vec<
    (Vec<u64>, u64),
>)
    requires
        start < cache@.len(),
    ensures
        fired_models(r@) == dispatch_spec(tree.nodes@, cache@, start as int, EventKind::TouchStart),
{
    dispatch_event(tree, cache, start, EventKind::TouchStart)
}

/// Bubble a touch-move event up from one cache entry.
pub fn dispatch_touch_move(tree: &InstanceTree, cache: &Vec<ExpandedNode>, start: usize) -> (r: Vec<
    (Vec<u64>, u64),
>)
    requires
        start < cache@.len(),
    ensures
        fired_models(r@) == dispatch_spec(tree.nodes@, cache@, start as int, EventKind::TouchMove),
{
    dispatch_event(tree, cache, start, EventKind::TouchMove)
}

/// Bubble a touch-end event up from one cache entry.
pub fn dispatch_touch_end(tree: &InstanceTree, cache: &Vec<ExpandedNode>, start: usize) -> (r: Vec<
    (Vec<u64>, u64),
>)
    requires
        start < cache@.len(),
    ensures
        fired_models(r@) == dispatch_spec(tree.nodes@, cache@, start as int, EventKind::TouchEnd),
{
    dispatch_event(tree, cache, start, EventKind::TouchEnd)
}

/// Bubble a key-down event up from one cache entry.
pub fn dispatch_key_down(tree: &InstanceTree, cache: &Vec<ExpandedNode>, start: usize) -> (r: Vec<
    (Vec<u64>, u64),
>)
    requires
        start < cache@.len(),
    ensures
        fired_models(r@) == dispatch_spec(tree.nodes@, cache@, start as int, EventKind::KeyDown),
{
    dispatch_event(tree, cache, start, EventKind::KeyDown)
}

/// Bubble a key-up event up from one cache entry.
pub fn dispatch_key_up(tree: &InstanceTree, cache: &Vec<ExpandedNode>, start: usize) -> (r: Vec<
    (Vec<u64>, u64),
>)
    requires
        start < cache@.len(),
    ensures
        fired_models(r@) == dispatch_spec(tree.nodes@, cache@, start as int, EventKind::KeyUp),
{
    dispatch_event(tree, cache, start, EventKind::KeyUp)
}

/// Bubble a key-press event up from one cache entry.
pub fn dispatch_key_press(tree: &InstanceTree, cache: &Vec<ExpandedNode>, start: usize) -> (r: Vec<
    (Vec<u64>, u64),
>)
    requires
        start < cache@.len(),
    ensures
        fired_models(r@) == dispatch_spec(tree.nodes@, cache@, start as int, EventKind::KeyPress),
{
    dispatch_event(tree, cache, start, EventKind::KeyPress)
}

/// Bubble a click event up from one cache entry.
pub fn dispatch_click(tree: &InstanceTree, cache: &Vec<ExpandedNode>, start: usize) -> (r: Vec<
    (Vec<u64>, u64),
>)
    requires
        start < cache@.len(),
    ensures
        fired_models(r@) == dispatch_spec(tree.nodes@, cache@, start as int, EventKind::Click),
{
    dispatch_event(tree, cache, start, EventKind::Click)
}

/// Bubble a mouse-down event up from one cache entry.
pub fn dispatch_mouse_down(tree: &InstanceTree, cache: &Vec<ExpandedNode>, start: usize) -> (r: Vec<
    (Vec<u64>, u64),
>)
    requires
        start < cache@.len(),
    ensures
        fired_models(r@) == dispatch_spec(tree.nodes@, cache@, start as int, EventKind::MouseDown),
{
    dispatch_event(tree, cache, start, EventKind::MouseDown)
}

/// Bubble a mouse-up event up from one cache entry.
pub fn dispatch_mouse_up(tree: &InstanceTree, cache: &Vec<ExpandedNode>, start: usize) -> (r: Vec<
    (Vec<u64>, u64),
>)
    requires
        start < cache@.len(),
    ensures
        fired_models(r@) == dispatch_spec(tree.nodes@, cache@, start as int, EventKind::MouseUp),
{
    dispatch_event(tree, cache, start, EventKind::MouseUp)
}

/// Bubble a mouse-move event up from one cache entry.
pub fn dispatch_mouse_move(tree: &InstanceTree, cache: &Vec<ExpandedNode>, start: usize) -> (r: Vec<
    (Vec<u64>, u64),
>)
    requires
        start < cache@.len(),
    ensures
        fired_models(r@) == dispatch_spec(tree.nodes@, cache@, start as int, EventKind::MouseMove),
{
    dispatch_event(tree, cache, start, EventKind::MouseMove)
}

/// Bubble a mouse-over event up from one cache entry.
pub fn dispatch_mouse_over(tree: &InstanceTree, cache: &Vec<ExpandedNode>, start: usize) -> (r: Vec<
    (Vec<u64>, u64),
>)
    requires
        start < cache@.len(),
    ensures
        fired_models(r@) == dispatch_spec(tree.nodes@, cache@, start as int, EventKind::MouseOver),
{
    dispatch_event(tree, cache, start, EventKind::MouseOver)
}

/// Bubble a mouse-out event up from one cache entry.
pub fn dispatch_mouse_out(tree: &InstanceTree, cache: &Vec<ExpandedNode>, start: usize) -> (r: Vec<
    (Vec<u64>, u64),
>)
    requires
        start < cache@.len(),
    ensures
        fired_models(r@) == dispatch_spec(tree.nodes@, cache@, start as int, EventKind::MouseOut),
{
    dispatch_event(tree, cache, start, EventKind::MouseOut)
}

/// Bubble a double-click event up from one cache entry.
pub fn dispatch_double_click(tree: &InstanceTree, cache: &Vec<ExpandedNode>, start: usize) -> (r: Vec<
    (Vec<u64>, u64),
>)
    requires
        start < cache@.len(),
    ensures
        fired_models(r@) == dispatch_spec(tree.nodes@, cache@, start as int, EventKind::DoubleClick),
{
    dispatch_event(tree, cache, start, EventKind::DoubleClick)
}

/// Bubble a context-menu event up from one cache entry.
pub fn dispatch_context_menu(tree: &InstanceTree, cache: &Vec<ExpandedNode>, start: usize) -> (r: Vec<
    (Vec<u64>, u64),
>)
    requires
        start < cache@.len(),
    ensures
        fired_models(r@) == dispatch_spec(tree.nodes@, cache@, start as int, EventKind::ContextMenu),
{
    dispatch_event(tree, cache, start, EventKind::ContextMenu)
}

/// Bubble a wheel event up from one cache entry.
pub fn dispatch_wheel(tree: &InstanceTree, cache: &Vec<ExpandedNode>, start: usize) -> (r: Vec<
    (Vec<u64>, u64),
>)
    requires
        start < cache@.len(),
    ensures
        fired_models(r@) == dispatch_spec(tree.nodes@, cache@, start as int, EventKind::Wheel),
{
    dispatch_event(tree, cache, start, EventKind::Wheel)
}

} // verus!
