use pax_core::math::{contains_point, Affine, TransformAndBounds};
use pax_core::messages::{diff_state, NodeState, SliderState, NativeMessage};
use pax_core::property::{
    compute_eased_value, eval_expr, handle_vtable_update, handle_vtable_update_optional, Expr,
    ExpressionTable, Property, Scope, Transition, TransitionManager,
};
use pax_core::registry::{chains_equal, InstanceRegistry};
use pax_core::runtime::{process_adoptee_recursive, Runtime};
use pax_core::template::{
    CommonProperties, ConditionalInstance, GroupInstance, Group, HandlerRegistry, InstanceKind,
    InstanceNode, InstanceTree, RepeatInstance,
};
use pax_core::value::{Axis, Color, CoercionRules, Size, Value};
use pax_core::property::Timeline;
use pax_core::messages::NativeInterrupt;

fn plain_node(id: u64, children: Vec<usize>, kind: InstanceKind) -> InstanceNode {
    InstanceNode {
        instance_id: id,
        children,
        common: CommonProperties::default_parts(),
        kind,
        handlers: HandlerRegistry::default(),
    }
}

#[test]
fn affine_translation_composes() {
    let parent = Affine::translate(10, 20);
    let child = Affine::translate(3, 4);
    let combined = parent.compose(&child).unwrap();
    let direct = Affine::translate(13, 24);
    assert_eq!(combined, direct);
}

#[test]
fn size_percent_evaluates_against_bound() {
    let half = Size::Percent(50);
    assert_eq!(half.evaluate((200, 80), Axis::X), Some(100));
    assert_eq!(half.evaluate((200, 80), Axis::Y), Some(40));
    let px = Size::Pixels(7);
    assert_eq!(px.evaluate((200, 80), Axis::X), Some(7));
    let combined = Size::Combined(5, 50);
    assert_eq!(combined.evaluate((200, 80), Axis::X), Some(105));
}

#[test]
fn point_containment_in_translated_box() {
    let tab = TransformAndBounds { transform: Affine::translate(10, 10), bounds: (20, 20) };
    assert!(contains_point(&tab, 15, 15));
    assert!(contains_point(&tab, 10, 10));
    assert!(contains_point(&tab, 30, 30));
    assert!(!contains_point(&tab, 31, 15));
    assert!(!contains_point(&tab, 5, 15));
}

#[test]
fn coercion_rules_recover_static_types() {
    assert_eq!(<i64 as CoercionRules>::try_coerce(Value::Int(5)).unwrap(), 5);
    assert!(<i64 as CoercionRules>::try_coerce(Value::Bool(true)).is_err());
    assert!(<bool as CoercionRules>::try_coerce(Value::Bool(true)).unwrap());
    assert_eq!(
        <Size as CoercionRules>::try_coerce(Value::Int(9)).unwrap(),
        Size::Pixels(9)
    );
    assert!(<u32 as CoercionRules>::try_coerce(Value::Int(-1)).is_err());
}

#[test]
fn vtable_update_assigns_expression_values() {
    let table = ExpressionTable::new(vec![Expr::Const(Value::Int(42))]);
    let scope = Scope::empty();
    let mut prop: Property<i64> = Property::expression(0, 0);
    handle_vtable_update(&table, &scope, &mut prop).unwrap();
    assert_eq!(*prop.get(), 42);

    let mut literal: Property<i64> = Property::literal(7);
    handle_vtable_update(&table, &scope, &mut literal).unwrap();
    assert_eq!(*literal.get(), 7);

    let mut absent: Option<Property<i64>> = None;
    handle_vtable_update_optional(&table, &scope, &mut absent).unwrap();
    assert!(absent.is_none());
}

#[test]
fn vtable_update_reports_coercion_mismatch() {
    let table = ExpressionTable::new(vec![Expr::Const(Value::Bool(true))]);
    let scope = Scope::empty();
    let mut prop: Property<i64> = Property::expression(0, 0);
    assert!(handle_vtable_update(&table, &scope, &mut prop).is_err());
}

#[test]
fn expression_evaluation_reads_scope() {
    let scope = Scope {
        properties: vec![(1, Value::Int(10))],
        repeat_index: Some(3),
        repeat_datum: Some(Value::Int(99)),
    };
    match eval_expr(&Expr::Prop(1), &scope).unwrap() {
        Value::Int(x) => assert_eq!(x, 10),
        _ => panic!("wrong value"),
    }
    match eval_expr(&Expr::RepeatIndex, &scope).unwrap() {
        Value::Int(x) => assert_eq!(x, 3),
        _ => panic!("wrong value"),
    }
    assert!(eval_expr(&Expr::Prop(2), &scope).is_err());
}

#[test]
fn eased_value_interpolates_and_settles() {
    let mut tm = TransitionManager {
        queue: vec![Transition {
            starting_value: 0,
            ending_value: 100,
            duration_frames: 10,
            global_frame_started: Some(0),
        }],
        value: None,
    };
    assert_eq!(compute_eased_value(5, &mut tm), Some(50));
    let mut tm2 = TransitionManager {
        queue: vec![Transition {
            starting_value: 0,
            ending_value: 100,
            duration_frames: 10,
            global_frame_started: Some(0),
        }],
        value: None,
    };
    assert_eq!(compute_eased_value(10, &mut tm2), Some(100));
    assert_eq!(tm2.queue.len(), 0);
}

#[test]
fn diff_emits_nothing_without_change_and_one_field_alone() {
    let state = NodeState::Slider(SliderState {
        size_x: 10,
        size_y: 10,
        transform: Affine::translate(0, 0),
        value: 5,
        step: 1,
        min: 0,
        max: 10,
        accent: Color::rgb(1, 2, 3),
        background: Color::rgb(4, 5, 6),
        border_radius: 2,
    });
    let chain = vec![7u64];
    assert!(diff_state(Some(&state), &state, &chain).is_none());

    let mut changed = state;
    if let NodeState::Slider(ref mut s) = changed {
        s.value = 6;
    }
    match diff_state(Some(&state), &changed, &chain).unwrap() {
        NativeMessage::SliderUpdate(p) => {
            assert_eq!(p.value, Some(6));
            assert_eq!(p.size_x, None);
            assert_eq!(p.min, None);
            assert_eq!(p.transform, None);
        }
        _ => panic!("wrong message"),
    }
}

#[test]
fn registry_mounts_exactly_once_per_chain() {
    let mut reg = InstanceRegistry::new();
    let chain = vec![1u64, 0u64];
    assert!(!reg.is_mounted(&chain));
    reg.mark_mounted(chain.clone());
    assert!(reg.is_mounted(&chain));
    reg.mark_mounted(chain.clone());
    assert!(reg.is_mounted(&chain));
    reg.clear_mounted(&chain);
    assert!(!reg.is_mounted(&chain));
    reg.mark_mounted(chain.clone());
    assert!(reg.is_mounted(&chain));
    assert_eq!(reg.mint_id(), 0);
    assert_eq!(reg.mint_id(), 1);
    assert!(chains_equal(&vec![1, 2], &vec![1, 2]));
    assert!(!chains_equal(&vec![1, 2], &vec![1, 3]));
}

#[test]
fn flattening_replaces_transparent_nodes_by_children() {
    // Node 0: a repeat over two data items whose children are nodes 1 and
    // 2; flattening it as slot content yields each child once per datum.
    let nodes = vec![
        plain_node(
            10,
            vec![1, 2],
            InstanceKind::Repeat(RepeatInstance { data: vec![Value::Int(0), Value::Int(1)] }),
        ),
        plain_node(11, vec![], InstanceKind::Group(GroupInstance { properties: Group {} })),
        plain_node(12, vec![], InstanceKind::Group(GroupInstance { properties: Group {} })),
    ];
    let tree = InstanceTree { nodes };
    let table = ExpressionTable::new(vec![]);
    let scope = Scope::empty();
    let mut out = Vec::new();
    process_adoptee_recursive(&tree, &table, &scope, 0, &Vec::new(), &mut out).unwrap();
    assert_eq!(out.len(), 4);
    assert_eq!(out[0].node, 1);
    assert_eq!(out[1].node, 2);
    assert_eq!(out[2].node, 1);
    assert_eq!(out[3].node, 2);
    assert_eq!(out[0].env.len(), 1);
    assert_eq!(out[0].env[0].index, 0);
    assert_eq!(out[2].env[0].index, 1);
}

#[test]
fn conditional_false_flattens_to_nothing() {
    let nodes = vec![
        plain_node(
            20,
            vec![1],
            InstanceKind::Conditional(ConditionalInstance { condition: Property::literal(false) }),
        ),
        plain_node(21, vec![], InstanceKind::Group(GroupInstance { properties: Group {} })),
    ];
    let tree = InstanceTree { nodes };
    let table = ExpressionTable::new(vec![]);
    let scope = Scope::empty();
    let mut out = Vec::new();
    process_adoptee_recursive(&tree, &table, &scope, 0, &Vec::new(), &mut out).unwrap();
    assert_eq!(out.len(), 0);
}

#[test]
fn runtime_stack_tracks_timelines_and_indices() {
    let nodes = vec![plain_node(
        30,
        vec![],
        InstanceKind::Group(GroupInstance { properties: Group {} }),
    )];
    let tree = InstanceTree { nodes };
    let table = ExpressionTable::new(vec![]);
    let mut rt = Runtime::new();
    assert_eq!(rt.get_timeline_playhead_position(), 0);
    rt.push_stack_frame(
        &tree,
        &table,
        &vec![0],
        Scope::empty(),
        Some(Timeline { playhead_position: 9, frame_count: 100 }),
        false,
    )
    .unwrap();
    assert_eq!(rt.get_timeline_playhead_position(), 9);
    let mut inner = Scope::empty();
    inner.repeat_index = Some(4);
    rt.push_stack_frame(&tree, &table, &Vec::new(), inner, None, true).unwrap();
    assert_eq!(rt.get_timeline_playhead_position(), 9);
    assert_eq!(rt.get_list_of_repeat_indicies_from_stack(), vec![4u64]);
    // Adoptee lookup skips the shadow frame and reads the outer frame.
    let a = rt.nth_adoptee(0).unwrap();
    assert_eq!(a.node, 0);
    assert!(rt.nth_adoptee(1).is_none());
    rt.pop_stack_frame();
    rt.pop_stack_frame();
    assert!(rt.peek_stack_frame().is_none());
}

#[test]
fn traversal_expands_each_node_once_without_repeats() {
    // Root component with two rectangle-free children: every instance
    // node yields exactly one cache entry whose chain is its bare id.
    let nodes = vec![
        InstanceNode {
            instance_id: 1,
            children: vec![],
            common: CommonProperties::default_parts(),
            kind: InstanceKind::Component(pax_core::template::ComponentInstance {
                template: vec![1, 2],
                timeline: None,
                properties: vec![],
            }),
            handlers: HandlerRegistry::default(),
        },
        plain_node(2, vec![], InstanceKind::Group(GroupInstance { properties: Group {} })),
        plain_node(3, vec![], InstanceKind::Group(GroupInstance { properties: Group {} })),
    ];
    let tree = InstanceTree { nodes };
    let table = ExpressionTable::new(vec![]);
    let (cache, post, depth) =
        pax_core::engine::traverse_render_tree(&tree, &table, &Vec::new(), (100, 100)).unwrap();
    assert_eq!(cache.len(), 3);
    assert_eq!(post.len(), 3);
    assert_eq!(depth, 0);
    assert_eq!(cache[0].id_chain, vec![1u64]);
    assert_eq!(cache[1].id_chain, vec![2u64]);
    assert_eq!(cache[2].id_chain, vec![3u64]);
    assert_eq!(cache[1].parent, Some(0));
    assert_eq!(cache[2].parent, Some(0));
    // Full-bounds defaults propagate the viewport size.
    assert_eq!(cache[1].tab.bounds, (100, 100));
}

#[test]
fn nested_repeats_expand_product_of_counts() {
    // A repeat over two items nested in a repeat over three items yields
    // exactly six expansions of the leaf, each with a distinct chain.
    let nodes = vec![
        InstanceNode {
            instance_id: 1,
            children: vec![],
            common: CommonProperties::default_parts(),
            kind: InstanceKind::Component(pax_core::template::ComponentInstance {
                template: vec![1],
                timeline: None,
                properties: vec![],
            }),
            handlers: HandlerRegistry::default(),
        },
        plain_node(
            2,
            vec![2],
            InstanceKind::Repeat(RepeatInstance {
                data: vec![Value::Int(0), Value::Int(1), Value::Int(2)],
            }),
        ),
        plain_node(
            3,
            vec![3],
            InstanceKind::Repeat(RepeatInstance { data: vec![Value::Int(0), Value::Int(1)] }),
        ),
        plain_node(4, vec![], InstanceKind::Group(GroupInstance { properties: Group {} })),
    ];
    let tree = InstanceTree { nodes };
    let table = ExpressionTable::new(vec![]);
    let (cache, _post, _depth) =
        pax_core::engine::traverse_render_tree(&tree, &table, &Vec::new(), (100, 100)).unwrap();
    let mut leaf_chains: Vec<Vec<u64>> = Vec::new();
    for e in &cache {
        if e.instance_id == 4 {
            leaf_chains.push(e.id_chain.clone());
        }
    }
    assert_eq!(leaf_chains.len(), 6);
    for i in 0..leaf_chains.len() {
        for j in 0..i {
            assert_ne!(leaf_chains[i], leaf_chains[j]);
        }
    }
    assert_eq!(leaf_chains[0], vec![4u64, 0, 0]);
    assert_eq!(leaf_chains[5], vec![4u64, 2, 1]);
}

#[test]
fn percent_width_tracks_parent_across_ticks() {
    // A half-width child recomputes against whatever bound the current
    // tick propagates: no stale caching across viewport changes.
    let mut child_common = CommonProperties::default_parts();
    child_common.width = Some(Property::literal(Size::Percent(50)));
    let nodes = vec![
        InstanceNode {
            instance_id: 1,
            children: vec![],
            common: CommonProperties::default_parts(),
            kind: InstanceKind::Component(pax_core::template::ComponentInstance {
                template: vec![1],
                timeline: None,
                properties: vec![],
            }),
            handlers: HandlerRegistry::default(),
        },
        InstanceNode {
            instance_id: 2,
            children: vec![],
            common: child_common,
            kind: InstanceKind::Group(GroupInstance { properties: Group {} }),
            handlers: HandlerRegistry::default(),
        },
    ];
    let tree = InstanceTree { nodes };
    let table = ExpressionTable::new(vec![]);
    let (c1, _, _) =
        pax_core::engine::traverse_render_tree(&tree, &table, &Vec::new(), (200, 100)).unwrap();
    assert_eq!(c1[1].tab.bounds.0, 100);
    let (c2, _, _) =
        pax_core::engine::traverse_render_tree(&tree, &table, &Vec::new(), (300, 100)).unwrap();
    assert_eq!(c2[1].tab.bounds.0, 150);
}

fn rect_node(id: u64, w: i64, h: i64) -> InstanceNode {
    let mut common = CommonProperties::default_parts();
    common.width = Some(Property::literal(Size::Pixels(w)));
    common.height = Some(Property::literal(Size::Pixels(h)));
    InstanceNode {
        instance_id: id,
        children: vec![],
        common,
        kind: InstanceKind::Rectangle(pax_core::template::RectangleInstance {
            fill: Property::literal(Color::rgb(0, 0, 0)),
        }),
        handlers: HandlerRegistry::default(),
    }
}

fn root_component(template: Vec<usize>) -> InstanceNode {
    InstanceNode {
        instance_id: 1,
        children: vec![],
        common: CommonProperties::default_parts(),
        kind: InstanceKind::Component(pax_core::template::ComponentInstance {
            template,
            timeline: None,
            properties: vec![],
        }),
        handlers: HandlerRegistry::default(),
    }
}

#[test]
fn raycast_overlapping_siblings_hits_later_declared() {
    // Root component with fully overlapping sibling rectangles declared
    // [A, B]: the ray at their shared centroid must return B.
    let nodes = vec![root_component(vec![1, 2]), rect_node(2, 100, 100), rect_node(3, 100, 100)];
    let tree = InstanceTree { nodes };
    let table = ExpressionTable::new(vec![]);
    let (cache, _, _) =
        pax_core::engine::traverse_render_tree(&tree, &table, &Vec::new(), (100, 100)).unwrap();
    // Cache order: root, A, B; B is topmost.
    let hit = pax_core::engine::get_topmost_element_beneath_ray(&cache, (50, 50)).unwrap();
    assert_eq!(cache[hit].instance_id, 3);
}

#[test]
fn raycast_honors_clipping_ancestors() {
    // A 20x20 clipping frame holds a 40x40 rectangle. A point inside the
    // rectangle but outside the frame is no hit; a point inside both hits
    // the rectangle.
    let mut frame_common = CommonProperties::default_parts();
    frame_common.width = Some(Property::literal(Size::Pixels(20)));
    frame_common.height = Some(Property::literal(Size::Pixels(20)));
    let frame = InstanceNode {
        instance_id: 2,
        children: vec![2],
        common: frame_common,
        kind: InstanceKind::Frame(pax_core::template::FrameInstance {}),
        handlers: HandlerRegistry::default(),
    };
    let nodes = vec![root_component(vec![1]), frame, rect_node(3, 40, 40)];
    let tree = InstanceTree { nodes };
    let table = ExpressionTable::new(vec![]);
    let (cache, _, _) =
        pax_core::engine::traverse_render_tree(&tree, &table, &Vec::new(), (100, 100)).unwrap();
    assert!(pax_core::engine::get_topmost_element_beneath_ray(&cache, (30, 10)).is_none());
    let hit = pax_core::engine::get_topmost_element_beneath_ray(&cache, (10, 10)).unwrap();
    assert_eq!(cache[hit].instance_id, 3);
}

#[test]
fn tick_mounts_once_diffs_and_remounts_after_unmount() {
    // A clipping frame with one mount token: the first tick fires mount,
    // creates and sends the full patch; an unchanged second tick sends
    // nothing; unmount then re-mount fires mount again, exactly once.
    let mut frame_common = CommonProperties::default_parts();
    frame_common.width = Some(Property::literal(Size::Pixels(20)));
    frame_common.height = Some(Property::literal(Size::Pixels(20)));
    let mut handlers = HandlerRegistry::default();
    handlers.did_mount_handlers.push(7);
    handlers.will_render_handlers.push(9);
    let frame = InstanceNode {
        instance_id: 2,
        children: vec![],
        common: frame_common,
        kind: InstanceKind::Frame(pax_core::template::FrameInstance {}),
        handlers,
    };
    let nodes = vec![root_component(vec![1]), frame];
    let tree = InstanceTree { nodes };
    let table = ExpressionTable::new(vec![]);
    let mut engine = pax_core::tick::PaxEngine::new(tree, table, (100, 100));

    let out1 = engine.tick(0).unwrap();
    assert_eq!(out1.mount_events, vec![(vec![2u64], 7u64)]);
    assert_eq!(out1.will_render_events, vec![(vec![2u64], 9u64)]);
    // Did-render runs post-order: children before their parent.
    assert_eq!(out1.did_render, vec![vec![2u64], vec![1u64]]);
    assert!(out1.unmounted.is_empty());
    // Create, full first patch, and a layer-add for the one discovered
    // native layer against zero allocated layers.
    assert_eq!(out1.native_messages.len(), 3);
    assert!(matches!(out1.native_messages[0], NativeMessage::FrameCreate(_)));
    assert!(matches!(out1.native_messages[1], NativeMessage::FrameUpdate(_)));
    match &out1.native_messages[2] {
        NativeMessage::LayerAdd(p) => assert_eq!(p.num_layers_to_add, 2),
        _ => panic!("expected a layer request"),
    }

    // No observable change: mount stays quiet and nothing is enqueued,
    // but will-render still fires — evaluation is unconditional every
    // tick.
    let out2 = engine.tick(4).unwrap();
    assert!(out2.mount_events.is_empty());
    assert!(out2.native_messages.is_empty());
    assert!(out2.unmounted.is_empty());
    assert_eq!(out2.will_render_events, vec![(vec![2u64], 9u64)]);

    // A viewport change the fixed-size frame cannot observe enqueues
    // nothing either.
    engine.set_viewport_size((300, 100));
    let out3 = engine.tick(4).unwrap();
    assert_eq!(out3.native_messages.len(), 0);

    // Unmount: the chain is cleared and deleted, then re-mounts once.
    engine.instance_registry.mark_for_unmount(2);
    let out4 = engine.tick(4).unwrap();
    assert_eq!(out4.unmounted, vec![vec![2u64]]);
    assert!(out4.native_messages.iter().any(|m| matches!(m, NativeMessage::FrameDelete(_))));
    let out5 = engine.tick(4).unwrap();
    assert_eq!(out5.mount_events, vec![(vec![2u64], 7u64)]);
    assert!(out5.native_messages.iter().any(|m| matches!(m, NativeMessage::FrameCreate(_))));
}

#[test]
fn tick_sends_only_the_changed_field() {
    // A percent-sized frame tracks the viewport: widening the viewport
    // changes size_x alone, and the patch carries exactly that field.
    let frame = InstanceNode {
        instance_id: 2,
        children: vec![],
        common: CommonProperties::default_parts(),
        kind: InstanceKind::Frame(pax_core::template::FrameInstance {}),
        handlers: HandlerRegistry::default(),
    };
    let nodes = vec![root_component(vec![1]), frame];
    let tree = InstanceTree { nodes };
    let table = ExpressionTable::new(vec![]);
    let mut engine = pax_core::tick::PaxEngine::new(tree, table, (200, 100));
    engine.tick(4).unwrap();
    engine.set_viewport_size((300, 100));
    let out = engine.tick(4).unwrap();
    assert_eq!(out.native_messages.len(), 1);
    match &out.native_messages[0] {
        NativeMessage::FrameUpdate(p) => {
            assert_eq!(p.size_x, Some(300));
            assert_eq!(p.size_y, None);
            assert_eq!(p.transform, None);
        }
        _ => panic!("expected an update"),
    }
}

#[test]
fn dispatch_bubbles_up_the_parent_chain() {
    let mut rect = rect_node(3, 50, 50);
    rect.handlers.click_handlers.push(11);
    let mut root = root_component(vec![1]);
    root.handlers.click_handlers.push(22);
    let mut group = plain_node(2, vec![2], InstanceKind::Group(GroupInstance { properties: Group {} }));
    group.children = vec![2];
    let nodes = vec![root, group, rect];
    let tree = InstanceTree { nodes };
    let table = ExpressionTable::new(vec![]);
    let (cache, _, _) =
        pax_core::engine::traverse_render_tree(&tree, &table, &Vec::new(), (100, 100)).unwrap();
    // The rectangle sits at cache position 2; its click bubbles through
    // the group (no handler) up to the root.
    let fired = pax_core::dispatch::dispatch_click(&tree, &cache, 2);
    assert_eq!(fired, vec![(vec![3u64], 11u64), (vec![1u64], 22u64)]);
}

#[test]
fn viewport_intersection_is_conservative_and_exact_on_boxes() {
    let on_screen = TransformAndBounds { transform: Affine::translate(10, 10), bounds: (20, 20) };
    assert!(on_screen.intersects((100, 100)));
    let off_screen = TransformAndBounds { transform: Affine::translate(200, 0), bounds: (20, 20) };
    assert!(!off_screen.intersects((100, 100)));
}

#[test]
fn form_interrupt_updates_the_owning_slider() {
    let slider = InstanceNode {
        instance_id: 2,
        children: vec![],
        common: CommonProperties::default_parts(),
        kind: InstanceKind::Slider(pax_core::template::SliderInstance {
            properties: pax_core::template::Slider {
                background: Property::literal(Color::rgb(1, 1, 1)),
                accent: Property::literal(Color::rgb(2, 2, 2)),
                border_radius: Property::literal(5),
                value: Property::literal(0),
                step: Property::literal(1),
                min: Property::literal(0),
                max: Property::literal(100),
            },
        }),
        handlers: HandlerRegistry::default(),
    };
    let nodes = vec![root_component(vec![1]), slider];
    let tree = InstanceTree { nodes };
    let table = ExpressionTable::new(vec![]);
    let mut engine = pax_core::tick::PaxEngine::new(tree, table, (100, 100));
    engine.tick(4).unwrap();
    engine.handle_native_interrupt(&NativeInterrupt::FormSliderChange {
        instance_id: 2,
        value: 42,
    });
    let out = engine.tick(4).unwrap();
    assert_eq!(out.native_messages.len(), 1);
    match &out.native_messages[0] {
        NativeMessage::SliderUpdate(p) => {
            assert_eq!(p.value, Some(42));
            assert_eq!(p.min, None);
            assert_eq!(p.size_x, None);
        }
        _ => panic!("expected a slider update"),
    }
    // An id no node holds changes nothing.
    engine.handle_native_interrupt(&NativeInterrupt::FormSliderChange {
        instance_id: 99,
        value: 7,
    });
    let out2 = engine.tick(4).unwrap();
    assert!(out2.native_messages.is_empty());
}
