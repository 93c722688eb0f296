//! The static instance tree: a compiled, immutable template held in one
//! arena. Each node carries an instance id minted once, its ordered
//! children as arena indices, its common layout properties, its kind
//! (component, control-flow construct, or primitive), and its registered
//! handlers.
//!
//! A well-formed tree stores children after their parent, so plain
//! descent always moves to a higher index; only slot indirection can jump
//! backwards, which traversal bounds with a recursion budget.

use vstd::prelude::*;
use crate::layout::Transform2D;
use crate::property::{Property, Scope, Timeline};
use crate::value::{Color, Size, Value};

verus! {

/// Which render layer a node asks for.
#[derive(Clone, Copy, Debug, PartialEq, Eq, Structural)]
pub enum Layer {
    DontCare,
    Native,
    Canvas,
}

/// Static per-kind behaviour flags.
#[derive(Clone, Copy, Debug, PartialEq, Eq, Structural)]
pub struct InstanceFlags {
    /// Transparent to slot flattening: replaced by its children.
    pub invisible_to_slot: bool,
    /// Never a ray-cast candidate itself.
    pub invisible_to_raycasting: bool,
    /// The render layer the node prefers.
    pub layer: Layer,
    /// Pushes a stack frame with its own scope.
    pub is_component: bool,
}

/// Opaque handler tokens per event, resolved to callbacks by the host.
#[derive(Clone, Debug)]
pub struct HandlerRegistry {
    pub scroll_handlers: Vec<u64>,
    pub jab_handlers: Vec<u64>,
    pub touch_start_handlers: Vec<u64>,
    pub touch_move_handlers: Vec<u64>,
    pub touch_end_handlers: Vec<u64>,
    pub key_down_handlers: Vec<u64>,
    pub key_up_handlers: Vec<u64>,
    pub key_press_handlers: Vec<u64>,
    pub click_handlers: Vec<u64>,
    pub mouse_down_handlers: Vec<u64>,
    pub mouse_up_handlers: Vec<u64>,
    pub mouse_move_handlers: Vec<u64>,
    pub mouse_over_handlers: Vec<u64>,
    pub mouse_out_handlers: Vec<u64>,
    pub double_click_handlers: Vec<u64>,
    pub context_menu_handlers: Vec<u64>,
    pub wheel_handlers: Vec<u64>,
    pub will_render_handlers: Vec<u64>,
    pub did_mount_handlers: Vec<u64>,
}

impl HandlerRegistry {
    /// Whether no handler is registered for any event.
    pub open spec fn is_empty_spec(&self) -> bool {
        &&& self.scroll_handlers@.len() == 0
        &&& self.jab_handlers@.len() == 0
        &&& self.touch_start_handlers@.len() == 0
        &&& self.touch_move_handlers@.len() == 0
        &&& self.touch_end_handlers@.len() == 0
        &&& self.key_down_handlers@.len() == 0
        &&& self.key_up_handlers@.len() == 0
        &&& self.key_press_handlers@.len() == 0
        &&& self.click_handlers@.len() == 0
        &&& self.mouse_down_handlers@.len() == 0
        &&& self.mouse_up_handlers@.len() == 0
        &&& self.mouse_move_handlers@.len() == 0
        &&& self.mouse_over_handlers@.len() == 0
        &&& self.mouse_out_handlers@.len() == 0
        &&& self.double_click_handlers@.len() == 0
        &&& self.context_menu_handlers@.len() == 0
        &&& self.wheel_handlers@.len() == 0
        &&& self.will_render_handlers@.len() == 0
        &&& self.did_mount_handlers@.len() == 0
    }
}

impl core::default::Default for HandlerRegistry {
    /// A registry with no handlers registered for any event.
    fn default() -> (r: HandlerRegistry)
        ensures
            r.is_empty_spec(),
    {
        HandlerRegistry {
            scroll_handlers: Vec::new(),
            jab_handlers: Vec::new(),
            touch_start_handlers: Vec::new(),
            touch_move_handlers: Vec::new(),
            touch_end_handlers: Vec::new(),
            key_down_handlers: Vec::new(),
            key_up_handlers: Vec::new(),
            key_press_handlers: Vec::new(),
            click_handlers: Vec::new(),
            mouse_down_handlers: Vec::new(),
            mouse_up_handlers: Vec::new(),
            mouse_move_handlers: Vec::new(),
            mouse_over_handlers: Vec::new(),
            mouse_out_handlers: Vec::new(),
            double_click_handlers: Vec::new(),
            context_menu_handlers: Vec::new(),
            wheel_handlers: Vec::new(),
            will_render_handlers: Vec::new(),
            did_mount_handlers: Vec::new(),
        }
    }
}

/// The sugared layout properties every node carries; absent parts fall
/// back to defaults during layout.
#[derive(Debug)]
pub struct CommonProperties {
    pub x: Option<Property<Size>>,
    pub y: Option<Property<Size>>,
    pub width: Option<Property<Size>>,
    pub height: Option<Property<Size>>,
    pub anchor_x: Option<Property<Size>>,
    pub anchor_y: Option<Property<Size>>,
    pub scale_x: Option<Property<i64>>,
    pub scale_y: Option<Property<i64>>,
    pub skew_x: Option<Property<i64>>,
    pub skew_y: Option<Property<i64>>,
    pub rotate_quarter_turns: Option<Property<i64>>,
    /// The author's explicit transform chain, applied after the sugared
    /// parts.
    pub transform: Option<Transform2D>,
}

impl CommonProperties {
    /// Properties with every part absent: identity layout filling the
    /// parent bounds.
    pub fn default_parts() -> (r: CommonProperties)
        ensures
            r.x is None,
            r.y is None,
            r.width is None,
            r.height is None,
            r.anchor_x is None,
            r.anchor_y is None,
            r.scale_x is None,
            r.scale_y is None,
            r.skew_x is None,
            r.skew_y is None,
            r.rotate_quarter_turns is None,
            r.transform is None,
    {
        CommonProperties {
            x: None,
            y: None,
            width: None,
            height: None,
            anchor_x: None,
            anchor_y: None,
            scale_x: None,
            scale_y: None,
            skew_x: None,
            skew_y: None,
            rotate_quarter_turns: None,
            transform: None,
        }
    }
}

/// A component: pushes a stack frame holding its scope and its slot
/// children, then renders its own template.
#[derive(Debug)]
pub struct ComponentInstance {
    /// Arena indices of the component's template roots.
    pub template: Vec<usize>,
    /// The component's timeline, if it owns one.
    pub timeline: Option<Timeline>,
    /// Initial component state handed to expressions through the scope.
    pub properties: Vec<(u64, Value)>,
}

/// A repeat construct: renders its children once per datum, each
/// iteration inside a shadow frame binding the index and datum.
#[derive(Debug)]
pub struct RepeatInstance {
    pub data: Vec<Value>,
}

/// A conditional construct: renders its children only while the condition
/// holds.
#[derive(Debug)]
pub struct ConditionalInstance {
    pub condition: Property<bool>,
}

/// A slot: renders the n-th flattened adoptee of the enclosing component,
/// or nothing where the index is out of range.
#[derive(Debug)]
pub struct SlotInstance {
    pub index: Property<i64>,
}

/// Gathers a set of children underneath a single node: useful for
/// composing transforms and simplifying trees.
#[derive(Debug)]
pub struct Group {}

/// The instance payload of a `Group`; it carries no state of its own.
#[derive(Debug)]
pub struct GroupInstance {
    pub properties: Group,
}

/// A native clipping container; descendants outside it are clipped, and
/// ray casting honors that.
#[derive(Debug)]
pub struct FrameInstance {}

/// A canvas-drawn rectangle primitive.
#[derive(Debug)]
pub struct RectangleInstance {
    pub fill: Property<Color>,
}

/// A platform-native slider control's state.
#[derive(Debug)]
pub struct Slider {
    pub background: Property<Color>,
    pub accent: Property<Color>,
    pub border_radius: Property<i64>,
    pub value: Property<i64>,
    pub step: Property<i64>,
    pub min: Property<i64>,
    pub max: Property<i64>,
}

/// The instance payload of a `Slider`.
#[derive(Debug)]
pub struct SliderInstance {
    pub properties: Slider,
}

/// A platform-native dropdown list's state.
#[derive(Debug)]
pub struct Dropdown {
    pub options: Vec<String>,
    pub selected_id: Property<u32>,
    pub background: Property<Color>,
    pub stroke_color: Property<Color>,
    pub stroke_width: Property<Size>,
    pub border_radius: Property<i64>,
}

/// The instance payload of a `Dropdown`.
#[derive(Debug)]
pub struct DropdownInstance {
    pub properties: Dropdown,
}

/// The closed set of node kinds the engine traverses.
#[derive(Debug)]
pub enum InstanceKind {
    Component(ComponentInstance),
    Repeat(RepeatInstance),
    Conditional(ConditionalInstance),
    Slot(SlotInstance),
    Group(GroupInstance),
    Frame(FrameInstance),
    Rectangle(RectangleInstance),
    Slider(SliderInstance),
    Dropdown(DropdownInstance),
}

/// The flags of each kind; a kind's flags never vary per node.
pub open spec fn kind_flags(k: InstanceKind) -> InstanceFlags {
    match k {
        InstanceKind::Component(_) => InstanceFlags {
            invisible_to_slot: false,
            invisible_to_raycasting: true,
            layer: Layer::DontCare,
            is_component: true,
        },
        InstanceKind::Repeat(_) => InstanceFlags {
            invisible_to_slot: true,
            invisible_to_raycasting: true,
            layer: Layer::DontCare,
            is_component: false,
        },
        InstanceKind::Conditional(_) => InstanceFlags {
            invisible_to_slot: true,
            invisible_to_raycasting: true,
            layer: Layer::DontCare,
            is_component: false,
        },
        InstanceKind::Slot(_) => InstanceFlags {
            invisible_to_slot: false,
            invisible_to_raycasting: true,
            layer: Layer::DontCare,
            is_component: false,
        },
        InstanceKind::Group(_) => InstanceFlags {
            invisible_to_slot: false,
            invisible_to_raycasting: true,
            layer: Layer::DontCare,
            is_component: false,
        },
        InstanceKind::Frame(_) => InstanceFlags {
            invisible_to_slot: false,
            invisible_to_raycasting: true,
            layer: Layer::Native,
            is_component: false,
        },
        InstanceKind::Rectangle(_) => InstanceFlags {
            invisible_to_slot: false,
            invisible_to_raycasting: false,
            layer: Layer::Canvas,
            is_component: false,
        },
        InstanceKind::Slider(_) => InstanceFlags {
            invisible_to_slot: false,
            invisible_to_raycasting: false,
            layer: Layer::Native,
            is_component: false,
        },
        InstanceKind::Dropdown(_) => InstanceFlags {
            invisible_to_slot: false,
            invisible_to_raycasting: false,
            layer: Layer::Native,
            is_component: false,
        },
    }
}

/// Whether nodes of this kind clip their descendants.
pub open spec fn kind_clips(k: InstanceKind) -> bool {
    k is Frame
}

/// One compiled node of the instance tree.
#[derive(Debug)]
pub struct InstanceNode {
    /// The instance id, minted once and never reused.
    pub instance_id: u64,
    /// Ordered children, as arena indices.
    pub children: Vec<usize>,
    /// Sugared layout properties.
    pub common: CommonProperties,
    /// The node's kind and kind-specific state.
    pub kind: InstanceKind,
    /// Handlers registered on this node.
    pub handlers: HandlerRegistry,
}

impl InstanceNode {
    /// The flags of this node.
    pub fn flags(&self) -> (r: InstanceFlags)
        ensures
            r == kind_flags(self.kind),
    {
        match &self.kind {
            InstanceKind::Component(_) => InstanceFlags {
                invisible_to_slot: false,
                invisible_to_raycasting: true,
                layer: Layer::DontCare,
                is_component: true,
            },
            InstanceKind::Repeat(_) => InstanceFlags {
                invisible_to_slot: true,
                invisible_to_raycasting: true,
                layer: Layer::DontCare,
                is_component: false,
            },
            InstanceKind::Conditional(_) => InstanceFlags {
                invisible_to_slot: true,
                invisible_to_raycasting: true,
                layer: Layer::DontCare,
                is_component: false,
            },
            InstanceKind::Slot(_) => InstanceFlags {
                invisible_to_slot: false,
                invisible_to_raycasting: true,
                layer: Layer::DontCare,
                is_component: false,
            },
            InstanceKind::Group(_) => InstanceFlags {
                invisible_to_slot: false,
                invisible_to_raycasting: true,
                layer: Layer::DontCare,
                is_component: false,
            },
            InstanceKind::Frame(_) => InstanceFlags {
                invisible_to_slot: false,
                invisible_to_raycasting: true,
                layer: Layer::Native,
                is_component: false,
            },
            InstanceKind::Rectangle(_) => InstanceFlags {
                invisible_to_slot: false,
                invisible_to_raycasting: false,
                layer: Layer::Canvas,
                is_component: false,
            },
            InstanceKind::Slider(_) => InstanceFlags {
                invisible_to_slot: false,
                invisible_to_raycasting: false,
                layer: Layer::Native,
                is_component: false,
            },
            InstanceKind::Dropdown(_) => InstanceFlags {
                invisible_to_slot: false,
                invisible_to_raycasting: false,
                layer: Layer::Native,
                is_component: false,
            },
        }
    }

    /// Whether this node clips its descendants.
    pub fn is_clipping(&self) -> (r: bool)
        ensures
            r == kind_clips(self.kind),
    {
        match &self.kind {
            InstanceKind::Frame(_) => true,
            _ => false,
        }
    }

    /// Whether slot flattening replaces this node by its children.
    pub fn should_flatten(&self) -> (r: bool)
        ensures
            r == kind_flags(self.kind).invisible_to_slot,
    {
        self.flags().invisible_to_slot
    }
}

/// The whole compiled template, as one arena of nodes; index 0 is the
/// root component.
#[derive(Debug)]
pub struct InstanceTree {
    pub nodes: Vec<InstanceNode>,
}

/// Structural well-formedness of one node at arena index `i`: children
/// and template indices point strictly forward, and repeat data lengths
/// fit the index type.
pub open spec fn node_wf(nodes: Seq<InstanceNode>, i: int) -> bool {
    &&& forall|j: int|
        0 <= j < nodes[i].children@.len() ==> i < #[trigger] nodes[i].children@[j] < nodes.len()
    &&& match nodes[i].kind {
        InstanceKind::Component(ref c) => forall|j: int|
            0 <= j < c.template@.len() ==> i < #[trigger] c.template@[j] < nodes.len(),
        InstanceKind::Repeat(ref rep) => rep.data@.len() <= i64::MAX,
        _ => true,
    }
}

/// Structural well-formedness of the whole tree: every node is
/// well-formed, instance ids are pairwise distinct, and the root is a
/// component.
pub open spec fn tree_wf(nodes: Seq<InstanceNode>) -> bool {
    &&& nodes.len() > 0
    &&& forall|i: int| 0 <= i < nodes.len() ==> #[trigger] node_wf(nodes, i)
    &&& forall|i: int, j: int|
        0 <= i < j < nodes.len() ==> #[trigger] nodes[i].instance_id != #[trigger] nodes[j].instance_id
    &&& nodes[0].kind is Component
}

impl InstanceTree {
    /// Structural well-formedness of this tree.
    pub open spec fn wf(&self) -> bool {
        tree_wf(self.nodes@)
    }
}

} // verus!
