//! The native bridge: per-node observable state snapshots, tagged
//! create/update/delete patch messages keyed by id chain, and the diff
//! that sends only changed fields. Two consecutive ticks with no
//! observable change for a node enqueue nothing for it.

use vstd::prelude::*;
use crate::math::Affine;
use crate::value::Color;

verus! {

/// The observable state of a native slider.
#[derive(Clone, Copy, Debug, PartialEq, Eq, Structural)]
pub struct SliderState {
    pub size_x: i64,
    pub size_y: i64,
    pub transform: Affine,
    pub value: i64,
    pub step: i64,
    pub min: i64,
    pub max: i64,
    pub accent: Color,
    pub background: Color,
    pub border_radius: i64,
}

/// The observable state of a native dropdown.
#[derive(Clone, Copy, Debug, PartialEq, Eq, Structural)]
pub struct DropdownState {
    pub size_x: i64,
    pub size_y: i64,
    pub transform: Affine,
    pub selected_id: u32,
    pub background: Color,
    pub stroke_color: Color,
    pub stroke_width: i64,
    pub border_radius: i64,
}

/// The observable state of a native clipping frame.
#[derive(Clone, Copy, Debug, PartialEq, Eq, Structural)]
pub struct FrameState {
    pub size_x: i64,
    pub size_y: i64,
    pub transform: Affine,
}

/// The observable state of any native-bridged node.
#[derive(Clone, Copy, Debug, PartialEq, Eq, Structural)]
pub enum NodeState {
    Slider(SliderState),
    Dropdown(DropdownState),
    Frame(FrameState),
}

/// An update patch for a slider: only changed fields are present.
#[derive(Clone, Debug)]
pub struct SliderPatch {
    pub id_chain: Vec<u64>,
    pub size_x: Option<i64>,
    pub size_y: Option<i64>,
    pub transform: Option<Affine>,
    pub value: Option<i64>,
    pub step: Option<i64>,
    pub min: Option<i64>,
    pub max: Option<i64>,
    pub accent: Option<Color>,
    pub background: Option<Color>,
    pub border_radius: Option<i64>,
}

/// The model of a `SliderPatch`.
pub struct SliderPatchModel {
    pub id_chain: Seq<u64>,
    pub size_x: Option<i64>,
    pub size_y: Option<i64>,
    pub transform: Option<Affine>,
    pub value: Option<i64>,
    pub step: Option<i64>,
    pub min: Option<i64>,
    pub max: Option<i64>,
    pub accent: Option<Color>,
    pub background: Option<Color>,
    pub border_radius: Option<i64>,
}

impl View for SliderPatch {
    type V = SliderPatchModel;

    open spec fn view(&self) -> SliderPatchModel {
        SliderPatchModel {
            id_chain: self.id_chain@,
            size_x: self.size_x,
            size_y: self.size_y,
            transform: self.transform,
            value: self.value,
            step: self.step,
            min: self.min,
            max: self.max,
            accent: self.accent,
            background: self.background,
            border_radius: self.border_radius,
        }
    }
}

/// An update patch for a dropdown: only changed fields are present.
#[derive(Clone, Debug)]
pub struct DropdownPatch {
    pub id_chain: Vec<u64>,
    pub size_x: Option<i64>,
    pub size_y: Option<i64>,
    pub transform: Option<Affine>,
    pub selected_id: Option<u32>,
    pub background: Option<Color>,
    pub stroke_color: Option<Color>,
    pub stroke_width: Option<i64>,
    pub border_radius: Option<i64>,
}

/// The model of a `DropdownPatch`.
pub struct DropdownPatchModel {
    pub id_chain: Seq<u64>,
    pub size_x: Option<i64>,
    pub size_y: Option<i64>,
    pub transform: Option<Affine>,
    pub selected_id: Option<u32>,
    pub background: Option<Color>,
    pub stroke_color: Option<Color>,
    pub stroke_width: Option<i64>,
    pub border_radius: Option<i64>,
}

impl View for DropdownPatch {
    type V = DropdownPatchModel;

    open spec fn view(&self) -> DropdownPatchModel {
        DropdownPatchModel {
            id_chain: self.id_chain@,
            size_x: self.size_x,
            size_y: self.size_y,
            transform: self.transform,
            selected_id: self.selected_id,
            background: self.background,
            stroke_color: self.stroke_color,
            stroke_width: self.stroke_width,
            border_radius: self.border_radius,
        }
    }
}

/// An update patch for a clipping frame: only changed fields are present.
#[derive(Clone, Debug)]
pub struct FramePatch {
    pub id_chain: Vec<u64>,
    pub size_x: Option<i64>,
    pub size_y: Option<i64>,
    pub transform: Option<Affine>,
}

/// The model of a `FramePatch`.
pub struct FramePatchModel {
    pub id_chain: Seq<u64>,
    pub size_x: Option<i64>,
    pub size_y: Option<i64>,
    pub transform: Option<Affine>,
}

impl View for FramePatch {
    type V = FramePatchModel;

    open spec fn view(&self) -> FramePatchModel {
        FramePatchModel {
            id_chain: self.id_chain@,
            size_x: self.size_x,
            size_y: self.size_y,
            transform: self.transform,
        }
    }
}

/// A creation message for any native node, keyed by id chain alone;
/// clip ancestry at creation is recoverable from the cache's parent
/// links and clipping flags, so the patch does not repeat it.
#[derive(Clone, Debug)]
pub struct AnyCreatePatch {
    pub id_chain: Vec<u64>,
}

/// A native interrupt a form control sends back to the engine, matched
/// to the owning node's state by instance id.
#[derive(Clone, Copy, Debug, PartialEq, Eq, Structural)]
pub enum NativeInterrupt {
    FormSliderChange { instance_id: u64, value: i64 },
    FormDropdownChange { instance_id: u64, selected_id: u32 },
}

/// A request to allocate more render layers.
#[derive(Clone, Copy, Debug, PartialEq, Eq, Structural)]
pub struct LayerAddPatch {
    pub num_layers_to_add: usize,
}

/// One message of the native bridge queue.
#[derive(Clone, Debug)]
pub enum NativeMessage {
    SliderCreate(AnyCreatePatch),
    SliderUpdate(SliderPatch),
    SliderDelete(Vec<u64>),
    DropdownCreate(AnyCreatePatch),
    DropdownUpdate(DropdownPatch),
    DropdownDelete(Vec<u64>),
    FrameCreate(AnyCreatePatch),
    FrameUpdate(FramePatch),
    FrameDelete(Vec<u64>),
    LayerAdd(LayerAddPatch),
}

/// The model of one native message.
pub enum MessageModel {
    SliderCreate(Seq<u64>),
    SliderUpdate(SliderPatchModel),
    SliderDelete(Seq<u64>),
    DropdownCreate(Seq<u64>),
    DropdownUpdate(DropdownPatchModel),
    DropdownDelete(Seq<u64>),
    FrameCreate(Seq<u64>),
    FrameUpdate(FramePatchModel),
    FrameDelete(Seq<u64>),
    LayerAdd(int),
}

impl View for NativeMessage {
    type V = MessageModel;

    open spec fn view(&self) -> MessageModel {
        match *self {
            NativeMessage::SliderCreate(ref p) => MessageModel::SliderCreate(p.id_chain@),
            NativeMessage::SliderUpdate(ref p) => MessageModel::SliderUpdate(p@),
            NativeMessage::SliderDelete(ref c) => MessageModel::SliderDelete(c@),
            NativeMessage::DropdownCreate(ref p) => MessageModel::DropdownCreate(p.id_chain@),
            NativeMessage::DropdownUpdate(ref p) => MessageModel::DropdownUpdate(p@),
            NativeMessage::DropdownDelete(ref c) => MessageModel::DropdownDelete(c@),
            NativeMessage::FrameCreate(ref p) => MessageModel::FrameCreate(p.id_chain@),
            NativeMessage::FrameUpdate(ref p) => MessageModel::FrameUpdate(p@),
            NativeMessage::FrameDelete(ref c) => MessageModel::FrameDelete(c@),
            NativeMessage::LayerAdd(ref p) => MessageModel::LayerAdd(p.num_layers_to_add as int),
        }
    }
}

/// The models of a message queue.
pub open spec fn messages_model(s: Seq<NativeMessage>) -> Seq<MessageModel> {
    s.map_values(|m: NativeMessage| m@)
}

/// A field of an update patch: present with the current value exactly
/// where no previous value exists or the value changed.
pub open spec fn field_patch<T>(prev: Option<T>, cur: T) -> Option<T> {
    match prev {
        Some(p) => if p == cur {
            None
        } else {
            Some(cur)
        },
        None => Some(cur),
    }
}

/// The slider state a previous snapshot carries, if it was a slider.
pub open spec fn prev_slider(prev: Option<NodeState>) -> Option<SliderState> {
    match prev {
        Some(NodeState::Slider(s)) => Some(s),
        _ => None,
    }
}

/// The dropdown state a previous snapshot carries, if it was a dropdown.
pub open spec fn prev_dropdown(prev: Option<NodeState>) -> Option<DropdownState> {
    match prev {
        Some(NodeState::Dropdown(s)) => Some(s),
        _ => None,
    }
}

/// The frame state a previous snapshot carries, if it was a frame.
pub open spec fn prev_frame(prev: Option<NodeState>) -> Option<FrameState> {
    match prev {
        Some(NodeState::Frame(s)) => Some(s),
        _ => None,
    }
}

/// The update patch a slider sends given its previous snapshot, or
/// nothing where every field is unchanged.
pub open spec fn diff_slider_spec(
    prev: Option<NodeState>,
    cur: SliderState,
    chain: Seq<u64>,
) -> Option<SliderPatchModel> {
    if prev_slider(prev) == Some(cur) {
        None
    } else {
        let p = prev_slider(prev);
        Some(
            SliderPatchModel {
                id_chain: chain,
                size_x: field_patch(
                    match p {
                        Some(s) => Some(s.size_x),
                        None => None,
                    },
                    cur.size_x,
                ),
                size_y: field_patch(
                    match p {
                        Some(s) => Some(s.size_y),
                        None => None,
                    },
                    cur.size_y,
                ),
                transform: field_patch(
                    match p {
                        Some(s) => Some(s.transform),
                        None => None,
                    },
                    cur.transform,
                ),
                value: field_patch(
                    match p {
                        Some(s) => Some(s.value),
                        None => None,
                    },
                    cur.value,
                ),
                step: field_patch(
                    match p {
                        Some(s) => Some(s.step),
                        None => None,
                    },
                    cur.step,
                ),
                min: field_patch(
                    match p {
                        Some(s) => Some(s.min),
                        None => None,
                    },
                    cur.min,
                ),
                max: field_patch(
                    match p {
                        Some(s) => Some(s.max),
                        None => None,
                    },
                    cur.max,
                ),
                accent: field_patch(
                    match p {
                        Some(s) => Some(s.accent),
                        None => None,
                    },
                    cur.accent,
                ),
                background: field_patch(
                    match p {
                        Some(s) => Some(s.background),
                        None => None,
                    },
                    cur.background,
                ),
                border_radius: field_patch(
                    match p {
                        Some(s) => Some(s.border_radius),
                        None => None,
                    },
                    cur.border_radius,
                ),
            },
        )
    }
}

/// The update patch a dropdown sends given its previous snapshot, or
/// nothing where every field is unchanged.
pub open spec fn diff_dropdown_spec(
    prev: Option<NodeState>,
    cur: DropdownState,
    chain: Seq<u64>,
) -> Option<DropdownPatchModel> {
    if prev_dropdown(prev) == Some(cur) {
        None
    } else {
        let p = prev_dropdown(prev);
        Some(
            DropdownPatchModel {
                id_chain: chain,
                size_x: field_patch(
                    match p {
                        Some(s) => Some(s.size_x),
                        None => None,
                    },
                    cur.size_x,
                ),
                size_y: field_patch(
                    match p {
                        Some(s) => Some(s.size_y),
                        None => None,
                    },
                    cur.size_y,
                ),
                transform: field_patch(
                    match p {
                        Some(s) => Some(s.transform),
                        None => None,
                    },
                    cur.transform,
                ),
                selected_id: field_patch(
                    match p {
                        Some(s) => Some(s.selected_id),
                        None => None,
                    },
                    cur.selected_id,
                ),
                background: field_patch(
                    match p {
                        Some(s) => Some(s.background),
                        None => None,
                    },
                    cur.background,
                ),
                stroke_color: field_patch(
                    match p {
                        Some(s) => Some(s.stroke_color),
                        None => None,
                    },
                    cur.stroke_color,
                ),
                stroke_width: field_patch(
                    match p {
                        Some(s) => Some(s.stroke_width),
                        None => None,
                    },
                    cur.stroke_width,
                ),
                border_radius: field_patch(
                    match p {
                        Some(s) => Some(s.border_radius),
                        None => None,
                    },
                    cur.border_radius,
                ),
            },
        )
    }
}

/// The update patch a frame sends given its previous snapshot, or
/// nothing where every field is unchanged.
pub open spec fn diff_frame_spec(
    prev: Option<NodeState>,
    cur: FrameState,
    chain: Seq<u64>,
) -> Option<FramePatchModel> {
    if prev_frame(prev) == Some(cur) {
        None
    } else {
        let p = prev_frame(prev);
        Some(
            FramePatchModel {
                id_chain: chain,
                size_x: field_patch(
                    match p {
                        Some(s) => Some(s.size_x),
                        None => None,
                    },
                    cur.size_x,
                ),
                size_y: field_patch(
                    match p {
                        Some(s) => Some(s.size_y),
                        None => None,
                    },
                    cur.size_y,
                ),
                transform: field_patch(
                    match p {
                        Some(s) => Some(s.transform),
                        None => None,
                    },
                    cur.transform,
                ),
            },
        )
    }
}

/// The update message any native node sends given its previous snapshot,
/// or nothing where it is unchanged.
pub open spec fn diff_state_spec(
    prev: Option<NodeState>,
    cur: NodeState,
    chain: Seq<u64>,
) -> Option<MessageModel> {
    match cur {
        NodeState::Slider(s) => match diff_slider_spec(prev, s, chain) {
            Some(p) => Some(MessageModel::SliderUpdate(p)),
            None => None,
        },
        NodeState::Dropdown(s) => match diff_dropdown_spec(prev, s, chain) {
            Some(p) => Some(MessageModel::DropdownUpdate(p)),
            None => None,
        },
        NodeState::Frame(s) => match diff_frame_spec(prev, s, chain) {
            Some(p) => Some(MessageModel::FrameUpdate(p)),
            None => None,
        },
    }
}

fn diff_i64(prev: Option<i64>, cur: i64) -> (r: Option<i64>)
    ensures
        r == field_patch(prev, cur),
{
    match prev {
        Some(p) => if p == cur {
            None
        } else {
            Some(cur)
        },
        None => Some(cur),
    }
}

fn diff_u32(prev: Option<u32>, cur: u32) -> (r: Option<u32>)
    ensures
        r == field_patch(prev, cur),
{
    match prev {
        Some(p) => if p == cur {
            None
        } else {
            Some(cur)
        },
        None => Some(cur),
    }
}

fn diff_color(prev: Option<Color>, cur: Color) -> (r: Option<Color>)
    ensures
        r == field_patch(prev, cur),
{
    match prev {
        Some(p) => if p == cur {
            None
        } else {
            Some(cur)
        },
        None => Some(cur),
    }
}

fn diff_affine(prev: Option<Affine>, cur: Affine) -> (r: Option<Affine>)
    ensures
        r == field_patch(prev, cur),
{
    match prev {
        Some(p) => if p == cur {
            None
        } else {
            Some(cur)
        },
        None => Some(cur),
    }
}

/// Diff a node's observable state against its last-sent snapshot and
/// build the update message carrying only changed fields, or nothing
/// where the state is unchanged.
pub fn diff_state(prev: Option<&NodeState>, cur: &NodeState, chain: &Vec<u64>) -> (r: Option<
    NativeMessage,
>)
    ensures
        ({
            let prev_val = match prev {
                Some(p) => Some(*p),
                None => None,
            };
            match r {
                Some(m) => diff_state_spec(prev_val, *cur, chain@) == Some(m@),
                None => diff_state_spec(prev_val, *cur, chain@) is None,
            }
        }),
{
    let prev_copied: Option<NodeState> = match prev {
        Some(p) => Some(*p),
        None => None,
    };
    match cur {
        NodeState::Slider(s) => {
            let p: Option<SliderState> = match prev_copied {
                Some(NodeState::Slider(ps)) => Some(ps),
                _ => None,
            };
            let same = match p {
                Some(ps) => ps == *s,
                None => false,
            };
            if same {
                None
            } else {
                Some(
                    NativeMessage::SliderUpdate(
                        SliderPatch {
                            id_chain: chain.clone(),
                            size_x: diff_i64(
                                match p {
                                    Some(ps) => Some(ps.size_x),
                                    None => None,
                                },
                                s.size_x,
                            ),
                            size_y: diff_i64(
                                match p {
                                    Some(ps) => Some(ps.size_y),
                                    None => None,
                                },
                                s.size_y,
                            ),
                            transform: diff_affine(
                                match p {
                                    Some(ps) => Some(ps.transform),
                                    None => None,
                                },
                                s.transform,
                            ),
                            value: diff_i64(
                                match p {
                                    Some(ps) => Some(ps.value),
                                    None => None,
                                },
                                s.value,
                            ),
                            step: diff_i64(
                                match p {
                                    Some(ps) => Some(ps.step),
                                    None => None,
                                },
                                s.step,
                            ),
                            min: diff_i64(
                                match p {
                                    Some(ps) => Some(ps.min),
                                    None => None,
                                },
                                s.min,
                            ),
                            max: diff_i64(
                                match p {
                                    Some(ps) => Some(ps.max),
                                    None => None,
                                },
                                s.max,
                            ),
                            accent: diff_color(
                                match p {
                                    Some(ps) => Some(ps.accent),
                                    None => None,
                                },
                                s.accent,
                            ),
                            background: diff_color(
                                match p {
                                    Some(ps) => Some(ps.background),
                                    None => None,
                                },
                                s.background,
                            ),
                            border_radius: diff_i64(
                                match p {
                                    Some(ps) => Some(ps.border_radius),
                                    None => None,
                                },
                                s.border_radius,
                            ),
                        },
                    ),
                )
            }
        },
        NodeState::Dropdown(s) => {
            let p: Option<DropdownState> = match prev_copied {
                Some(NodeState::Dropdown(ps)) => Some(ps),
                _ => None,
            };
            let same = match p {
                Some(ps) => ps == *s,
                None => false,
            };
            if same {
                None
            } else {
                Some(
                    NativeMessage::DropdownUpdate(
                        DropdownPatch {
                            id_chain: chain.clone(),
                            size_x: diff_i64(
                                match p {
                                    Some(ps) => Some(ps.size_x),
                                    None => None,
                                },
                                s.size_x,
                            ),
                            size_y: diff_i64(
                                match p {
                                    Some(ps) => Some(ps.size_y),
                                    None => None,
                                },
                                s.size_y,
                            ),
                            transform: diff_affine(
                                match p {
                                    Some(ps) => Some(ps.transform),
                                    None => None,
                                },
                                s.transform,
                            ),
                            selected_id: diff_u32(
                                match p {
                                    Some(ps) => Some(ps.selected_id),
                                    None => None,
                                },
                                s.selected_id,
                            ),
                            background: diff_color(
                                match p {
                                    Some(ps) => Some(ps.background),
                                    None => None,
                                },
                                s.background,
                            ),
                            stroke_color: diff_color(
                                match p {
                                    Some(ps) => Some(ps.stroke_color),
                                    None => None,
                                },
                                s.stroke_color,
                            ),
                            stroke_width: diff_i64(
                                match p {
                                    Some(ps) => Some(ps.stroke_width),
                                    None => None,
                                },
                                s.stroke_width,
                            ),
                            border_radius: diff_i64(
                                match p {
                                    Some(ps) => Some(ps.border_radius),
                                    None => None,
                                },
                                s.border_radius,
                            ),
                        },
                    ),
                )
            }
        },
        NodeState::Frame(s) => {
            let p: Option<FrameState> = match prev_copied {
                Some(NodeState::Frame(ps)) => Some(ps),
                _ => None,
            };
            let same = match p {
                Some(ps) => ps == *s,
                None => false,
            };
            if same {
                None
            } else {
                Some(
                    NativeMessage::FrameUpdate(
                        FramePatch {
                            id_chain: chain.clone(),
                            size_x: diff_i64(
                                match p {
                                    Some(ps) => Some(ps.size_x),
                                    None => None,
                                },
                                s.size_x,
                            ),
                            size_y: diff_i64(
                                match p {
                                    Some(ps) => Some(ps.size_y),
                                    None => None,
                                },
                                s.size_y,
                            ),
                            transform: diff_affine(
                                match p {
                                    Some(ps) => Some(ps.transform),
                                    None => None,
                                },
                                s.transform,
                            ),
                        },
                    ),
                )
            }
        },
    }
}

/// Unchanged state sends nothing: diffing any node state against a
/// snapshot equal to it yields no message.
pub proof fn lemma_no_change_no_message(state: NodeState, chain: Seq<u64>)
    ensures
        diff_state_spec(Some(state), state, chain) is None,
{
}

/// A single changed field travels alone: a slider differing from its
/// snapshot only in `value` patches `value` and leaves every other field
/// out.
pub proof fn lemma_single_field_patch(prev: SliderState, cur: SliderState, chain: Seq<u64>)
    requires
        cur == (SliderState { value: cur.value, ..prev }),
        cur.value != prev.value,
    ensures
        diff_slider_spec(Some(NodeState::Slider(prev)), cur, chain) == Some(
            SliderPatchModel {
                id_chain: chain,
                size_x: None,
                size_y: None,
                transform: None,
                value: Some(cur.value),
                step: None,
                min: None,
                max: None,
                accent: None,
                background: None,
                border_radius: None,
            },
        ),
{
}

} // verus!
