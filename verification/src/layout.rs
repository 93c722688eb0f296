//! Layout computation: the author-facing `Transform2D` (translate, anchor,
//! scale, skew, quarter-turn rotation, and an arbitrary chain of previous
//! transforms) decomposed into an exact integer affine matrix, and the
//! per-node transform-and-bounds composition used by traversal.
//!
//! Percentage sizes and positions resolve against the parent-propagated
//! bounds, never against the node's own size; the anchor alone resolves
//! against the node's own size.

use vstd::prelude::*;
use crate::math::{
    compose_spec,
    in_i64,
    lin_ok,
    translation,
    Affine,
    TransformAndBounds,
};
use crate::property::{
    pull_spec,
    Expr,
    ExpressionTable,
    Property,
    prop_value,
    RuntimeError,
    Scope,
    ScopeView,
};
use crate::template::CommonProperties;
use crate::value::{size_eval_spec, Axis, Size, ValueModel};

verus! {

/// An author transform: each part is optional, and `previous` chains an
/// arbitrary earlier transform that applies first.
#[derive(Debug)]
pub struct Transform2D {
    /// Translation per axis, resolved against the container bounds.
    pub translate: Option<(Size, Size)>,
    /// Anchor per axis, resolved against the node's own size and negated.
    pub anchor: Option<(Size, Size)>,
    /// Integer scale factors per axis; absent means one.
    pub scale: Option<(i64, i64)>,
    /// Integer skew factors per axis; absent means zero.
    pub skew: Option<(i64, i64)>,
    /// Rotation in whole quarter turns; absent means zero.
    pub rotate_quarter_turns: Option<i64>,
    /// A transform that applies before this one.
    pub previous: Option<Box<Transform2D>>,
}

impl Transform2D {
    /// The transform with every part absent: the identity.
    pub fn default_parts() -> (r: Transform2D)
        ensures
            r.translate is None,
            r.anchor is None,
            r.scale is None,
            r.skew is None,
            r.rotate_quarter_turns is None,
            r.previous is None,
    {
        Transform2D {
            translate: None,
            anchor: None,
            scale: None,
            skew: None,
            rotate_quarter_turns: None,
            previous: None,
        }
    }
}

/// Cosine of `q` quarter turns: 1, 0, -1, 0 as `q` cycles.
pub open spec fn cos_quarter(q: i64) -> i64 {
    let m = (q as int) % 4;
    if m == 0 {
        1i64
    } else if m == 2 {
        -1i64
    } else {
        0i64
    }
}

/// Sine of `q` quarter turns: 0, 1, 0, -1 as `q` cycles.
pub open spec fn sin_quarter(q: i64) -> i64 {
    let m = (q as int) % 4;
    if m == 1 {
        1i64
    } else if m == 3 {
        -1i64
    } else {
        0i64
    }
}

/// `x` evaluated against a bound, treating an absent size as zero.
pub open spec fn part_eval(s: Option<Size>, bound: i64) -> Option<i64> {
    match s {
        Some(sz) => size_eval_spec(sz, bound),
        None => Some(0),
    }
}

/// The model of the scale-skew-rotate block of the matrix, with the
/// conservative overflow rule: `None` where any intermediate leaves `i64`.
pub open spec fn vanilla_linear_spec(sx: i64, sy: i64, kx: i64, ky: i64, q: i64) -> Option<
    (i64, i64, i64, i64),
> {
    let cosv = cos_quarter(q);
    let sinv = sin_quarter(q);
    if in_i64(sy * kx) && in_i64(sx * ky) {
        let s1 = (sy * kx) as i64;
        let s2 = (sx * ky) as i64;
        if lin_ok(sx, cosv, s1, (-sinv) as i64) && lin_ok(sx, sinv, s1, cosv) && lin_ok(
            sy,
            (-sinv) as i64,
            s2,
            cosv,
        ) && lin_ok(sy, cosv, s2, sinv) {
            Some(
                (
                    (sx * cosv + s1 * (-sinv)) as i64,
                    (sx * sinv + s1 * cosv) as i64,
                    (sy * (-sinv) + s2 * cosv) as i64,
                    (sy * cosv + s2 * sinv) as i64,
                ),
            )
        } else {
            None
        }
    } else {
        None
    }
}

/// The full matrix of a `Transform2D` against the node size and container
/// bounds: the scale-skew-rotate-translate matrix, composed after the
/// negated anchor translation, composed after the `previous` chain.
/// Any overflow is a fatal geometry error.
pub open spec fn transform2d_matrix_spec(
    t: Transform2D,
    node_size: (i64, i64),
    container: (i64, i64),
) -> Result<Affine, RuntimeError>
    decreases t,
{
    let anchor_x = part_eval(
        match t.anchor {
            Some(a) => Some(a.0),
            None => None,
        },
        node_size.0,
    );
    let anchor_y = part_eval(
        match t.anchor {
            Some(a) => Some(a.1),
            None => None,
        },
        node_size.1,
    );
    let translate_x = part_eval(
        match t.translate {
            Some(tr) => Some(tr.0),
            None => None,
        },
        container.0,
    );
    let translate_y = part_eval(
        match t.translate {
            Some(tr) => Some(tr.1),
            None => None,
        },
        container.1,
    );
    let sx: i64 = match t.scale {
        Some(s) => s.0,
        None => 1,
    };
    let sy: i64 = match t.scale {
        Some(s) => s.1,
        None => 1,
    };
    let kx: i64 = match t.skew {
        Some(k) => k.0,
        None => 0,
    };
    let ky: i64 = match t.skew {
        Some(k) => k.1,
        None => 0,
    };
    let q: i64 = match t.rotate_quarter_turns {
        Some(r) => r,
        None => 0,
    };
    match (anchor_x, anchor_y, translate_x, translate_y) {
        (Some(ax), Some(ay), Some(tx), Some(ty)) => if in_i64(-(ax as int)) && in_i64(
            -(ay as int),
        ) {
            match vanilla_linear_spec(sx, sy, kx, ky, q) {
                Some((a, b, c, d)) => {
                    let vanilla = Affine { a, b, c, d, e: tx, f: ty };
                    let anchored = compose_spec(
                        vanilla,
                        translation((-(ax as int)) as i64, (-(ay as int)) as i64),
                    );
                    match anchored {
                        Some(m1) => match t.previous {
                            Some(prev) => match transform2d_matrix_spec(
                                *prev,
                                node_size,
                                container,
                            ) {
                                Ok(m2) => match compose_spec(m1, m2) {
                                    Some(m) => Ok(m),
                                    None => Err(RuntimeError::GeometryOverflow),
                                },
                                Err(e) => Err(e),
                            },
                            None => Ok(m1),
                        },
                        None => Err(RuntimeError::GeometryOverflow),
                    }
                },
                None => Err(RuntimeError::GeometryOverflow),
            }
        } else {
            Err(RuntimeError::GeometryOverflow)
        },
        _ => Err(RuntimeError::GeometryOverflow),
    }
}

fn eval_part(s: &Option<(Size, Size)>, bounds: (i64, i64), axis: Axis) -> (r: Option<i64>)
    ensures
        r == part_eval(
            match *s {
                Some(p) => Some(if axis is X { p.0 } else { p.1 }),
                None => None,
            },
            if axis is X { bounds.0 } else { bounds.1 },
        ),
{
    match s {
        Some(p) => {
            let sz = match axis {
                Axis::X => p.0,
                Axis::Y => p.1,
            };
            sz.evaluate(bounds, axis)
        },
        None => Some(0),
    }
}

fn vanilla_linear(sx: i64, sy: i64, kx: i64, ky: i64, q: i64) -> (r: Option<(i64, i64, i64, i64)>)
    ensures
        r == vanilla_linear_spec(sx, sy, kx, ky, q),
{
    let m: i64 = match q.checked_rem_euclid(4) {
        Some(v) => v,
        None => 0,
    };
    let cosv: i64 = if m == 0 {
        1
    } else if m == 2 {
        -1
    } else {
        0
    };
    let sinv: i64 = if m == 1 {
        1
    } else if m == 3 {
        -1
    } else {
        0
    };
    let s1 = match sy.checked_mul(kx) {
        Some(v) => v,
        None => {
            return None;
        },
    };
    let s2 = match sx.checked_mul(ky) {
        Some(v) => v,
        None => {
            return None;
        },
    };
    let a = match crate::math::lin_comb(sx, cosv, s1, -sinv) {
        Some(v) => v,
        None => {
            return None;
        },
    };
    let b = match crate::math::lin_comb(sx, sinv, s1, cosv) {
        Some(v) => v,
        None => {
            return None;
        },
    };
    let c = match crate::math::lin_comb(sy, -sinv, s2, cosv) {
        Some(v) => v,
        None => {
            return None;
        },
    };
    let d = match crate::math::lin_comb(sy, cosv, s2, sinv) {
        Some(v) => v,
        None => {
            return None;
        },
    };
    Some((a, b, c, d))
}

impl Transform2D {
    /// Compute this transform's matrix exactly as `transform2d_matrix_spec`
    /// says, against the node's own size and the container bounds.
    pub fn compute_transform2d_matrix(
        &self,
        node_size: (i64, i64),
        container_bounds: (i64, i64),
    ) -> (r: Result<Affine, RuntimeError>)
        ensures
            r == transform2d_matrix_spec(*self, node_size, container_bounds),
        decreases *self,
    {
        let ax = match eval_part(&self.anchor, node_size, Axis::X) {
            Some(v) => v,
            None => {
                return Err(RuntimeError::GeometryOverflow);
            },
        };
        let ay = match eval_part(&self.anchor, node_size, Axis::Y) {
            Some(v) => v,
            None => {
                return Err(RuntimeError::GeometryOverflow);
            },
        };
        let tx = match eval_part(&self.translate, container_bounds, Axis::X) {
            Some(v) => v,
            None => {
                return Err(RuntimeError::GeometryOverflow);
            },
        };
        let ty = match eval_part(&self.translate, container_bounds, Axis::Y) {
            Some(v) => v,
            None => {
                return Err(RuntimeError::GeometryOverflow);
            },
        };
        let neg_ax = match 0i64.checked_sub(ax) {
            Some(v) => v,
            None => {
                return Err(RuntimeError::GeometryOverflow);
            },
        };
        let neg_ay = match 0i64.checked_sub(ay) {
            Some(v) => v,
            None => {
                return Err(RuntimeError::GeometryOverflow);
            },
        };
        let (sx, sy): (i64, i64) = match self.scale {
            Some(s) => s,
            None => (1, 1),
        };
        let (kx, ky): (i64, i64) = match self.skew {
            Some(k) => k,
            None => (0, 0),
        };
        let q: i64 = match self.rotate_quarter_turns {
            Some(r) => r,
            None => 0,
        };
        let (a, b, c, d) = match vanilla_linear(sx, sy, kx, ky, q) {
            Some(v) => v,
            None => {
                return Err(RuntimeError::GeometryOverflow);
            },
        };
        let vanilla = Affine { a, b, c, d, e: tx, f: ty };
        let anchor_transform = Affine::translate(neg_ax, neg_ay);
        let m1 = match vanilla.compose(&anchor_transform) {
            Some(m) => m,
            None => {
                return Err(RuntimeError::GeometryOverflow);
            },
        };
        match &self.previous {
            Some(prev) => match prev.compute_transform2d_matrix(node_size, container_bounds) {
                Ok(m2) => match m1.compose(&m2) {
                    Some(m) => Ok(m),
                    None => Err(RuntimeError::GeometryOverflow),
                },
                Err(e) => Err(e),
            },
            None => Ok(m1),
        }
    }
}

/// What pulling an optional `Size` property yields: the default where the
/// property is absent, a fatal coercion failure where the pulled value is
/// not a size.
pub open spec fn pull_opt_size_spec(
    table: Seq<Expr>,
    scope: ScopeView,
    p: Option<Property<Size>>,
    default: Size,
) -> Result<Size, RuntimeError> {
    match p {
        None => Ok(default),
        Some(prop) => match pull_spec(
            table,
            scope,
            prop.vtable_id_spec(),
            ValueModel::Size(prop_value(prop)),
        ) {
            Ok(ValueModel::Size(sz)) => Ok(sz),
            Ok(_) => Err(RuntimeError::CoercionFailure),
            Err(e) => Err(e),
        },
    }
}

/// What pulling an optional integer property yields: the default where
/// the property is absent.
pub open spec fn pull_opt_i64_spec(
    table: Seq<Expr>,
    scope: ScopeView,
    p: Option<Property<i64>>,
    default: i64,
) -> Result<i64, RuntimeError> {
    match p {
        None => Ok(default),
        Some(prop) => match pull_spec(
            table,
            scope,
            prop.vtable_id_spec(),
            ValueModel::Int(prop_value(prop)),
        ) {
            Ok(ValueModel::Int(x)) => Ok(x),
            Ok(_) => Err(RuntimeError::CoercionFailure),
            Err(e) => Err(e),
        },
    }
}

fn pull_opt_size(
    table: &ExpressionTable,
    scope: &Scope,
    p: &Option<Property<Size>>,
    default: Size,
) -> (r: Result<Size, RuntimeError>)
    ensures
        r == pull_opt_size_spec(table.entries@, scope@, *p, default),
{
    match p {
        None => Ok(default),
        Some(prop) => crate::property::pull_size(table, scope, prop),
    }
}

fn pull_opt_i64(
    table: &ExpressionTable,
    scope: &Scope,
    p: &Option<Property<i64>>,
    default: i64,
) -> (r: Result<i64, RuntimeError>)
    ensures
        r == pull_opt_i64_spec(table.entries@, scope@, *p, default),
{
    match p {
        None => Ok(default),
        Some(prop) => crate::property::pull_i64(table, scope, prop),
    }
}

/// The node's computed size against the container bounds: width and
/// height default to the full parent-propagated bound, and percentages
/// resolve against that bound, never against the node's own size.
pub open spec fn size_spec(
    table: Seq<Expr>,
    scope: ScopeView,
    common: CommonProperties,
    container_bounds: (i64, i64),
) -> Result<(i64, i64), RuntimeError> {
    match (
        pull_opt_size_spec(table, scope, common.width, Size::Percent(100)),
        pull_opt_size_spec(table, scope, common.height, Size::Percent(100)),
    ) {
        (Ok(w), Ok(h)) => match (
            size_eval_spec(w, container_bounds.0),
            size_eval_spec(h, container_bounds.1),
        ) {
            (Some(wv), Some(hv)) => Ok((wv, hv)),
            _ => Err(RuntimeError::GeometryOverflow),
        },
        (Err(e), _) => Err(e),
        (_, Err(e)) => Err(e),
    }
}

/// The sugared parts of the node's transform, pulled under the scope and
/// assembled into one author transform with no previous chain.
pub open spec fn desugared_transform_spec(
    table: Seq<Expr>,
    scope: ScopeView,
    common: CommonProperties,
) -> Result<Transform2D, RuntimeError> {
    match (
        pull_opt_size_spec(table, scope, common.x, Size::Pixels(0)),
        pull_opt_size_spec(table, scope, common.y, Size::Pixels(0)),
        pull_opt_size_spec(table, scope, common.anchor_x, Size::Pixels(0)),
        pull_opt_size_spec(table, scope, common.anchor_y, Size::Pixels(0)),
    ) {
        (Ok(x), Ok(y), Ok(ax), Ok(ay)) => match (
            pull_opt_i64_spec(table, scope, common.scale_x, 1),
            pull_opt_i64_spec(table, scope, common.scale_y, 1),
            pull_opt_i64_spec(table, scope, common.skew_x, 0),
            pull_opt_i64_spec(table, scope, common.skew_y, 0),
            pull_opt_i64_spec(table, scope, common.rotate_quarter_turns, 0),
        ) {
            (Ok(sx), Ok(sy), Ok(kx), Ok(ky), Ok(q)) => Ok(
                Transform2D {
                    translate: Some((x, y)),
                    anchor: Some((ax, ay)),
                    scale: Some((sx, sy)),
                    skew: Some((kx, ky)),
                    rotate_quarter_turns: Some(q),
                    previous: None,
                },
            ),
            (Err(e), _, _, _, _) => Err(e),
            (_, Err(e), _, _, _) => Err(e),
            (_, _, Err(e), _, _) => Err(e),
            (_, _, _, Err(e), _) => Err(e),
            (_, _, _, _, Err(e)) => Err(e),
        },
        (Err(e), _, _, _) => Err(e),
        (_, Err(e), _, _) => Err(e),
        (_, _, Err(e), _) => Err(e),
        (_, _, _, Err(e)) => Err(e),
    }
}

/// The node's new transform-and-bounds under a container: its size from
/// the container bounds, then the accumulated transform composed from the
/// container transform, the desugared sugared parts, and the author's
/// explicit transform chain, in that order.
pub open spec fn compute_tab_spec(
    table: Seq<Expr>,
    scope: ScopeView,
    common: CommonProperties,
    container: TransformAndBounds,
) -> Result<TransformAndBounds, RuntimeError> {
    match size_spec(table, scope, common, container.bounds) {
        Ok(size) => match desugared_transform_spec(table, scope, common) {
            Ok(desugared) => match transform2d_matrix_spec(desugared, size, container.bounds) {
                Ok(m_desugared) => {
                    let author = match common.transform {
                        Some(t) => transform2d_matrix_spec(t, size, container.bounds),
                        None => Ok(crate::math::identity()),
                    };
                    match author {
                        Ok(m_author) => match compose_spec(m_desugared, m_author) {
                            Some(local) => match compose_spec(container.transform, local) {
                                Some(acc) => Ok(
                                    TransformAndBounds { transform: acc, bounds: size },
                                ),
                                None => Err(RuntimeError::GeometryOverflow),
                            },
                            None => Err(RuntimeError::GeometryOverflow),
                        },
                        Err(e) => Err(e),
                    }
                },
                Err(e) => Err(e),
            },
            Err(e) => Err(e),
        },
        Err(e) => Err(e),
    }
}

/// Compute a node's transform-and-bounds exactly as `compute_tab_spec`
/// says.
pub fn compute_tab(
    table: &ExpressionTable,
    scope: &Scope,
    common: &CommonProperties,
    container: &TransformAndBounds,
) -> (r: Result<TransformAndBounds, RuntimeError>)
    ensures
        r == compute_tab_spec(table.entries@, scope@, *common, *container),
{
    let w = match pull_opt_size(table, scope, &common.width, Size::Percent(100)) {
        Ok(v) => v,
        Err(e) => {
            return Err(e);
        },
    };
    let h = match pull_opt_size(table, scope, &common.height, Size::Percent(100)) {
        Ok(v) => v,
        Err(e) => {
            return Err(e);
        },
    };
    let wv = match w.evaluate(container.bounds, Axis::X) {
        Some(v) => v,
        None => {
            return Err(RuntimeError::GeometryOverflow);
        },
    };
    let hv = match h.evaluate(container.bounds, Axis::Y) {
        Some(v) => v,
        None => {
            return Err(RuntimeError::GeometryOverflow);
        },
    };
    let size = (wv, hv);
    let x = match pull_opt_size(table, scope, &common.x, Size::Pixels(0)) {
        Ok(v) => v,
        Err(e) => {
            return Err(e);
        },
    };
    let y = match pull_opt_size(table, scope, &common.y, Size::Pixels(0)) {
        Ok(v) => v,
        Err(e) => {
            return Err(e);
        },
    };
    let ax = match pull_opt_size(table, scope, &common.anchor_x, Size::Pixels(0)) {
        Ok(v) => v,
        Err(e) => {
            return Err(e);
        },
    };
    let ay = match pull_opt_size(table, scope, &common.anchor_y, Size::Pixels(0)) {
        Ok(v) => v,
        Err(e) => {
            return Err(e);
        },
    };
    let sx = match pull_opt_i64(table, scope, &common.scale_x, 1) {
        Ok(v) => v,
        Err(e) => {
            return Err(e);
        },
    };
    let sy = match pull_opt_i64(table, scope, &common.scale_y, 1) {
        Ok(v) => v,
        Err(e) => {
            return Err(e);
        },
    };
    let kx = match pull_opt_i64(table, scope, &common.skew_x, 0) {
        Ok(v) => v,
        Err(e) => {
            return Err(e);
        },
    };
    let ky = match pull_opt_i64(table, scope, &common.skew_y, 0) {
        Ok(v) => v,
        Err(e) => {
            return Err(e);
        },
    };
    let q = match pull_opt_i64(table, scope, &common.rotate_quarter_turns, 0) {
        Ok(v) => v,
        Err(e) => {
            return Err(e);
        },
    };
    let desugared = Transform2D {
        translate: Some((x, y)),
        anchor: Some((ax, ay)),
        scale: Some((sx, sy)),
        skew: Some((kx, ky)),
        rotate_quarter_turns: Some(q),
        previous: None,
    };
    let m_desugared = match desugared.compute_transform2d_matrix(size, container.bounds) {
        Ok(m) => m,
        Err(e) => {
            return Err(e);
        },
    };
    let m_author = match &common.transform {
        Some(t) => match t.compute_transform2d_matrix(size, container.bounds) {
            Ok(m) => m,
            Err(e) => {
                return Err(e);
            },
        },
        None => Affine::ident(),
    };
    let local = match m_desugared.compose(&m_author) {
        Some(m) => m,
        None => {
            return Err(RuntimeError::GeometryOverflow);
        },
    };
    let acc = match container.transform.compose(&local) {
        Some(m) => m,
        None => {
            return Err(RuntimeError::GeometryOverflow);
        },
    };
    Ok(TransformAndBounds { transform: acc, bounds: size })
}

/// Percentage sizes recompute against the current parent bound every
/// tick, with no stale caching: a node whose width is the given percent
/// computes `percent * w / 100` of whatever bound each tick propagates.
pub proof fn lemma_percent_size_tracks_parent(
    table: Seq<Expr>,
    scope: ScopeView,
    common: CommonProperties,
    percent: i64,
    w1: i64,
    w2: i64,
    h: i64,
)
    requires
        common.width == Some(Property::<Size>::Literal(Size::Percent(percent))),
        common.height == Some(Property::<Size>::Literal(Size::Percent(100))),
        in_i64(percent * w1),
        in_i64(percent * w2),
        in_i64(100 * h),
    ensures
        size_spec(table, scope, common, (w1, h)) matches Ok(s1) && s1.0 == percent * w1 / 100,
        size_spec(table, scope, common, (w2, h)) matches Ok(s2) && s2.0 == percent * w2 / 100,
{
    crate::value::lemma_div100_in_range_pub(100 * h);
    crate::value::lemma_div100_in_range_pub(percent as int * w1);
    crate::value::lemma_div100_in_range_pub(percent as int * w2);
}

/// The values of every sugared layout property after pulling under a
/// scope; geometry is computed from these alone.
#[derive(Clone, Copy, Debug, PartialEq, Eq, Structural)]
pub struct PulledCommon {
    pub x: Size,
    pub y: Size,
    pub width: Size,
    pub height: Size,
    pub anchor_x: Size,
    pub anchor_y: Size,
    pub scale_x: i64,
    pub scale_y: i64,
    pub skew_x: i64,
    pub skew_y: i64,
    pub rotate_quarter_turns: i64,
}

/// What pulling every sugared layout property yields: defaults where
/// absent, a fatal error where evaluation fails or a value has the wrong
/// shape.
pub open spec fn pull_common_spec(
    table: Seq<Expr>,
    scope: ScopeView,
    common: CommonProperties,
) -> Result<PulledCommon, RuntimeError> {
    match (
        pull_opt_size_spec(table, scope, common.x, Size::Pixels(0)),
        pull_opt_size_spec(table, scope, common.y, Size::Pixels(0)),
        pull_opt_size_spec(table, scope, common.width, Size::Percent(100)),
        pull_opt_size_spec(table, scope, common.height, Size::Percent(100)),
        pull_opt_size_spec(table, scope, common.anchor_x, Size::Pixels(0)),
        pull_opt_size_spec(table, scope, common.anchor_y, Size::Pixels(0)),
    ) {
        (Ok(x), Ok(y), Ok(width), Ok(height), Ok(anchor_x), Ok(anchor_y)) => match (
            pull_opt_i64_spec(table, scope, common.scale_x, 1),
            pull_opt_i64_spec(table, scope, common.scale_y, 1),
            pull_opt_i64_spec(table, scope, common.skew_x, 0),
            pull_opt_i64_spec(table, scope, common.skew_y, 0),
            pull_opt_i64_spec(table, scope, common.rotate_quarter_turns, 0),
        ) {
            (Ok(scale_x), Ok(scale_y), Ok(skew_x), Ok(skew_y), Ok(rotate_quarter_turns)) => Ok(
                PulledCommon {
                    x,
                    y,
                    width,
                    height,
                    anchor_x,
                    anchor_y,
                    scale_x,
                    scale_y,
                    skew_x,
                    skew_y,
                    rotate_quarter_turns,
                },
            ),
            (Err(e), _, _, _, _) => Err(e),
            (_, Err(e), _, _, _) => Err(e),
            (_, _, Err(e), _, _) => Err(e),
            (_, _, _, Err(e), _) => Err(e),
            (_, _, _, _, Err(e)) => Err(e),
        },
        (Err(e), _, _, _, _, _) => Err(e),
        (_, Err(e), _, _, _, _) => Err(e),
        (_, _, Err(e), _, _, _) => Err(e),
        (_, _, _, Err(e), _, _) => Err(e),
        (_, _, _, _, Err(e), _) => Err(e),
        (_, _, _, _, _, Err(e)) => Err(e),
    }
}

/// Pull every sugared layout property exactly as `pull_common_spec` says.
pub fn pull_common(
    table: &ExpressionTable,
    scope: &Scope,
    common: &CommonProperties,
) -> (r: Result<PulledCommon, RuntimeError>)
    ensures
        r == pull_common_spec(table.entries@, scope@, *common),
{
    let x = match pull_opt_size(table, scope, &common.x, Size::Pixels(0)) {
        Ok(v) => v,
        Err(e) => {
            return Err(e);
        },
    };
    let y = match pull_opt_size(table, scope, &common.y, Size::Pixels(0)) {
        Ok(v) => v,
        Err(e) => {
            return Err(e);
        },
    };
    let width = match pull_opt_size(table, scope, &common.width, Size::Percent(100)) {
        Ok(v) => v,
        Err(e) => {
            return Err(e);
        },
    };
    let height = match pull_opt_size(table, scope, &common.height, Size::Percent(100)) {
        Ok(v) => v,
        Err(e) => {
            return Err(e);
        },
    };
    let anchor_x = match pull_opt_size(table, scope, &common.anchor_x, Size::Pixels(0)) {
        Ok(v) => v,
        Err(e) => {
            return Err(e);
        },
    };
    let anchor_y = match pull_opt_size(table, scope, &common.anchor_y, Size::Pixels(0)) {
        Ok(v) => v,
        Err(e) => {
            return Err(e);
        },
    };
    let scale_x = match pull_opt_i64(table, scope, &common.scale_x, 1) {
        Ok(v) => v,
        Err(e) => {
            return Err(e);
        },
    };
    let scale_y = match pull_opt_i64(table, scope, &common.scale_y, 1) {
        Ok(v) => v,
        Err(e) => {
            return Err(e);
        },
    };
    let skew_x = match pull_opt_i64(table, scope, &common.skew_x, 0) {
        Ok(v) => v,
        Err(e) => {
            return Err(e);
        },
    };
    let skew_y = match pull_opt_i64(table, scope, &common.skew_y, 0) {
        Ok(v) => v,
        Err(e) => {
            return Err(e);
        },
    };
    let rotate_quarter_turns = match pull_opt_i64(table, scope, &common.rotate_quarter_turns, 0) {
        Ok(v) => v,
        Err(e) => {
            return Err(e);
        },
    };
    Ok(
        PulledCommon {
            x,
            y,
            width,
            height,
            anchor_x,
            anchor_y,
            scale_x,
            scale_y,
            skew_x,
            skew_y,
            rotate_quarter_turns,
        },
    )
}

/// The degenerate transform-and-bounds a node falls back to when its
/// geometry leaves the representable range: identity with empty bounds,
/// which contains no point.
pub open spec fn degenerate_tab() -> TransformAndBounds {
    TransformAndBounds { transform: crate::math::identity(), bounds: (0, 0) }
}

/// The geometry of a node from its pulled layout values and the author
/// transform chain, against a container: the size from the container
/// bounds, the accumulated transform from the container transform, the
/// desugared parts and the author chain; `None` where any intermediate
/// leaves the representable range.
pub open spec fn tab_geometry_spec(
    pulled: PulledCommon,
    author: Option<Transform2D>,
    container: TransformAndBounds,
) -> Option<TransformAndBounds> {
    match (
        size_eval_spec(pulled.width, container.bounds.0),
        size_eval_spec(pulled.height, container.bounds.1),
    ) {
        (Some(wv), Some(hv)) => {
            let size = (wv, hv);
            let desugared = Transform2D {
                translate: Some((pulled.x, pulled.y)),
                anchor: Some((pulled.anchor_x, pulled.anchor_y)),
                scale: Some((pulled.scale_x, pulled.scale_y)),
                skew: Some((pulled.skew_x, pulled.skew_y)),
                rotate_quarter_turns: Some(pulled.rotate_quarter_turns),
                previous: None,
            };
            match transform2d_matrix_spec(desugared, size, container.bounds) {
                Ok(m_desugared) => {
                    let author_m = match author {
                        Some(t) => transform2d_matrix_spec(t, size, container.bounds),
                        None => Ok(crate::math::identity()),
                    };
                    match author_m {
                        Ok(m_author) => match compose_spec(m_desugared, m_author) {
                            Some(local) => match compose_spec(container.transform, local) {
                                Some(acc) => Some(
                                    TransformAndBounds { transform: acc, bounds: size },
                                ),
                                None => None,
                            },
                            None => None,
                        },
                        Err(_) => None,
                    }
                },
                Err(_) => None,
            }
        },
        _ => None,
    }
}

/// Compute a node's geometry exactly as `tab_geometry_spec` says.
pub fn tab_geometry(
    pulled: &PulledCommon,
    author: &Option<Transform2D>,
    container: &TransformAndBounds,
) -> (r: Option<TransformAndBounds>)
    ensures
        r == tab_geometry_spec(*pulled, *author, *container),
{
    let wv = match pulled.width.evaluate(container.bounds, Axis::X) {
        Some(v) => v,
        None => {
            return None;
        },
    };
    let hv = match pulled.height.evaluate(container.bounds, Axis::Y) {
        Some(v) => v,
        None => {
            return None;
        },
    };
    let size = (wv, hv);
    let desugared = Transform2D {
        translate: Some((pulled.x, pulled.y)),
        anchor: Some((pulled.anchor_x, pulled.anchor_y)),
        scale: Some((pulled.scale_x, pulled.scale_y)),
        skew: Some((pulled.skew_x, pulled.skew_y)),
        rotate_quarter_turns: Some(pulled.rotate_quarter_turns),
        previous: None,
    };
    let m_desugared = match desugared.compute_transform2d_matrix(size, container.bounds) {
        Ok(m) => m,
        Err(_) => {
            return None;
        },
    };
    let m_author = match author {
        Some(t) => match t.compute_transform2d_matrix(size, container.bounds) {
            Ok(m) => m,
            Err(_) => {
                return None;
            },
        },
        None => Affine::ident(),
    };
    let local = match m_desugared.compose(&m_author) {
        Some(m) => m,
        None => {
            return None;
        },
    };
    let acc = match container.transform.compose(&local) {
        Some(m) => m,
        None => {
            return None;
        },
    };
    Some(TransformAndBounds { transform: acc, bounds: size })
}

} // verus!
