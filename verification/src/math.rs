//! Exact integer affine geometry: transforms, transform-and-bounds pairs,
//! and the point containment test used by ray casting.
//!
//! A transform maps a point `(x, y)` to `(a*x + c*y + e, b*x + d*y + f)`.
//! Composition is integer matrix multiplication; any product or sum that
//! would leave the `i64` range makes the operation report `None`, which the
//! engine treats as a fatal geometry error (there is no wrapping).

use vstd::prelude::*;

verus! {

/// All coordinates consumed by the point containment test must stay within
/// this bound so that the determinant arithmetic fits in `i128`.
pub const GEOM_LIMIT: i64 = 0x4000_0000;

/// A 2-D affine transform with six integer coefficients, column-major:
/// `(x, y)` maps to `(a*x + c*y + e, b*x + d*y + f)`.
#[derive(Clone, Copy, Debug, PartialEq, Eq, Structural)]
pub struct Affine {
    pub a: i64,
    pub b: i64,
    pub c: i64,
    pub d: i64,
    pub e: i64,
    pub f: i64,
}

/// A node's accumulated transform together with its computed size,
/// propagated parent-to-child during traversal.
#[derive(Clone, Copy, Debug)]
pub struct TransformAndBounds {
    pub transform: Affine,
    /// Computed width and height of the node's own box.
    pub bounds: (i64, i64),
}

pub open spec fn in_i64(x: int) -> bool {
    i64::MIN <= x <= i64::MAX
}

/// The identity transform.
pub open spec fn identity() -> Affine {
    Affine { a: 1, b: 0, c: 0, d: 1, e: 0, f: 0 }
}

/// A pure translation by `(dx, dy)`.
pub open spec fn translation(dx: i64, dy: i64) -> Affine {
    Affine { a: 1, b: 0, c: 0, d: 1, e: dx, f: dy }
}

/// Both products and their sum stay representable.
pub open spec fn lin_ok(p: i64, q: i64, r: i64, s: i64) -> bool {
    in_i64(p * q) && in_i64(r * s) && in_i64(p * q + r * s)
}

/// As `lin_ok`, and adding the translation term also stays representable.
pub open spec fn lin3_ok(p: i64, q: i64, r: i64, s: i64, t: i64) -> bool {
    lin_ok(p, q, r, s) && in_i64(p * q + r * s + t)
}

/// Whether composing `m1` after `m2` overflows nowhere, checking every
/// intermediate product and partial sum (a conservative rule).
pub open spec fn compose_ok(m1: Affine, m2: Affine) -> bool {
    &&& lin_ok(m1.a, m2.a, m1.c, m2.b)
    &&& lin_ok(m1.b, m2.a, m1.d, m2.b)
    &&& lin_ok(m1.a, m2.c, m1.c, m2.d)
    &&& lin_ok(m1.b, m2.c, m1.d, m2.d)
    &&& lin3_ok(m1.a, m2.e, m1.c, m2.f, m1.e)
    &&& lin3_ok(m1.b, m2.e, m1.d, m2.f, m1.f)
}

/// The coefficients of `m1` composed after `m2` (apply `m2` first), assuming
/// no overflow.
pub open spec fn compose_val(m1: Affine, m2: Affine) -> Affine {
    Affine {
        a: (m1.a * m2.a + m1.c * m2.b) as i64,
        b: (m1.b * m2.a + m1.d * m2.b) as i64,
        c: (m1.a * m2.c + m1.c * m2.d) as i64,
        d: (m1.b * m2.c + m1.d * m2.d) as i64,
        e: (m1.a * m2.e + m1.c * m2.f + m1.e) as i64,
        f: (m1.b * m2.e + m1.d * m2.f + m1.f) as i64,
    }
}

/// Composition with the conservative overflow rule.
pub open spec fn compose_spec(m1: Affine, m2: Affine) -> Option<Affine> {
    if compose_ok(m1, m2) {
        Some(compose_val(m1, m2))
    } else {
        None
    }
}

/// `p*q + r*s` if every intermediate stays in range.
pub(crate) fn lin_comb(p: i64, q: i64, r: i64, s: i64) -> (res: Option<i64>)
    ensures
        res == (if lin_ok(p, q, r, s) {
            Some((p * q + r * s) as i64)
        } else {
            None::<i64>
        }),
{
    match p.checked_mul(q) {
        Some(x) => match r.checked_mul(s) {
            Some(y) => x.checked_add(y),
            None => None,
        },
        None => None,
    }
}

/// `p*q + r*s + t` if every intermediate stays in range.
fn lin_comb3(p: i64, q: i64, r: i64, s: i64, t: i64) -> (res: Option<i64>)
    ensures
        res == (if lin3_ok(p, q, r, s, t) {
            Some((p * q + r * s + t) as i64)
        } else {
            None::<i64>
        }),
{
    match lin_comb(p, q, r, s) {
        Some(x) => x.checked_add(t),
        None => None,
    }
}

impl Affine {
    /// The identity transform.
    pub fn ident() -> (r: Affine)
        ensures
            r == identity(),
    {
        Affine { a: 1, b: 0, c: 0, d: 1, e: 0, f: 0 }
    }

    /// A pure translation by `(dx, dy)`.
    pub fn translate(dx: i64, dy: i64) -> (r: Affine)
        ensures
            r == translation(dx, dy),
    {
        Affine { a: 1, b: 0, c: 0, d: 1, e: dx, f: dy }
    }

    /// Compose `self` after `other`: the result applies `other` first.
    pub fn compose(&self, other: &Affine) -> (r: Option<Affine>)
        ensures
            r == compose_spec(*self, *other),
    {
        let a = match lin_comb(self.a, other.a, self.c, other.b) {
            Some(v) => v,
            None => {
                return None;
            },
        };
        let b = match lin_comb(self.b, other.a, self.d, other.b) {
            Some(v) => v,
            None => {
                return None;
            },
        };
        let c = match lin_comb(self.a, other.c, self.c, other.d) {
            Some(v) => v,
            None => {
                return None;
            },
        };
        let d = match lin_comb(self.b, other.c, self.d, other.d) {
            Some(v) => v,
            None => {
                return None;
            },
        };
        let e = match lin_comb3(self.a, other.e, self.c, other.f, self.e) {
            Some(v) => v,
            None => {
                return None;
            },
        };
        let f = match lin_comb3(self.b, other.e, self.d, other.f, self.f) {
            Some(v) => v,
            None => {
                return None;
            },
        };
        Some(Affine { a, b, c, d, e, f })
    }
}

/// Pure-translation composition: a parent translated by `(dx, dy)` with a
/// child placed at local `(x, y)` positions the child exactly as placing it
/// at `(x + dx, y + dy)` in the parent's original frame.
pub proof fn lemma_translation_composition(dx: i64, dy: i64, x: i64, y: i64)
    requires
        in_i64(dx + x),
        in_i64(dy + y),
    ensures
        compose_spec(translation(dx, dy), translation(x, y)) == Some(
            translation((dx + x) as i64, (dy + y) as i64),
        ),
{
}

pub open spec fn coord_bounded(v: int) -> bool {
    -(GEOM_LIMIT as int) <= v <= GEOM_LIMIT as int
}

pub open spec fn affine_bounded(m: Affine) -> bool {
    &&& coord_bounded(m.a as int)
    &&& coord_bounded(m.b as int)
    &&& coord_bounded(m.c as int)
    &&& coord_bounded(m.d as int)
    &&& coord_bounded(m.e as int)
    &&& coord_bounded(m.f as int)
}

pub open spec fn tab_bounded(t: TransformAndBounds) -> bool {
    &&& affine_bounded(t.transform)
    &&& coord_bounded(t.bounds.0 as int)
    &&& coord_bounded(t.bounds.1 as int)
}

/// Whether `(px, py)` lies inside the unit box of `t`: the box `[0, w] x
/// [0, h]` carried through `t.transform`. Exact rational containment is
/// decided by determinant-scaled inequalities; geometry outside
/// `GEOM_LIMIT`, or a singular transform, never contains a point.
pub open spec fn hit_spec(t: TransformAndBounds, px: int, py: int) -> bool {
    &&& tab_bounded(t)
    &&& coord_bounded(px)
    &&& coord_bounded(py)
    &&& {
        let det = t.transform.a * t.transform.d - t.transform.b * t.transform.c;
        let u = t.transform.d * (px - t.transform.e) - t.transform.c * (py - t.transform.f);
        let v = t.transform.a * (py - t.transform.f) - t.transform.b * (px - t.transform.e);
        &&& det != 0
        &&& (if det > 0 {
            0 <= u <= det * t.bounds.0 && 0 <= v <= det * t.bounds.1
        } else {
            det * t.bounds.0 <= u <= 0 && det * t.bounds.1 <= v <= 0
        })
    }
}

pub proof fn lemma_mul_bound(x: int, y: int, bx: int, by: int)
    by (nonlinear_arith)
    requires
        -bx <= x <= bx,
        -by <= y <= by,
        0 <= bx,
        0 <= by,
    ensures
        -(bx * by) <= x * y <= bx * by,
{
}

/// Decide `hit_spec` exactly, computing in `i128`.
pub fn contains_point(t: &TransformAndBounds, px: i64, py: i64) -> (r: bool)
    ensures
        r == hit_spec(*t, px as int, py as int),
{
    let m = t.transform;
    let in_bounds = -GEOM_LIMIT <= m.a && m.a <= GEOM_LIMIT && -GEOM_LIMIT <= m.b && m.b
        <= GEOM_LIMIT && -GEOM_LIMIT <= m.c && m.c <= GEOM_LIMIT && -GEOM_LIMIT <= m.d && m.d
        <= GEOM_LIMIT && -GEOM_LIMIT <= m.e && m.e <= GEOM_LIMIT && -GEOM_LIMIT <= m.f && m.f
        <= GEOM_LIMIT && -GEOM_LIMIT <= t.bounds.0 && t.bounds.0 <= GEOM_LIMIT && -GEOM_LIMIT
        <= t.bounds.1 && t.bounds.1 <= GEOM_LIMIT && -GEOM_LIMIT <= px && px <= GEOM_LIMIT
        && -GEOM_LIMIT <= py && py <= GEOM_LIMIT;
    if !in_bounds {
        return false;
    }
    proof {
        let g: int = GEOM_LIMIT as int;
        lemma_mul_bound(m.a as int, m.d as int, g, g);
        lemma_mul_bound(m.b as int, m.c as int, g, g);
        lemma_mul_bound(m.d as int, px - m.e, g, 2 * g);
        lemma_mul_bound(m.c as int, py - m.f, g, 2 * g);
        lemma_mul_bound(m.a as int, py - m.f, g, 2 * g);
        lemma_mul_bound(m.b as int, px - m.e, g, 2 * g);
    }
    let det: i128 = (m.a as i128) * (m.d as i128) - (m.b as i128) * (m.c as i128);
    let dx: i128 = (px as i128) - (m.e as i128);
    let dy: i128 = (py as i128) - (m.f as i128);
    let u: i128 = (m.d as i128) * dx - (m.c as i128) * dy;
    let v: i128 = (m.a as i128) * dy - (m.b as i128) * dx;
    proof {
        let g: int = GEOM_LIMIT as int;
        lemma_mul_bound(det as int, t.bounds.0 as int, 2 * g * g, g);
        lemma_mul_bound(det as int, t.bounds.1 as int, 2 * g * g, g);
    }
    let det_w: i128 = det * (t.bounds.0 as i128);
    let det_h: i128 = det * (t.bounds.1 as i128);
    if det == 0 {
        false
    } else if det > 0 {
        0 <= u && u <= det_w && 0 <= v && v <= det_h
    } else {
        det_w <= u && u <= 0 && det_h <= v && v <= 0
    }
}

/// The smaller of two values.
pub open spec fn min2(a: int, b: int) -> int {
    if a <= b {
        a
    } else {
        b
    }
}

/// The larger of two values.
pub open spec fn max2(a: int, b: int) -> int {
    if a >= b {
        a
    } else {
        b
    }
}

/// Whether the box of `t`, carried through its transform, can meet the
/// axis-aligned viewport `[0, vw] x [0, vh]`: the test compares the
/// bounding box of the four transformed corners, so it never rules out a
/// box that intersects; geometry outside `GEOM_LIMIT` is never ruled out
/// either.
pub open spec fn intersects_spec(t: TransformAndBounds, vw: i64, vh: i64) -> bool {
    if !(tab_bounded(t) && coord_bounded(vw as int) && coord_bounded(vh as int)) {
        true
    } else {
        let m = t.transform;
        let w = t.bounds.0 as int;
        let h = t.bounds.1 as int;
        let x00 = m.e as int;
        let y00 = m.f as int;
        let x10 = m.a * w + m.e;
        let y10 = m.b * w + m.f;
        let x01 = m.c * h + m.e;
        let y01 = m.d * h + m.f;
        let x11 = m.a * w + m.c * h + m.e;
        let y11 = m.b * w + m.d * h + m.f;
        let min_x = min2(min2(x00, x10), min2(x01, x11));
        let max_x = max2(max2(x00, x10), max2(x01, x11));
        let min_y = min2(min2(y00, y10), min2(y01, y11));
        let max_y = max2(max2(y00, y10), max2(y01, y11));
        min_x <= vw && max_x >= 0 && min_y <= vh && max_y >= 0
    }
}

impl TransformAndBounds {
    /// Whether this box can meet the viewport, exactly as
    /// `intersects_spec` says; a node whose box cannot is the one whose
    /// draw call a tick may skip, while its bookkeeping still runs.
    pub fn intersects(&self, viewport: (i64, i64)) -> (r: bool)
        ensures
            r == intersects_spec(*self, viewport.0, viewport.1),
    {
        let m = self.transform;
        let in_bounds = -GEOM_LIMIT <= m.a && m.a <= GEOM_LIMIT && -GEOM_LIMIT <= m.b && m.b
            <= GEOM_LIMIT && -GEOM_LIMIT <= m.c && m.c <= GEOM_LIMIT && -GEOM_LIMIT <= m.d && m.d
            <= GEOM_LIMIT && -GEOM_LIMIT <= m.e && m.e <= GEOM_LIMIT && -GEOM_LIMIT <= m.f && m.f
            <= GEOM_LIMIT && -GEOM_LIMIT <= self.bounds.0 && self.bounds.0 <= GEOM_LIMIT
            && -GEOM_LIMIT <= self.bounds.1 && self.bounds.1 <= GEOM_LIMIT && -GEOM_LIMIT
            <= viewport.0 && viewport.0 <= GEOM_LIMIT && -GEOM_LIMIT <= viewport.1 && viewport.1
            <= GEOM_LIMIT;
        if !in_bounds {
            return true;
        }
        proof {
            let g: int = GEOM_LIMIT as int;
            lemma_mul_bound(m.a as int, self.bounds.0 as int, g, g);
            lemma_mul_bound(m.b as int, self.bounds.0 as int, g, g);
            lemma_mul_bound(m.c as int, self.bounds.1 as int, g, g);
            lemma_mul_bound(m.d as int, self.bounds.1 as int, g, g);
        }
        let w = self.bounds.0 as i128;
        let h = self.bounds.1 as i128;
        let x00: i128 = m.e as i128;
        let y00: i128 = m.f as i128;
        let x10: i128 = (m.a as i128) * w + (m.e as i128);
        let y10: i128 = (m.b as i128) * w + (m.f as i128);
        let x01: i128 = (m.c as i128) * h + (m.e as i128);
        let y01: i128 = (m.d as i128) * h + (m.f as i128);
        let x11: i128 = (m.a as i128) * w + (m.c as i128) * h + (m.e as i128);
        let y11: i128 = (m.b as i128) * w + (m.d as i128) * h + (m.f as i128);
        let min_x = min_i128(min_i128(x00, x10), min_i128(x01, x11));
        let max_x = max_i128(max_i128(x00, x10), max_i128(x01, x11));
        let min_y = min_i128(min_i128(y00, y10), min_i128(y01, y11));
        let max_y = max_i128(max_i128(y00, y10), max_i128(y01, y11));
        min_x <= viewport.0 as i128 && max_x >= 0 && min_y <= viewport.1 as i128 && max_y >= 0
    }
}

fn min_i128(a: i128, b: i128) -> (r: i128)
    ensures
        r as int == min2(a as int, b as int),
{
    if a <= b {
        a
    } else {
        b
    }
}

fn max_i128(a: i128, b: i128) -> (r: i128)
    ensures
        r as int == max2(a as int, b as int),
{
    if a >= b {
        a
    } else {
        b
    }
}

} // verus!
