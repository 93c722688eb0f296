//! The closed set of property values that expressions produce and
//! components store, together with the coercion rules that turn an erased
//! value back into a property's static type.

use vstd::prelude::*;
use crate::math::in_i64;

verus! {

/// An RGBA color with 8-bit channels.
#[derive(Clone, Copy, Debug, PartialEq, Eq, Structural)]
pub struct Color {
    pub red: u8,
    pub green: u8,
    pub blue: u8,
    pub alpha: u8,
}

impl Color {
    /// A fully opaque color from its three channels.
    pub fn rgb(red: u8, green: u8, blue: u8) -> (r: Color)
        ensures
            r == (Color { red, green, blue, alpha: 255u8 }),
    {
        Color { red, green, blue, alpha: 255 }
    }
}

/// A percentage, in whole percent units.
#[derive(Clone, Copy, Debug, PartialEq, Eq, Structural)]
pub struct Percent(pub i64);

/// Which bound of a container a size resolves against.
#[derive(Clone, Copy, Debug, PartialEq, Eq, Structural)]
pub enum Axis {
    X,
    Y,
}

/// A one-dimensional size or position: absolute pixels, a percentage of the
/// parent-propagated bound, or the sum of both.
#[derive(Clone, Copy, Debug, PartialEq, Eq, Structural)]
pub enum Size {
    Pixels(i64),
    Percent(i64),
    Combined(i64, i64),
}

/// What `Size::evaluate` returns against the bound `b`: the pixel part plus
/// the percentage of `b`, with Euclidean division by 100, or `None` where
/// the product `percent * b` or the final sum leaves the `i64` range.
pub open spec fn size_eval_spec(s: Size, b: i64) -> Option<i64> {
    match s {
        Size::Pixels(p) => Some(p),
        Size::Percent(per) => if in_i64(per * b) {
            Some(((per * b) / 100) as i64)
        } else {
            None
        },
        Size::Combined(p, per) => if in_i64(per * b) && in_i64(p + (per * b) / 100) {
            Some((p + (per * b) / 100) as i64)
        } else {
            None
        },
    }
}

proof fn lemma_div100_in_range(m: i64)
    ensures
        in_i64((m as int) / 100),
{
    vstd::arithmetic::div_mod::lemma_fundamental_div_mod(m as int, 100);
    vstd::arithmetic::div_mod::lemma_mod_bound(m as int, 100);
    let q = (m as int) / 100;
    assert(i64::MIN <= q <= i64::MAX) by (nonlinear_arith)
        requires
            m == 100 * q + (m as int) % 100,
            0 <= (m as int) % 100 < 100,
            i64::MIN <= m <= i64::MAX,
    ;
}

impl Size {
    /// Resolve this size against the bound `bounds.0` or `bounds.1` picked
    /// by `axis`.
    pub fn evaluate(&self, bounds: (i64, i64), axis: Axis) -> (r: Option<i64>)
        ensures
            r == size_eval_spec(*self, if axis is X { bounds.0 } else { bounds.1 }),
    {
        let b: i64 = match axis {
            Axis::X => bounds.0,
            Axis::Y => bounds.1,
        };
        match *self {
            Size::Pixels(p) => Some(p),
            Size::Percent(per) => match per.checked_mul(b) {
                Some(m) => {
                    proof {
                        lemma_div100_in_range(m);
                    }
                    m.checked_div_euclid(100)
                },
                None => None,
            },
            Size::Combined(p, per) => match per.checked_mul(b) {
                Some(m) => {
                    proof {
                        lemma_div100_in_range(m);
                    }
                    match m.checked_div_euclid(100) {
                        Some(q) => p.checked_add(q),
                        None => None,
                    }
                },
                None => None,
            },
        }
    }
}

/// The closed set of erased values that the expression table can produce
/// and the scene graph can store.
#[derive(Clone, Debug)]
pub enum Value {
    Bool(bool),
    Int(i64),
    Str(String),
    Size(Size),
    Percent(Percent),
    Color(Color),
}

/// The mathematical model of a `Value`: strings are their character
/// sequences, every other variant is itself.
pub enum ValueModel {
    Bool(bool),
    Int(i64),
    Str(Seq<char>),
    Size(Size),
    Percent(Percent),
    Color(Color),
}

impl View for Value {
    type V = ValueModel;

    open spec fn view(&self) -> ValueModel {
        match *self {
            Value::Bool(x) => ValueModel::Bool(x),
            Value::Int(x) => ValueModel::Int(x),
            Value::Str(s) => ValueModel::Str(s@),
            Value::Size(s) => ValueModel::Size(s),
            Value::Percent(p) => ValueModel::Percent(p),
            Value::Color(c) => ValueModel::Color(c),
        }
    }
}

impl Value {
    /// An equal copy of this value.
    pub fn duplicate(&self) -> (r: Value)
        ensures
            r@ == self@,
    {
        match self {
            Value::Bool(x) => Value::Bool(*x),
            Value::Int(x) => Value::Int(*x),
            Value::Str(s) => Value::Str(s.clone()),
            Value::Size(s) => Value::Size(*s),
            Value::Percent(p) => Value::Percent(*p),
            Value::Color(c) => Value::Color(*c),
        }
    }
}

/// How a value of a property's static type is recovered from an erased
/// `Value`; coercion failure is a compiled-code mismatch, which callers
/// treat as fatal.
pub trait CoercionRules: Sized {
    /// The model of a value of this type.
    spec fn model(x: &Self) -> ValueModel;

    /// The model of the coerced result for each source model, or `None`
    /// where coercion fails.
    spec fn coerce_spec(v: ValueModel) -> Option<ValueModel>;

    /// Coerce the erased value, failing exactly where `coerce_spec` has no
    /// result.
    fn try_coerce(v: Value) -> (r: Result<Self, String>)
        ensures
            match r {
                Ok(x) => Self::coerce_spec(v@) == Some(Self::model(&x)),
                Err(_) => Self::coerce_spec(v@) is None,
            },
    ;
}

impl CoercionRules for bool {
    open spec fn model(x: &bool) -> ValueModel {
        ValueModel::Bool(*x)
    }

    open spec fn coerce_spec(v: ValueModel) -> Option<ValueModel> {
        match v {
            ValueModel::Bool(_) => Some(v),
            _ => None,
        }
    }

    fn try_coerce(v: Value) -> (r: Result<bool, String>) {
        match v {
            Value::Bool(x) => Ok(x),
            _ => Err(String::from_str("value cannot be coerced into a bool")),
        }
    }
}

impl CoercionRules for i64 {
    open spec fn model(x: &i64) -> ValueModel {
        ValueModel::Int(*x)
    }

    open spec fn coerce_spec(v: ValueModel) -> Option<ValueModel> {
        match v {
            ValueModel::Int(_) => Some(v),
            _ => None,
        }
    }

    fn try_coerce(v: Value) -> (r: Result<i64, String>) {
        match v {
            Value::Int(x) => Ok(x),
            _ => Err(String::from_str("value cannot be coerced into an integer")),
        }
    }
}

impl CoercionRules for u32 {
    open spec fn model(x: &u32) -> ValueModel {
        ValueModel::Int(*x as i64)
    }

    open spec fn coerce_spec(v: ValueModel) -> Option<ValueModel> {
        match v {
            ValueModel::Int(x) => if 0 <= x <= u32::MAX {
                Some(ValueModel::Int(x))
            } else {
                None
            },
            _ => None,
        }
    }

    fn try_coerce(v: Value) -> (r: Result<u32, String>) {
        match v {
            Value::Int(x) => if 0 <= x && x <= u32::MAX as i64 {
                Ok(x as u32)
            } else {
                Err(String::from_str("integer is out of range for a u32"))
            },
            _ => Err(String::from_str("value cannot be coerced into a u32")),
        }
    }
}

impl CoercionRules for String {
    open spec fn model(x: &String) -> ValueModel {
        ValueModel::Str(x@)
    }

    open spec fn coerce_spec(v: ValueModel) -> Option<ValueModel> {
        match v {
            ValueModel::Str(_) => Some(v),
            _ => None,
        }
    }

    fn try_coerce(v: Value) -> (r: Result<String, String>) {
        match v {
            Value::Str(s) => Ok(s),
            _ => Err(String::from_str("value cannot be coerced into a string")),
        }
    }
}

impl CoercionRules for Percent {
    open spec fn model(x: &Percent) -> ValueModel {
        ValueModel::Percent(*x)
    }

    open spec fn coerce_spec(v: ValueModel) -> Option<ValueModel> {
        match v {
            ValueModel::Percent(_) => Some(v),
            ValueModel::Int(x) => Some(ValueModel::Percent(Percent(x))),
            _ => None,
        }
    }

    fn try_coerce(v: Value) -> (r: Result<Percent, String>) {
        match v {
            Value::Percent(p) => Ok(p),
            Value::Int(x) => Ok(Percent(x)),
            _ => Err(String::from_str("value cannot be coerced into a percent")),
        }
    }
}

impl CoercionRules for Size {
    open spec fn model(x: &Size) -> ValueModel {
        ValueModel::Size(*x)
    }

    open spec fn coerce_spec(v: ValueModel) -> Option<ValueModel> {
        match v {
            ValueModel::Size(_) => Some(v),
            ValueModel::Percent(p) => Some(ValueModel::Size(Size::Percent(p.0))),
            ValueModel::Int(x) => Some(ValueModel::Size(Size::Pixels(x))),
            _ => None,
        }
    }

    fn try_coerce(v: Value) -> (r: Result<Size, String>) {
        match v {
            Value::Size(s) => Ok(s),
            Value::Percent(p) => Ok(Size::Percent(p.0)),
            Value::Int(x) => Ok(Size::Pixels(x)),
            _ => Err(String::from_str("value cannot be coerced into a size")),
        }
    }
}

impl CoercionRules for Color {
    open spec fn model(x: &Color) -> ValueModel {
        ValueModel::Color(*x)
    }

    open spec fn coerce_spec(v: ValueModel) -> Option<ValueModel> {
        match v {
            ValueModel::Color(_) => Some(v),
            _ => None,
        }
    }

    fn try_coerce(v: Value) -> (r: Result<Color, String>) {
        match v {
            Value::Color(c) => Ok(c),
            _ => Err(String::from_str("value cannot be coerced into a color")),
        }
    }
}

/// Dividing any representable value by 100 stays representable.
pub proof fn lemma_div100_in_range_pub(m: int)
    requires
        in_i64(m),
    ensures
        in_i64(m / 100),
{
    vstd::arithmetic::div_mod::lemma_fundamental_div_mod(m, 100);
    vstd::arithmetic::div_mod::lemma_mod_bound(m, 100);
    let q = m / 100;
    assert(i64::MIN <= q <= i64::MAX) by (nonlinear_arith)
        requires
            m == 100 * q + m % 100,
            0 <= m % 100 < 100,
            i64::MIN <= m <= i64::MAX,
    ;
}

} // verus!
