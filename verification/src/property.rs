//! Pull-based property evaluation: literal or expression-backed properties,
//! the expression table that maps opaque ids to evaluators, and the
//! transition queue that eases a property value over frames.
//!
//! Evaluation is unconditional every tick: a property's value always
//! reflects the current scope, with no dependency tracking.

use vstd::prelude::*;
use crate::value::{CoercionRules, Value, ValueModel};

verus! {

/// A fatal runtime failure: the compiled template and the runtime disagree,
/// so the tick cannot complete and the engine is in an invalid state.
#[derive(Clone, Copy, Debug, PartialEq, Eq, Structural)]
pub enum RuntimeError {
    /// A handler or expression was dispatched with no active stack frame.
    MissingStackFrame,
    /// An expression referenced a scope value that the scope does not hold.
    MissingScopeValue,
    /// An evaluated value failed to coerce to the property's static type.
    CoercionFailure,
    /// Integer affine arithmetic left the representable range.
    GeometryOverflow,
    /// Slot indirection recursed past the instance count of the tree.
    RecursionLimit,
}

/// The evaluation environment a stack frame carries: a property bag for the
/// enclosing component and, inside a repeat iteration, the iteration index
/// and datum.
#[derive(Clone, Debug)]
pub struct Scope {
    /// Component state, keyed by opaque property ids.
    pub properties: Vec<(u64, Value)>,
    /// The innermost repeat iteration index, if any.
    pub repeat_index: Option<i64>,
    /// The innermost repeat iteration datum, if any.
    pub repeat_datum: Option<Value>,
}

impl Scope {
    /// A scope with no bindings at all.
    pub fn empty() -> (r: Scope)
        ensures
            r.properties@.len() == 0,
            r.repeat_index is None,
            r.repeat_datum is None,
            r@ == empty_scope_view(),
    {
        let r = Scope { properties: Vec::new(), repeat_index: None, repeat_datum: None };
        proof {
            assert(r@.properties =~= empty_scope_view().properties);
        }
        r
    }
}

/// The model of a scope: every projection expression evaluation reads.
pub struct ScopeView {
    pub properties: Seq<(u64, ValueModel)>,
    pub repeat_index: Option<i64>,
    pub repeat_datum: Option<ValueModel>,
}

impl View for Scope {
    type V = ScopeView;

    open spec fn view(&self) -> ScopeView {
        ScopeView {
            properties: self.properties@.map_values(|p: (u64, Value)| (p.0, p.1@)),
            repeat_index: self.repeat_index,
            repeat_datum: match self.repeat_datum {
                Some(ref v) => Some(v@),
                None => None,
            },
        }
    }
}

/// The model of a scope with no bindings at all.
pub open spec fn empty_scope_view() -> ScopeView {
    ScopeView { properties: Seq::empty(), repeat_index: None, repeat_datum: None }
}

/// The first value bound to `key` in the bag.
pub open spec fn scope_lookup(props: Seq<(u64, ValueModel)>, key: u64) -> Option<ValueModel>
    decreases props.len(),
{
    if props.len() == 0 {
        None
    } else if props[0].0 == key {
        Some(props[0].1)
    } else {
        scope_lookup(props.drop_first(), key)
    }
}

/// One expression of the table: a pure function from scope to value.
#[derive(Clone, Debug)]
pub enum Expr {
    /// A constant.
    Const(Value),
    /// A property of the nearest component scope.
    Prop(u64),
    /// The innermost repeat iteration index.
    RepeatIndex,
    /// The innermost repeat iteration datum.
    RepeatDatum,
}

/// What evaluating `e` under `scope` yields, as a model. Referencing a
/// scope value that is absent is a structural error.
pub open spec fn expr_eval(e: Expr, scope: ScopeView) -> Result<ValueModel, RuntimeError> {
    match e {
        Expr::Const(v) => Ok(v@),
        Expr::Prop(k) => match scope_lookup(scope.properties, k) {
            Some(m) => Ok(m),
            None => Err(RuntimeError::MissingScopeValue),
        },
        Expr::RepeatIndex => match scope.repeat_index {
            Some(i) => Ok(ValueModel::Int(i)),
            None => Err(RuntimeError::MissingScopeValue),
        },
        Expr::RepeatDatum => match scope.repeat_datum {
            Some(v) => Ok(v),
            None => Err(RuntimeError::MissingScopeValue),
        },
    }
}

/// The model of an evaluation result.
pub open spec fn result_model(r: Result<Value, RuntimeError>) -> Result<ValueModel, RuntimeError> {
    match r {
        Ok(v) => Ok(v@),
        Err(e) => Err(e),
    }
}

fn lookup_in_scope(props: &Vec<(u64, Value)>, key: u64) -> (r: Option<Value>)
    ensures
        ({
            let pv = props@.map_values(|p: (u64, Value)| (p.0, p.1@));
            match r {
                Some(v) => scope_lookup(pv, key) == Some(v@),
                None => scope_lookup(pv, key) is None,
            }
        }),
{
    let ghost pv = props@.map_values(|p: (u64, Value)| (p.0, p.1@));
    let n = props.len();
    let mut i: usize = 0;
    proof {
        assert(pv.skip(0) =~= pv);
    }
    while i < n
        invariant
            i <= n,
            n == props@.len(),
            pv == props@.map_values(|p: (u64, Value)| (p.0, p.1@)),
            scope_lookup(pv, key) == scope_lookup(pv.skip(i as int), key),
        decreases n - i,
    {
        proof {
            assert(pv.skip(i as int)[0] == pv[i as int]);
            assert(pv.skip(i as int).drop_first() =~= pv.skip(i as int + 1));
        }
        if props[i].0 == key {
            return Some(props[i].1.duplicate());
        }
        i = i + 1;
    }
    proof {
        assert(pv.skip(n as int).len() == 0);
    }
    None
}

/// Evaluate one expression under a scope, exactly as `expr_eval` says.
pub fn eval_expr(e: &Expr, scope: &Scope) -> (r: Result<Value, RuntimeError>)
    ensures
        result_model(r) == expr_eval(*e, scope@),
{
    match e {
        Expr::Const(v) => Ok(v.duplicate()),
        Expr::Prop(k) => match lookup_in_scope(&scope.properties, *k) {
            Some(v) => Ok(v),
            None => Err(RuntimeError::MissingScopeValue),
        },
        Expr::RepeatIndex => match scope.repeat_index {
            Some(i) => Ok(Value::Int(i)),
            None => Err(RuntimeError::MissingScopeValue),
        },
        Expr::RepeatDatum => match &scope.repeat_datum {
            Some(v) => Ok(v.duplicate()),
            None => Err(RuntimeError::MissingScopeValue),
        },
    }
}

/// The immutable map from opaque expression ids to evaluators; an id is the
/// index of its expression. Only the scope varies across calls in a tick.
#[derive(Clone, Debug)]
pub struct ExpressionTable {
    pub entries: Vec<Expr>,
}

/// What looking up and evaluating `id` yields: `Ok(None)` where the table
/// has no such id, otherwise the evaluation outcome.
pub open spec fn table_eval(table: Seq<Expr>, id: usize, scope: ScopeView) -> Result<
    Option<ValueModel>,
    RuntimeError,
> {
    if id < table.len() {
        match expr_eval(table[id as int], scope) {
            Ok(m) => Ok(Some(m)),
            Err(e) => Err(e),
        }
    } else {
        Ok(None)
    }
}

impl ExpressionTable {
    /// A table with the given expressions; the id of each is its index.
    pub fn new(entries: Vec<Expr>) -> (r: ExpressionTable)
        ensures
            r.entries@ == entries@,
    {
        ExpressionTable { entries }
    }

    /// Evaluate the expression with the given id under `scope`; an id the
    /// table does not hold yields no value, which is not an error.
    pub fn compute_vtable_value(&self, scope: &Scope, vtable_id: usize) -> (r: Result<
        Option<Value>,
        RuntimeError,
    >)
        ensures
            match r {
                Ok(Some(v)) => table_eval(self.entries@, vtable_id, scope@)
                    == Ok::<Option<ValueModel>, RuntimeError>(Some(v@)),
                Ok(None) => table_eval(self.entries@, vtable_id, scope@)
                    == Ok::<Option<ValueModel>, RuntimeError>(None),
                Err(e) => table_eval(self.entries@, vtable_id, scope@) == Err::<
                    Option<ValueModel>,
                    RuntimeError,
                >(e),
            },
    {
        if vtable_id < self.entries.len() {
            match eval_expr(&self.entries[vtable_id], scope) {
                Ok(v) => Ok(Some(v)),
                Err(e) => Err(e),
            }
        } else {
            Ok(None)
        }
    }
}

/// A settable property: either a literal, or backed by an expression of the
/// table through an opaque vtable id, caching the last computed value.
#[derive(Clone, Debug)]
pub enum Property<V> {
    Literal(V),
    Expression { vtable_id: usize, cached: V },
}

/// The property after replacing its current value, keeping the backing
/// expression.
pub open spec fn prop_set<V>(p: Property<V>, v: V) -> Property<V> {
    match p {
        Property::Literal(_) => Property::Literal(v),
        Property::Expression { vtable_id, .. } => Property::Expression { vtable_id, cached: v },
    }
}

/// The value a property currently holds.
pub open spec fn prop_value<V>(p: Property<V>) -> V {
    match p {
        Property::Literal(v) => v,
        Property::Expression { cached, .. } => cached,
    }
}

impl<V> Property<V> {
    /// The backing vtable id, if expression-backed.
    pub open spec fn vtable_id_spec(&self) -> Option<usize> {
        match *self {
            Property::Literal(_) => None,
            Property::Expression { vtable_id, .. } => Some(vtable_id),
        }
    }

    /// A new literal property.
    pub fn literal(v: V) -> (r: Property<V>)
        ensures
            r == Property::Literal(v),
    {
        Property::Literal(v)
    }

    /// A new expression-backed property with an initial cached value.
    pub fn expression(vtable_id: usize, initial: V) -> (r: Property<V>)
        ensures
            r == (Property::Expression { vtable_id, cached: initial }),
    {
        Property::Expression { vtable_id, cached: initial }
    }

    /// The current value.
    pub fn get(&self) -> (r: &V)
        ensures
            *r == prop_value(*self),
    {
        match self {
            Property::Literal(v) => v,
            Property::Expression { cached, .. } => cached,
        }
    }

    /// Replace the current value, keeping the backing expression.
    pub fn set(&mut self, v: V)
        ensures
            *final(self) == prop_set(*old(self), v),
            prop_value(*final(self)) == v,
            final(self).vtable_id_spec() == old(self).vtable_id_spec(),
    {
        match self {
            Property::Literal(slot) => {
                *slot = v;
            },
            Property::Expression { cached, .. } => {
                *cached = v;
            },
        }
    }

    /// The backing vtable id, if expression-backed.
    pub fn _get_vtable_id(&self) -> (r: Option<usize>)
        ensures
            r == self.vtable_id_spec(),
    {
        match self {
            Property::Literal(_) => None,
            Property::Expression { vtable_id, .. } => Some(*vtable_id),
        }
    }
}

/// What one vtable update does to a property.
pub enum VtableStep {
    /// The property is literal, or its id is not in the table: no change.
    Unchanged,
    /// The property's cached value is replaced by one with this model.
    Updated(ValueModel),
    /// The tick fails with this error; the property is unchanged.
    Fatal(RuntimeError),
}

/// The exact effect of `handle_vtable_update` on `p` under `table` and
/// `scope`.
pub open spec fn vtable_step<V: CoercionRules>(
    table: Seq<Expr>,
    scope: ScopeView,
    p: Property<V>,
) -> VtableStep {
    match p {
        Property::Literal(_) => VtableStep::Unchanged,
        Property::Expression { vtable_id, .. } => match table_eval(table, vtable_id, scope) {
            Ok(None) => VtableStep::Unchanged,
            Ok(Some(m)) => match V::coerce_spec(m) {
                Some(coerced) => VtableStep::Updated(coerced),
                None => VtableStep::Fatal(RuntimeError::CoercionFailure),
            },
            Err(e) => VtableStep::Fatal(e),
        },
    }
}

/// Recompute one settable property: a literal is a no-op, an
/// expression-backed property is evaluated against the table and scope,
/// coerced to its static type and assigned. Coercion failure is fatal.
pub fn handle_vtable_update<V: CoercionRules>(
    table: &ExpressionTable,
    scope: &Scope,
    property: &mut Property<V>,
) -> (r: Result<(), RuntimeError>)
    ensures
        match vtable_step::<V>(table.entries@, scope@, *old(property)) {
            VtableStep::Unchanged => r is Ok && *final(property) == *old(property),
            VtableStep::Updated(m) => r is Ok && V::model(&prop_value(*final(property))) == m
                && final(property).vtable_id_spec() == old(property).vtable_id_spec(),
            VtableStep::Fatal(e) => r == Err::<(), RuntimeError>(e) && *final(property) == *old(property),
        },
{
    match property._get_vtable_id() {
        None => Ok(()),
        Some(id) => match table.compute_vtable_value(scope, id) {
            Ok(None) => Ok(()),
            Ok(Some(v)) => match V::try_coerce(v) {
                Ok(coerced) => {
                    property.set(coerced);
                    Ok(())
                },
                Err(_) => Err(RuntimeError::CoercionFailure),
            },
            Err(e) => Err(e),
        },
    }
}

/// As `handle_vtable_update`, but a no-op where the optional property is
/// absent entirely.
pub fn handle_vtable_update_optional<V: CoercionRules>(
    table: &ExpressionTable,
    scope: &Scope,
    optional_property: &mut Option<Property<V>>,
) -> (r: Result<(), RuntimeError>)
    ensures
        match *old(optional_property) {
            None => r is Ok && *final(optional_property) == *old(optional_property),
            Some(p) => match vtable_step::<V>(table.entries@, scope@, p) {
                VtableStep::Unchanged => r is Ok && *final(optional_property) == *old(
                    optional_property,
                ),
                VtableStep::Updated(m) => r is Ok && match *final(optional_property) {
                    Some(q) => V::model(&prop_value(q)) == m && q.vtable_id_spec()
                        == p.vtable_id_spec(),
                    None => false,
                },
                VtableStep::Fatal(e) => r == Err::<(), RuntimeError>(e) && *final(optional_property) == *old(optional_property),
            },
        },
{
    match optional_property {
        Some(property) => handle_vtable_update(table, scope, property),
        None => Ok(()),
    }
}

/// One queued transition of an integer property value.
#[derive(Clone, Copy, Debug, PartialEq, Eq, Structural)]
pub struct Transition {
    pub starting_value: i64,
    pub ending_value: i64,
    pub duration_frames: u32,
    pub global_frame_started: Option<u64>,
}

/// The queue of pending transitions for one property, and the last value
/// the queue produced.
#[derive(Clone, Debug)]
pub struct TransitionManager {
    pub queue: Vec<Transition>,
    pub value: Option<i64>,
}

/// Linear interpolation from `s` to `e` at `elapsed` of `dur` frames, with
/// Euclidean division.
pub open spec fn interp_val(s: i64, e: i64, elapsed: int, dur: int) -> int {
    s + (e - s) * elapsed / dur
}

/// What easing does at frame `frames`: a head transition starts when first
/// seen; a completed head settles on its ending value and leaves the queue;
/// an unfinished head yields its interpolated value.
pub open spec fn eased_spec(frames: u64, queue: Seq<Transition>, value: Option<i64>) -> (
    Seq<Transition>,
    Option<i64>,
)
    decreases queue.len(),
{
    if queue.len() == 0 {
        (queue, value)
    } else {
        let t = queue[0];
        let start: u64 = match t.global_frame_started {
            Some(s) => s,
            None => frames,
        };
        let elapsed: int = if frames >= start {
            frames - start
        } else {
            0
        };
        if elapsed >= t.duration_frames {
            eased_spec(frames, queue.drop_first(), Some(t.ending_value))
        } else {
            let started = Transition { global_frame_started: Some(start), ..t };
            (
                queue.update(0, started),
                Some(
                    interp_val(
                        t.starting_value,
                        t.ending_value,
                        elapsed,
                        t.duration_frames as int,
                    ) as i64,
                ),
            )
        }
    }
}

proof fn lemma_interp_range(s: i64, e: i64, elapsed: int, dur: int)
    requires
        0 <= elapsed < dur,
    ensures
        s <= e ==> s <= interp_val(s, e, elapsed, dur) <= e,
        e <= s ==> e <= interp_val(s, e, elapsed, dur) <= s,
        crate::math::in_i64(interp_val(s, e, elapsed, dur)),
{
    let d: int = e - s;
    let num: int = d * elapsed;
    if d >= 0 {
        assert(0 <= num <= d * dur) by (nonlinear_arith)
            requires
                0 <= elapsed < dur,
                d >= 0,
                num == d * elapsed,
        ;
        vstd::arithmetic::div_mod::lemma_div_is_ordered(0, num, dur);
        vstd::arithmetic::div_mod::lemma_div_is_ordered(num, d * dur, dur);
        vstd::arithmetic::div_mod::lemma_div_multiples_vanish(d, dur);
        assert(d * dur == dur * d) by (nonlinear_arith);
        assert(0 <= num / dur <= d);
    } else {
        assert(d * dur <= num <= 0) by (nonlinear_arith)
            requires
                0 <= elapsed < dur,
                d < 0,
                num == d * elapsed,
        ;
        vstd::arithmetic::div_mod::lemma_div_is_ordered(num, 0, dur);
        vstd::arithmetic::div_mod::lemma_div_is_ordered(d * dur, num, dur);
        vstd::arithmetic::div_mod::lemma_div_multiples_vanish(d, dur);
        assert(d * dur == dur * d) by (nonlinear_arith);
        assert(d <= num / dur <= 0);
    }
}

/// Advance the transition queue to the given frame and return the eased
/// value, exactly as `eased_spec` says: completed transitions are consumed
/// in order, an unfinished one is interpolated, an empty queue keeps the
/// last value.
pub fn compute_eased_value(frames_elapsed: u64, tm: &mut TransitionManager) -> (r: Option<i64>)
    ensures
        final(tm).queue@ == eased_spec(frames_elapsed, old(tm).queue@, old(tm).value).0,
        final(tm).value == eased_spec(frames_elapsed, old(tm).queue@, old(tm).value).1,
        r == final(tm).value,
{
    let ghost orig_q = tm.queue@;
    let ghost orig_v = tm.value;
    loop
        invariant
            eased_spec(frames_elapsed, tm.queue@, tm.value) == eased_spec(
                frames_elapsed,
                orig_q,
                orig_v,
            ),
            orig_q == old(tm).queue@,
            orig_v == old(tm).value,
        decreases tm.queue@.len(),
    {
        if tm.queue.len() == 0 {
            return tm.value;
        }
        let t: Transition = tm.queue[0];
        let start: u64 = match t.global_frame_started {
            Some(s) => s,
            None => frames_elapsed,
        };
        let elapsed: u64 = if frames_elapsed >= start {
            frames_elapsed - start
        } else {
            0
        };
        if elapsed >= t.duration_frames as u64 {
            let ghost prev_q = tm.queue@;
            tm.value = Some(t.ending_value);
            tm.queue.remove(0);
            proof {
                assert(tm.queue@ =~= prev_q.drop_first());
            }
        } else {
            proof {
                lemma_interp_range(
                    t.starting_value,
                    t.ending_value,
                    elapsed as int,
                    t.duration_frames as int,
                );
                crate::math::lemma_mul_bound(
                    (t.ending_value as int) - (t.starting_value as int),
                    elapsed as int,
                    0x1_0000_0000_0000_0000,
                    0x1_0000_0000,
                );
            }
            let d: i128 = (t.ending_value as i128) - (t.starting_value as i128);
            let num: i128 = d * (elapsed as i128);
            let q: i128 = match num.checked_div_euclid(t.duration_frames as i128) {
                Some(v) => v,
                None => {
                    proof {
                        assert(false);
                    }
                    0
                },
            };
            let value: i64 = ((t.starting_value as i128) + q) as i64;
            let started = Transition {
                starting_value: t.starting_value,
                ending_value: t.ending_value,
                duration_frames: t.duration_frames,
                global_frame_started: Some(start),
            };
            let ghost prev_q = tm.queue@;
            tm.queue.remove(0);
            tm.queue.insert(0, started);
            tm.value = Some(value);
            proof {
                assert(tm.queue@ =~= prev_q.update(0, started));
            }
            return tm.value;
        }
    }
}

/// What pulling a typed property yields under `table` and `scope`: a
/// literal yields its value, an expression-backed property is evaluated
/// (an id the table lacks keeps the cached value), and a value of the
/// wrong shape is a fatal coercion failure.
pub open spec fn pull_spec(
    table: Seq<Expr>,
    scope: ScopeView,
    id: Option<usize>,
    cached: ValueModel,
) -> Result<ValueModel, RuntimeError> {
    match id {
        None => Ok(cached),
        Some(vtable_id) => match table_eval(table, vtable_id, scope) {
            Ok(None) => Ok(cached),
            Ok(Some(m)) => Ok(m),
            Err(e) => Err(e),
        },
    }
}

/// Pull the current `i64` value of a property without mutating it.
pub fn pull_i64(table: &ExpressionTable, scope: &Scope, p: &Property<i64>) -> (r: Result<
    i64,
    RuntimeError,
>)
    ensures
        ({
            let pulled = pull_spec(
                table.entries@,
                scope@,
                p.vtable_id_spec(),
                ValueModel::Int(prop_value(*p)),
            );
            match r {
                Ok(x) => pulled == Ok::<ValueModel, RuntimeError>(ValueModel::Int(x)),
                Err(e) => pulled == Err::<ValueModel, RuntimeError>(e) || (pulled matches Ok(m)
                    && !(m is Int) && e == RuntimeError::CoercionFailure),
            }
        }),
{
    match p {
        Property::Literal(v) => Ok(*v),
        Property::Expression { vtable_id, cached } => match table.compute_vtable_value(
            scope,
            *vtable_id,
        ) {
            Ok(None) => Ok(*cached),
            Ok(Some(v)) => match v {
                Value::Int(x) => Ok(x),
                _ => Err(RuntimeError::CoercionFailure),
            },
            Err(e) => Err(e),
        },
    }
}

/// Pull the current `bool` value of a property without mutating it.
pub fn pull_bool(table: &ExpressionTable, scope: &Scope, p: &Property<bool>) -> (r: Result<
    bool,
    RuntimeError,
>)
    ensures
        ({
            let pulled = pull_spec(
                table.entries@,
                scope@,
                p.vtable_id_spec(),
                ValueModel::Bool(prop_value(*p)),
            );
            match r {
                Ok(x) => pulled == Ok::<ValueModel, RuntimeError>(ValueModel::Bool(x)),
                Err(e) => pulled == Err::<ValueModel, RuntimeError>(e) || (pulled matches Ok(m)
                    && !(m is Bool) && e == RuntimeError::CoercionFailure),
            }
        }),
{
    match p {
        Property::Literal(v) => Ok(*v),
        Property::Expression { vtable_id, cached } => match table.compute_vtable_value(
            scope,
            *vtable_id,
        ) {
            Ok(None) => Ok(*cached),
            Ok(Some(v)) => match v {
                Value::Bool(x) => Ok(x),
                _ => Err(RuntimeError::CoercionFailure),
            },
            Err(e) => Err(e),
        },
    }
}

/// Pull the current `Size` value of a property without mutating it.
pub fn pull_size(
    table: &ExpressionTable,
    scope: &Scope,
    p: &Property<crate::value::Size>,
) -> (r: Result<crate::value::Size, RuntimeError>)
    ensures
        ({
            let pulled = pull_spec(
                table.entries@,
                scope@,
                p.vtable_id_spec(),
                ValueModel::Size(prop_value(*p)),
            );
            match r {
                Ok(x) => pulled == Ok::<ValueModel, RuntimeError>(ValueModel::Size(x)),
                Err(e) => pulled == Err::<ValueModel, RuntimeError>(e) || (pulled matches Ok(m)
                    && !(m is Size) && e == RuntimeError::CoercionFailure),
            }
        }),
{
    match p {
        Property::Literal(v) => Ok(*v),
        Property::Expression { vtable_id, cached } => match table.compute_vtable_value(
            scope,
            *vtable_id,
        ) {
            Ok(None) => Ok(*cached),
            Ok(Some(v)) => match v {
                Value::Size(x) => Ok(x),
                _ => Err(RuntimeError::CoercionFailure),
            },
            Err(e) => Err(e),
        },
    }
}

/// Pull the current `Color` value of a property without mutating it.
pub fn pull_color(
    table: &ExpressionTable,
    scope: &Scope,
    p: &Property<crate::value::Color>,
) -> (r: Result<crate::value::Color, RuntimeError>)
    ensures
        ({
            let pulled = pull_spec(
                table.entries@,
                scope@,
                p.vtable_id_spec(),
                ValueModel::Color(prop_value(*p)),
            );
            match r {
                Ok(x) => pulled == Ok::<ValueModel, RuntimeError>(ValueModel::Color(x)),
                Err(e) => pulled == Err::<ValueModel, RuntimeError>(e) || (pulled matches Ok(m)
                    && !(m is Color) && e == RuntimeError::CoercionFailure),
            }
        }),
{
    match p {
        Property::Literal(v) => Ok(*v),
        Property::Expression { vtable_id, cached } => match table.compute_vtable_value(
            scope,
            *vtable_id,
        ) {
            Ok(None) => Ok(*cached),
            Ok(Some(v)) => match v {
                Value::Color(x) => Ok(x),
                _ => Err(RuntimeError::CoercionFailure),
            },
            Err(e) => Err(e),
        },
    }
}

/// Pull the current `u32` value of a property without mutating it.
pub fn pull_u32(table: &ExpressionTable, scope: &Scope, p: &Property<u32>) -> (r: Result<
    u32,
    RuntimeError,
>)
    ensures
        ({
            let pulled = pull_spec(
                table.entries@,
                scope@,
                p.vtable_id_spec(),
                ValueModel::Int(prop_value(*p) as i64),
            );
            match r {
                Ok(x) => pulled == Ok::<ValueModel, RuntimeError>(ValueModel::Int(x as i64)),
                Err(e) => pulled == Err::<ValueModel, RuntimeError>(e) || (pulled matches Ok(m)
                    && !(m matches ValueModel::Int(x) && 0 <= x <= u32::MAX) && e
                    == RuntimeError::CoercionFailure),
            }
        }),
{
    match p {
        Property::Literal(v) => Ok(*v),
        Property::Expression { vtable_id, cached } => match table.compute_vtable_value(
            scope,
            *vtable_id,
        ) {
            Ok(None) => Ok(*cached),
            Ok(Some(v)) => match v {
                Value::Int(x) => if 0 <= x && x <= u32::MAX as i64 {
                    Ok(x as u32)
                } else {
                    Err(RuntimeError::CoercionFailure)
                },
                _ => Err(RuntimeError::CoercionFailure),
            },
            Err(e) => Err(e),
        },
    }
}

/// A timeline a component may own; a frame without one defers to its
/// parent frame's timeline.
#[derive(Clone, Copy, Debug, PartialEq, Eq, Structural)]
pub struct Timeline {
    pub playhead_position: u64,
    pub frame_count: u64,
}

} // verus!
