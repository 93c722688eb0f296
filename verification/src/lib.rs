//! A per-frame scene-graph runtime: it expands a static, compiled instance
//! tree into dynamic per-tick nodes, resolves scoped environments for slot
//! content and repeated subtrees, evaluates expression-backed properties,
//! computes integer affine layout, fires lifecycle events exactly once per
//! dynamic identity, diffs native-bridge patches, and answers ray-cast
//! queries against the current tick's node cache.
//!
//! Geometry is exact integer arithmetic: transforms are six-coefficient
//! affine maps over `i64`, sizes resolve percentages by integer division,
//! and rotations are whole quarter turns. Arithmetic that would leave the
//! `i64` range is reported as a fatal runtime error rather than wrapped.

pub mod dispatch;
pub mod engine;
pub mod host;
pub mod layout;
pub mod math;
pub mod messages;
pub mod property;
pub mod registry;
pub mod runtime;
pub mod template;
pub mod tick;
pub mod value;
