//! Plain data exchanged with the host shell and its tooling: the build
//! target and run configuration a shell passes in, the pointer tool a
//! design surface selects, and the classification of positions inside
//! template text.

use vstd::prelude::*;

verus! {

/// A platform a native bridge is built for.
#[derive(Clone, Copy, Debug, PartialEq, Eq, Structural)]
pub enum RunTarget {
    #[allow(non_camel_case_types)]
    macOS,
    Web,
    #[allow(non_camel_case_types)]
    iOS,
}

/// The configuration of one run of the host shell.
#[derive(Clone, Debug)]
pub struct RunContext {
    pub target: RunTarget,
    pub project_path: String,
    pub verbose: bool,
    pub should_also_run: bool,
    pub is_libdev_mode: bool,
    pub process_child_ids: Vec<u64>,
    pub should_run_designer: bool,
    pub is_release: bool,
}

/// The configuration for creating a new project.
#[derive(Clone, Debug)]
pub struct CreateContext {
    pub path: String,
    pub is_libdev_mode: bool,
    pub version: String,
}

/// The pointer tool a design surface has active.
#[derive(Clone, Copy, Debug, Default, PartialEq, Eq, PartialOrd, Ord, Hash, Structural)]
pub enum Tool {
    #[default]
    Pointer,
    Rectangle,
}

/// What a position inside template text names.
#[derive(Clone, Debug)]
pub enum NodeType {
    Identifier(IdentifierData),
    Tag(TagData),
    Settings,
    Handlers,
    LiteralFunction(FunctionData),
    LiteralEnumValue(EnumValueData),
    AttributeKeyValuePair(AttributeData),
    XoFunctionCall(FunctionCallData),
}

/// An identifier occurrence in template text.
#[derive(Clone, Debug)]
pub struct IdentifierData {
    pub identifier: String,
    pub is_pascal_identifier: bool,
}

/// A tag occurrence in template text.
#[derive(Clone, Debug)]
pub struct TagData {
    pub pascal_identifier: String,
}

/// A literal function occurrence in template text.
#[derive(Clone, Debug)]
pub struct FunctionData {
    pub function_name: String,
}

/// A literal enum-value occurrence in template text.
#[derive(Clone, Debug)]
pub struct EnumValueData {
    pub enum_name: String,
    pub property_name: String,
}

/// An attribute key-value occurrence in template text.
#[derive(Clone, Debug)]
pub struct AttributeData {
    pub identifier: String,
}

/// A qualified function call occurrence in template text.
#[derive(Clone, Debug)]
pub struct FunctionCallData {
    pub struct_name: String,
    pub function_name: String,
}

} // verus!
