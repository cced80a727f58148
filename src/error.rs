use vstd::prelude::*;

verus! {

/// The shape defect that made a function definition unusable.
#[derive(Debug, Clone, Copy, PartialEq, Eq, Structural)]
pub enum SyntaxIssue {
    /// A `self`-like receiver parameter.
    SelfParameter,
    /// A parameter decorated with attributes.
    ParameterAttributes,
    /// The definition does not have the shape of a function item.
    Malformed,
}

/// The setting of the build environment that could not be found.
#[derive(Debug, Clone, Copy, PartialEq, Eq, Structural)]
pub enum MissingSetting {
    /// The variable naming the build-output directory.
    OutputDirectory,
    /// The per-user data directory used when `datadir` is not given.
    DataDirectory,
}

/// Why a transformation was refused.
#[derive(Debug, PartialEq, Eq)]
pub enum TransformError {
    Syntax(SyntaxIssue),
    /// The named parameter's type does not reduce to a byte sequence.
    UnsupportedType { param: String },
    /// The function declares no parameter at all.
    NoParameters,
    UnknownAttribute { key: String },
    /// A recognized key with a value of the wrong kind or out of range.
    InvalidAttributeValue { key: String },
    MissingEnvironment(MissingSetting),
    /// The kernel source file at this path could not be created or written.
    Emission { path: String },
}

} // verus!
