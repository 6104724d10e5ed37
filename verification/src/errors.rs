//! Typed failures: configuration loading and literal emission each return a
//! definite result or one of these.
use vstd::prelude::*;

verus! {

/// A failure while loading or interpreting alias configuration.
#[derive(Debug, Clone)]
pub enum ConfigError {
    /// An explicitly requested configuration document could not be read.
    Io { path: String },
    /// The document is not a well-formed object.
    Syntax { message: String },
    /// The convention document lacks its alias field.
    MissingAliases,
    /// The alias field is not a mapping from names to path strings.
    AliasesNotStringMap,
    /// An embedding configuration document holds a field that is not recognized.
    UnknownField { name: String },
    /// A recognized embedding configuration field holds a value of the wrong shape.
    FieldType { name: String },
}

/// A failure while emitting a replacement import literal.
#[derive(Debug, Clone)]
pub enum EmitError {
    /// No lexical relative path is expressible between the two locations.
    PathDifference,
    /// The computed text cannot stand inside a long-bracket string literal.
    Literal,
}

} // verus!
