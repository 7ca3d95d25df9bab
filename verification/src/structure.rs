//! The variable bindings that the configuration collaborator hands over.
//!
//! The driver around this crate deserializes a configuration file into an
//! ordered mapping from variable name to a tagged value; the types here are
//! that mapping's shape as the verified code consumes it.

use vstd::prelude::*;

verus! {

/// One tagged value for an environment variable.
#[derive(Clone, Debug, PartialEq, Eq)]
pub enum EnvVariableValue {
    /// A single string value.
    String(String),
    /// An ordered list of lists of strings; the lists are flattened and then
    /// colon-joined like a `Path` value.
    Array(Vec<Vec<String>>),
    /// An ordered list of strings, colon-joined with path semantics.
    Path(Vec<String>),
    /// `true` sets the variable to the sentinel `1`; `false` unsets it.
    Flag(bool),
}

/// Either one value for every shell, or a table of shell-specific values
/// keyed by the shell's name, with `_` as the fallback key.
#[derive(Clone, Debug, PartialEq, Eq)]
pub enum EnvVariableOption {
    General(EnvVariableValue),
    Specific(Vec<(String, EnvVariableValue)>),
}

/// An ordered mapping from variable name to its option.
pub type EnvironmentVariables = Vec<(String, EnvVariableOption)>;

} // verus!
