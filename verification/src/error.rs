//! Errors of the compilation's tasks.

use vstd::prelude::*;

use crate::ids::ModuleIdentifier;

verus! {

/// An error that a task reports to its caller.
#[derive(Debug, PartialEq, Eq)]
pub enum Error {
    /// A dependency was to be resolved to a module that is not in the
    /// module graph.
    ModuleNotFound(ModuleIdentifier),
    /// A module factory or a build hook failed; the text says how.
    InternalError(String),
}

} // verus!
