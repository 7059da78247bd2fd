//! What a loader is told of the compilation when it runs for a module.

use vstd::prelude::*;

use crate::ids::ModuleIdentifier;
use crate::queue::CompilerOptions;
use crate::queue::Context;

verus! {

/// The compilation's side of a loader's context: the options, the module
/// that the loader runs for, and that module's context.
#[derive(Debug)]
pub struct CompilerContext {
    pub options: CompilerOptions,
    pub module: ModuleIdentifier,
    pub module_context: Option<Context>,
}

/// The context that loaders run with.
pub type LoaderRunnerContext = CompilerContext;

} // verus!
