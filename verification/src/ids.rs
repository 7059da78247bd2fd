//! Identifiers shared by the compilation's data structures.

use vstd::prelude::*;

verus! {

/// Identifies a module of the compilation; the module's textual identifier
/// is interned to this number.
pub type ModuleIdentifier = u64;

/// Identifies a dependency (an import, a require, an entry, ...).
pub type DependencyId = u32;

/// Identifies a chunk.
pub type ChunkUkey = u32;

/// Identifies the exports information of a module.
pub type ExportsInfoId = u64;

/// Identifies the information about one export of a module.
pub type ExportInfoId = u64;

/// Identifies a callback that the caller of a task keeps and runs when the
/// library says so.
pub type CallbackHandle = u64;

} // verus!
