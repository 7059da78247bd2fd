//! The tasks of a compilation's queues and what they produce; the tasks that
//! add a module to the module graph and that clean one out of it.

use std::collections::HashSet;
use vstd::prelude::*;

use crate::error::Error;
use crate::ids::CallbackHandle;
use crate::ids::DependencyId;
use crate::ids::ExportInfoId;
use crate::ids::ExportsInfoId;
use crate::ids::ModuleIdentifier;
use crate::module_graph::Compilation;
use crate::module_graph::ModuleGraph;
use crate::module_graph::ModuleGraphModule;
use crate::module_graph::ModuleGraphModuleView;
use crate::module_graph::ModuleGraphView;
use crate::module_graph::ModuleType;
use crate::module_graph::lemma_resolved_dependencies_reach_module;
use crate::module_graph::lemma_revoked_module_is_gone;
use crate::module_graph::lemma_resolving_keeps_records;
use crate::module_graph::keeps_record;
use crate::module_graph::lemma_with_module_keeps_consistency;
use crate::module_graph::lemma_with_resolved_modules_keeps_consistency;
use crate::module_graph::lemma_without_unused_module_keeps_consistency;

verus! {

broadcast use vstd::std_specs::hash::group_hash_axioms;

/// A callback that the creator of a module asked to run, with the module,
/// once the module is in the module graph. The library hands the handle
/// back when the callback is due; the caller keeps the callback itself.
pub type ModuleCreationCallback = CallbackHandle;

/// A module: what the tasks read of it.
#[derive(Clone, Copy, Debug, PartialEq, Eq, Structural)]
pub struct Module {
    pub identifier: ModuleIdentifier,
    pub module_type: ModuleType,
}

/// A directory that relative requests are resolved against.
#[derive(Debug)]
pub struct Context {
    pub path: String,
}

impl Clone for Context {
    fn clone(&self) -> (c: Self)
        ensures
            c == *self,
    {
        Context { path: self.path.clone() }
    }
}

/// The options of a compilation that the tasks read.
#[derive(Debug)]
pub struct CompilerOptions {
    /// The directory that requests without a context of their own are
    /// resolved against.
    pub context: Context,
}

impl Clone for CompilerOptions {
    fn clone(&self) -> (c: Self)
        ensures
            c == *self,
    {
        CompilerOptions { context: self.context.clone() }
    }
}

/// Resolver options that a dependency asks for.
#[derive(Debug)]
pub struct Resolve {
    pub extensions: Vec<String>,
    pub prefer_relative: bool,
}

/// A message that a factory or a build reported besides its result.
#[derive(Debug)]
pub struct Diagnostic {
    pub message: String,
}

/// Which phases of a module's processing have been marked as started or
/// ended (each mark is taken once; the clock is read by the caller).
#[derive(Clone, Copy, Debug, PartialEq, Eq, Structural)]
pub struct ModuleProfile {
    pub factory_start: bool,
    pub factory_end: bool,
    pub integration_start: bool,
    pub integration_end: bool,
    pub building_start: bool,
    pub building_end: bool,
}

impl ModuleProfile {
    /// A profile with no phase marked.
    pub fn new() -> (p: Self)
        ensures
            p == (ModuleProfile {
                factory_start: false,
                factory_end: false,
                integration_start: false,
                integration_end: false,
                building_start: false,
                building_end: false,
            }),
    {
        ModuleProfile {
            factory_start: false,
            factory_end: false,
            integration_start: false,
            integration_end: false,
            building_start: false,
            building_end: false,
        }
    }
}

/// `profile` with the start of the integration marked.
pub open spec fn integration_started(profile: Option<ModuleProfile>) -> Option<ModuleProfile> {
    match profile {
        Some(p) => Some(ModuleProfile { integration_start: true, ..p }),
        None => None,
    }
}

/// `profile` with the start and the end of the integration marked.
pub open spec fn integration_done(profile: Option<ModuleProfile>) -> Option<ModuleProfile> {
    match profile {
        Some(p) => Some(ModuleProfile { integration_start: true, integration_end: true, ..p }),
        None => None,
    }
}

/// How a module's exports are used.
#[derive(Clone, Copy, Debug, PartialEq, Eq, Structural)]
pub enum UsageState {
    Unused,
    OnlyPropertiesUsed,
    NoInfo,
    Unknown,
    Used,
}

/// What is known of one export of a module.
#[derive(Debug)]
pub struct ExportInfo {
    pub id: ExportInfoId,
    pub name: Option<String>,
    pub usage_state: UsageState,
}

/// What is known of the exports of a module: the entry for exports that
/// are not named, and the entry for the module's side effects.
#[derive(Clone, Copy, Debug, PartialEq, Eq, Structural)]
pub struct ExportsInfo {
    pub id: ExportsInfoId,
    pub other_exports_info: ExportInfoId,
    pub side_effects_only_info: ExportInfoId,
}

/// The exports information made while a module is factorized.
#[derive(Debug)]
pub struct ExportsInfoRelated {
    pub exports_info: ExportsInfo,
    pub other_exports_info: ExportInfo,
    pub side_effects_info: ExportInfo,
}

/// What a module factory produced.
#[derive(Clone, Copy, Debug, PartialEq, Eq, Structural)]
pub struct ModuleFactoryResult {
    pub module: Module,
    pub from_cache: bool,
}

/// The result of a factorize task: the module made for a dependency.
#[derive(Debug)]
pub struct FactorizeTaskResult {
    pub dependency: DependencyId,
    pub original_module_identifier: Option<ModuleIdentifier>,
    pub factory_result: ModuleFactoryResult,
    pub module_graph_module: ModuleGraphModule,
    pub dependencies: Vec<DependencyId>,
    pub diagnostics: Vec<Diagnostic>,
    pub is_entry: bool,
    pub current_profile: Option<ModuleProfile>,
    pub exports_info_related: ExportsInfoRelated,
    pub from_cache: bool,
    pub callback: Option<ModuleCreationCallback>,
}

/// What building a module found in it.
#[derive(Debug)]
pub struct BuildResult {
    /// The dependencies that the module's source declares.
    pub dependencies: Vec<DependencyId>,
    pub cacheable: bool,
}

/// The result of a build task.
#[derive(Debug)]
pub struct BuildTaskResult {
    pub module: Module,
    pub build_result: BuildResult,
    pub diagnostics: Vec<Diagnostic>,
    pub current_profile: Option<ModuleProfile>,
    pub from_cache: bool,
}

/// The task that resolves the dependencies of a built module.
#[derive(Debug)]
pub struct ProcessDependenciesTask {
    pub original_module_identifier: ModuleIdentifier,
    pub dependencies: Vec<DependencyId>,
    pub resolve_options: Option<Resolve>,
}

/// The result of a process-dependencies task.
#[derive(Clone, Copy, Debug, PartialEq, Eq, Structural)]
pub struct ProcessDependenciesResult {
    pub module_identifier: ModuleIdentifier,
}

/// What adding a module did.
#[derive(Debug)]
pub enum AddTaskResult {
    /// The module was already in the module graph.
    ModuleReused { module: Module },
    /// The module was added to the module graph.
    ModuleAdded { module: Module, current_profile: Option<ModuleProfile> },
}

/// The result of any task.
#[derive(Debug)]
pub enum TaskResult {
    Factorize(Box<FactorizeTaskResult>),
    Add(Box<AddTaskResult>),
    Build(Box<BuildTaskResult>),
    ProcessDependencies(Box<ProcessDependenciesResult>),
}

/// The task that puts a factorized module into the module graph and
/// resolves the dependencies that led to it.
#[derive(Debug)]
pub struct AddTask {
    pub original_module_identifier: Option<ModuleIdentifier>,
    pub module: Module,
    pub module_graph_module: ModuleGraphModule,
    pub dependencies: Vec<DependencyId>,
    pub is_entry: bool,
    pub current_profile: Option<ModuleProfile>,
    pub callback: Option<ModuleCreationCallback>,
}

/// The graph after `task` ran on `g`, where the graph did not hold the
/// task's module: its record is added, then its dependencies resolved.
pub open spec fn graph_after_add(
    g: ModuleGraphView,
    mgm: ModuleGraphModuleView,
    original: Option<ModuleIdentifier>,
    dependencies: Seq<DependencyId>,
    module: ModuleIdentifier,
) -> ModuleGraphView {
    let g1 = g.with_module(mgm);
    if g1.modules.contains_key(module) {
        g1.with_resolved_modules(original, dependencies, module)
    } else {
        g1
    }
}

impl AddTask {
    /// Puts the task's module into the compilation: where the module graph
    /// already holds it, only resolves the task's dependencies to it and
    /// reports it reused; else adds the task's module record, resolves the
    /// dependencies, records an entry module, marks the integration in the
    /// profile and reports the module added. The callback that the result
    /// hands back is due, with the task's module, once the task is done.
    pub fn run(self, compilation: &mut Compilation) -> (r: (
        Result<TaskResult, Error>,
        Option<ModuleCreationCallback>,
    ))
        ensures
            ({
                let id = self.module.identifier;
                let g0 = old(compilation).module_graph@;
                let g1 = g0.with_module(self.module_graph_module@);
                if g0.modules.contains_key(id) {
                    &&& final(compilation).module_graph@ == g0.with_resolved_modules(
                        self.original_module_identifier,
                        self.dependencies@,
                        id,
                    )
                    &&& final(compilation).entry_module_identifiers@
                        == old(compilation).entry_module_identifiers@
                    &&& r.0 matches Ok(TaskResult::Add(b)) && *b matches AddTaskResult::ModuleReused {
                        module,
                    } && module == self.module
                    &&& r.1 == self.callback
                } else if g1.modules.contains_key(id) || self.dependencies@.len() == 0 {
                    &&& final(compilation).module_graph@ == graph_after_add(
                        g0,
                        self.module_graph_module@,
                        self.original_module_identifier,
                        self.dependencies@,
                        id,
                    )
                    &&& final(compilation).entry_module_identifiers@ == if self.is_entry {
                        old(compilation).entry_module_identifiers@.insert(id)
                    } else {
                        old(compilation).entry_module_identifiers@
                    }
                    &&& r.0 matches Ok(TaskResult::Add(b)) && *b matches AddTaskResult::ModuleAdded {
                        module,
                        current_profile,
                    } && module == self.module && current_profile == integration_done(
                        self.current_profile,
                    )
                    &&& r.1 == self.callback
                } else {
                    &&& final(compilation).module_graph@ == g1
                    &&& final(compilation).entry_module_identifiers@
                        == old(compilation).entry_module_identifiers@
                    &&& r.0 == Err::<TaskResult, Error>(Error::ModuleNotFound(id))
                    &&& r.1 == None::<ModuleCreationCallback>
                }
            }),
    {
        let mut current_profile = self.current_profile;
        if let Some(p) = &mut current_profile {
            p.integration_start = true;
        }
        let module_identifier = self.module.identifier;

        if compilation.module_graph.module_graph_module_by_identifier(&module_identifier).is_some() {
            let res = set_resolved_module(
                &mut compilation.module_graph,
                self.original_module_identifier,
                self.dependencies,
                module_identifier,
            );
            if let Err(e) = res {
                return (Err(e), None);
            }
            return (
                Ok(TaskResult::Add(Box::new(AddTaskResult::ModuleReused { module: self.module }))),
                self.callback,
            );
        }
        compilation.module_graph.add_module_graph_module(self.module_graph_module);

        let res = set_resolved_module(
            &mut compilation.module_graph,
            self.original_module_identifier,
            self.dependencies,
            module_identifier,
        );
        if let Err(e) = res {
            return (Err(e), None);
        }
        if self.is_entry {
            compilation.entry_module_identifiers.insert(module_identifier);
        }
        if let Some(p) = &mut current_profile {
            p.integration_end = true;
        }
        (
            Ok(
                TaskResult::Add(
                    Box::new(AddTaskResult::ModuleAdded { module: self.module, current_profile }),
                ),
            ),
            self.callback,
        )
    }
}

/// Resolves each of `dependencies`, in order, to `module_identifier`; stops
/// at the first that fails.
fn set_resolved_module(
    module_graph: &mut ModuleGraph,
    original_module_identifier: Option<ModuleIdentifier>,
    dependencies: Vec<DependencyId>,
    module_identifier: ModuleIdentifier,
) -> (r: Result<(), Error>)
    ensures
        old(module_graph)@.modules.contains_key(module_identifier) ==> r is Ok
            && final(module_graph)@ == old(module_graph)@.with_resolved_modules(
            original_module_identifier,
            dependencies@,
            module_identifier,
        ),
        !old(module_graph)@.modules.contains_key(module_identifier) ==> final(module_graph)@
            == old(module_graph)@ && (r is Ok <==> dependencies@.len() == 0) && (r is Err ==> r
            == Err::<(), Error>(Error::ModuleNotFound(module_identifier))),
{
    let ghost g0 = module_graph@;
    let mut i: usize = 0;
    while i < dependencies.len()
        invariant
            i <= dependencies@.len(),
            g0 == old(module_graph)@,
            g0.modules.contains_key(module_identifier) ==> module_graph@ == g0.with_resolved_modules(
                original_module_identifier,
                dependencies@.take(i as int),
                module_identifier,
            ),
            g0.modules.contains_key(module_identifier) ==> module_graph@.modules.contains_key(
                module_identifier,
            ),
            !g0.modules.contains_key(module_identifier) ==> module_graph@ == g0 && i == 0,
        decreases dependencies@.len() - i,
    {
        assert(dependencies@.take(i + 1).drop_last() =~= dependencies@.take(i as int));
        let res = module_graph.set_resolved_module(
            original_module_identifier,
            dependencies[i],
            module_identifier,
        );
        if let Err(e) = res {
            return Err(e);
        }
        i = i + 1;
    }
    assert(dependencies@.take(dependencies@.len() as int) =~= dependencies@);
    Ok(())
}

/// A module that an add task added (its record carries its identifier) is
/// in the graph afterwards, with each of the task's dependencies resolved to
/// it; so a later add task for it finds it there and reuses it, and where
/// the task had dependencies a clean task finds it used.
pub proof fn lemma_added_module_stays_connected(
    g: ModuleGraphView,
    mgm: ModuleGraphModuleView,
    original: Option<ModuleIdentifier>,
    dependencies: Seq<DependencyId>,
    module: ModuleIdentifier,
)
    requires
        !g.modules.contains_key(module),
        mgm.module_identifier == module,
    ensures
        ({
            let r = graph_after_add(g, mgm, original, dependencies, module);
            &&& r.modules.contains_key(module)
            &&& forall|i: int|
                0 <= i < dependencies.len() ==> #[trigger] r.connections.contains_key(
                    dependencies[i],
                ) && r.connections[dependencies[i]].module_identifier == module
            &&& dependencies.len() > 0 ==> !r.modules[module].incoming_connections.is_empty()
        }),
{
    let g1 = g.with_module(mgm);
    lemma_resolved_dependencies_reach_module(g1, original, dependencies, module);
    let r = g1.with_resolved_modules(original, dependencies, module);
    assert(r.modules.dom().contains(module));
    if dependencies.len() > 0 {
        assert(r.connections.contains_key(dependencies[0]));
        assert(r.modules[module].incoming_connections.contains(dependencies[0]));
    }
}

/// An add task for a module that is already in the graph (as one that an
/// add task added stays until it is revoked, see
/// [`crate::module_graph::lemma_module_stays_until_revoked`]) reuses it:
/// [`AddTask::run`] then reports the module reused and leaves the entries
/// as they are, and the graph keeps the module's record, its identifier,
/// type, exports and dependencies, only connecting the task's dependencies
/// to it.
pub proof fn lemma_add_task_keeps_record_of_module_in_graph(
    g: ModuleGraphView,
    original: Option<ModuleIdentifier>,
    dependencies: Seq<DependencyId>,
    module: ModuleIdentifier,
)
    requires
        g.modules.contains_key(module),
    ensures
        keeps_record(g, g.with_resolved_modules(original, dependencies, module), module),
{
    lemma_resolving_keeps_records(g, original, dependencies, module, module);
}

/// An add task keeps the module graph consistent (see
/// [`ModuleGraphView::is_consistent`]) where its module record comes with no
/// incoming dependency, as a factorized module's does, and each of its
/// dependencies has no connection yet or one to its module: whether the
/// module was there already, was added, or the task failed.
pub proof fn lemma_add_task_keeps_graph_consistent(
    g: ModuleGraphView,
    mgm: ModuleGraphModuleView,
    original: Option<ModuleIdentifier>,
    dependencies: Seq<DependencyId>,
    module: ModuleIdentifier,
)
    requires
        g.is_consistent(),
        mgm.incoming_connections == Set::<DependencyId>::empty(),
        forall|i: int| 0 <= i < dependencies.len() ==> g.free_for(#[trigger] dependencies[i], module),
    ensures
        g.modules.contains_key(module) ==> g.with_resolved_modules(
            original,
            dependencies,
            module,
        ).is_consistent(),
        graph_after_add(g, mgm, original, dependencies, module).is_consistent(),
        g.with_module(mgm).is_consistent(),
{
    if g.modules.contains_key(module) {
        lemma_with_resolved_modules_keeps_consistency(g, original, dependencies, module);
    }
    lemma_with_module_keeps_consistency(g, mgm);
    let g1 = g.with_module(mgm);
    if g1.modules.contains_key(module) {
        assert(g1.connections == g.connections);
        lemma_with_resolved_modules_keeps_consistency(g1, original, dependencies, module);
    }
}

/// A clean task keeps the module graph consistent: it revokes a module only
/// where no dependency resolves to it.
pub proof fn lemma_clean_task_keeps_graph_consistent(g: ModuleGraphView, module: ModuleIdentifier)
    requires
        g.is_consistent(),
    ensures
        (if !g.modules.contains_key(module) || !g.modules[module].incoming_connections.is_empty() {
            g
        } else {
            g.without_module(module)
        }).is_consistent(),
{
    if g.modules.contains_key(module) && g.modules[module].incoming_connections.is_empty() {
        lemma_without_unused_module_keeps_consistency(g, module);
    }
}

/// A module that a clean task removed is no longer in the graph, and every
/// other module stays; so cleaning it again reports it cleaned with nothing
/// depending on it.
pub proof fn lemma_cleaned_module_is_gone(g: ModuleGraphView, module: ModuleIdentifier)
    ensures
        g.without_module(module).modules.dom() == g.modules.dom().remove(module),
        !g.without_module(module).modules.contains_key(module),
{
    lemma_revoked_module_is_gone(g, module);
}

/// The task that removes a module that nothing uses any more.
#[derive(Clone, Copy, Debug, PartialEq, Eq, Structural)]
pub struct CleanTask {
    pub module_identifier: ModuleIdentifier,
}

/// What cleaning a module did.
#[derive(Debug)]
pub enum CleanTaskResult {
    /// A dependency still resolves to the module, which stays.
    ModuleIsUsed { module_identifier: ModuleIdentifier },
    /// The module is gone from the module graph; the modules that it
    /// depended on may now be unused themselves.
    ModuleIsCleaned {
        module_identifier: ModuleIdentifier,
        dependent_module_identifiers: Vec<ModuleIdentifier>,
    },
}

impl CleanTaskResult {
    /// The module identifiers of a cleaned result.
    pub open spec fn cleaned(self) -> Option<(ModuleIdentifier, Seq<ModuleIdentifier>)> {
        match self {
            CleanTaskResult::ModuleIsCleaned { module_identifier, dependent_module_identifiers } => Some(
                (module_identifier, dependent_module_identifiers@),
            ),
            CleanTaskResult::ModuleIsUsed { .. } => None,
        }
    }
}

impl CleanTask {
    /// Cleans the task's module out of the module graph: a module that is
    /// not in the graph is reported cleaned with no dependent modules; one
    /// that a dependency still resolves to is reported used and stays;
    /// any other is revoked, and reported cleaned with the modules that its
    /// dependencies resolved to.
    pub fn run(self, compilation: &mut Compilation) -> (r: CleanTaskResult)
        ensures
            final(compilation).entry_module_identifiers@
                == old(compilation).entry_module_identifiers@,
            ({
                let id = self.module_identifier;
                let g0 = old(compilation).module_graph@;
                if !g0.modules.contains_key(id) {
                    &&& final(compilation).module_graph@ == g0
                    &&& r.cleaned() == Some((id, Seq::<ModuleIdentifier>::empty()))
                } else if !g0.modules[id].incoming_connections.is_empty() {
                    &&& final(compilation).module_graph@ == g0
                    &&& r == (CleanTaskResult::ModuleIsUsed { module_identifier: id })
                } else {
                    &&& final(compilation).module_graph@ == g0.without_module(id)
                    &&& r.cleaned() == Some(
                        (id, g0.resolved_modules(g0.modules[id].dependencies)),
                    )
                }
            }),
    {
        let module_identifier = self.module_identifier;
        let mgm = match compilation.module_graph.module_graph_module_by_identifier(
            &module_identifier,
        ) {
            Some(mgm) => mgm,
            None => {
                return CleanTaskResult::ModuleIsCleaned {
                    module_identifier,
                    dependent_module_identifiers: Vec::new(),
                };
            },
        };
        if !mgm.incoming_connections.is_empty() {
            return CleanTaskResult::ModuleIsUsed { module_identifier };
        }
        let dependent_module_identifiers = compilation.module_graph.get_module_all_depended_modules(
            &module_identifier,
        ).unwrap();
        compilation.module_graph.revoke_module(&module_identifier);
        CleanTaskResult::ModuleIsCleaned { module_identifier, dependent_module_identifiers }
    }
}

} // verus!
