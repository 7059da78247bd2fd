//! The factorize task: it picks the module factory and the context for a
//! dependency, and turns what the factory made into the task's result.
//! The factory itself runs between the two halves.

use std::collections::HashSet;
use vstd::prelude::*;

use crate::error::Error;
use crate::ids::DependencyId;
use crate::ids::ExportInfoId;
use crate::ids::ExportsInfoId;
use crate::ids::ModuleIdentifier;
use crate::module_graph::ModuleGraphModule;
use crate::module_graph::ModuleGraphModuleView;
use crate::module_graph::ModuleType;
use crate::queue::CompilerOptions;
use crate::queue::Context;
use crate::queue::Diagnostic;
use crate::queue::ExportInfo;
use crate::queue::ExportsInfo;
use crate::queue::ExportsInfoRelated;
use crate::queue::FactorizeTaskResult;
use crate::queue::ModuleCreationCallback;
use crate::queue::ModuleFactoryResult;
use crate::queue::ModuleProfile;
use crate::queue::Resolve;
use crate::queue::TaskResult;
use crate::queue::UsageState;

verus! {

/// What kind of import or reference a dependency is.
#[derive(Clone, Copy, Debug, PartialEq, Eq, Structural)]
pub enum DependencyType {
    Entry,
    EsmImport,
    EsmImportSpecifier,
    EsmExport,
    EsmExportImportedSpecifier,
    CjsRequire,
    CjsExports,
    DynamicImport,
    NewUrl,
    NewWorker,
    CssUrl,
    CssImport,
    CssCompose,
    WasmImport,
    WasmExportImported,
    ImportContext,
    CommonJSRequireContext,
    RequireContext,
    ImportMetaContext,
    ContainerEntry,
    ContainerExposed,
    ProvideSharedModule,
    ProvideModuleForShared,
    ConsumeSharedFallback,
    LoaderImport,
    Unknown,
}

/// Which interface a dependency offers to the factories: that of a
/// dependency on one module, that of a dependency on a context (a
/// directory of modules), or neither.
#[derive(Clone, Copy, Debug, PartialEq, Eq, Structural)]
pub enum DependencyKind {
    Module,
    Context,
    Neither,
}

/// A dependency to be turned into a module.
#[derive(Debug)]
pub struct Dependency {
    pub id: DependencyId,
    pub dependency_type: DependencyType,
    pub kind: DependencyKind,
    /// The context that the dependency carries, if any.
    pub context: Option<Context>,
    pub request: String,
}

/// The module factories.
#[derive(Clone, Copy, Debug, PartialEq, Eq, Structural)]
pub enum ModuleFactoryKind {
    Context,
    ContainerEntry,
    ProvideSharedModule,
    Normal,
}

/// Whether the dependency type asks for the context module factory.
pub open spec fn is_context_dependency_type(t: DependencyType) -> bool {
    t == DependencyType::ImportContext || t == DependencyType::CommonJSRequireContext || t
        == DependencyType::RequireContext || t == DependencyType::ImportMetaContext
}

/// The factory that makes the module of a dependency of type `t`.
pub open spec fn factory_for(t: DependencyType) -> ModuleFactoryKind {
    if is_context_dependency_type(t) {
        ModuleFactoryKind::Context
    } else if t == DependencyType::ContainerEntry {
        ModuleFactoryKind::ContainerEntry
    } else if t == DependencyType::ProvideSharedModule {
        ModuleFactoryKind::ProvideSharedModule
    } else {
        ModuleFactoryKind::Normal
    }
}

/// The factory of each dependency type: the four context types
/// (`import()` with an expression, `require()` with an expression,
/// `require.context` and `import.meta.webpackContext`) go to the context
/// module factory, a container entry to the container entry factory, a
/// shared module to the factory of shared modules, and every other type to
/// the normal module factory.
pub proof fn lemma_factory_table()
    ensures
        factory_for(DependencyType::ImportContext) == ModuleFactoryKind::Context,
        factory_for(DependencyType::CommonJSRequireContext) == ModuleFactoryKind::Context,
        factory_for(DependencyType::RequireContext) == ModuleFactoryKind::Context,
        factory_for(DependencyType::ImportMetaContext) == ModuleFactoryKind::Context,
        factory_for(DependencyType::ContainerEntry) == ModuleFactoryKind::ContainerEntry,
        factory_for(DependencyType::ProvideSharedModule) == ModuleFactoryKind::ProvideSharedModule,
        forall|t: DependencyType|
            t != DependencyType::ImportContext && t != DependencyType::CommonJSRequireContext && t
                != DependencyType::RequireContext && t != DependencyType::ImportMetaContext && t
                != DependencyType::ContainerEntry && t != DependencyType::ProvideSharedModule
                ==> #[trigger] factory_for(t) == ModuleFactoryKind::Normal,
{
}

/// The context that a dependency is resolved against: its own, else that of
/// the module it was found in, else the compilation's.
pub open spec fn factorize_context(
    own: Option<Context>,
    original: Option<Context>,
    options: CompilerOptions,
) -> Context {
    match own {
        Some(c) => c,
        None => match original {
            Some(c) => c,
            None => options.context,
        },
    }
}

/// What the normal module factory is told besides the dependency.
#[derive(Debug)]
pub struct NormalModuleFactoryContext {
    pub original_module_identifier: Option<ModuleIdentifier>,
    pub module_type: Option<ModuleType>,
    pub side_effects: Option<bool>,
    pub options: CompilerOptions,
    pub lazy_visit_modules: HashSet<String>,
    pub issuer: Option<String>,
}

/// What a module factory is asked to make a module from.
#[derive(Debug)]
pub struct ModuleFactoryCreateData {
    pub resolve_options: Option<Resolve>,
    pub context: Context,
    pub dependency: Dependency,
}

/// The request that a factorize task makes of a module factory.
#[derive(Debug)]
pub struct FactorizeRequest {
    pub factory: ModuleFactoryKind,
    /// Present exactly for the normal module factory.
    pub normal_module_factory_context: Option<NormalModuleFactoryContext>,
    pub create_data: ModuleFactoryCreateData,
}

/// What a module factory handed back: its result and its diagnostics.
#[derive(Debug)]
pub struct ModuleFactoryOutput {
    pub result: ModuleFactoryResult,
    pub diagnostics: Vec<Diagnostic>,
}

/// Identifiers, each new, for the exports information that a factorized
/// module gets; the two export entries get different identifiers.
#[derive(Clone, Copy, Debug, PartialEq, Eq, Structural)]
pub struct FreshExportIds {
    pub other_exports_info: ExportInfoId,
    pub side_effects_only_info: ExportInfoId,
    pub exports_info: ExportsInfoId,
}

/// The task that makes the module of a dependency.
#[derive(Debug)]
pub struct FactorizeTask {
    pub original_module_identifier: Option<ModuleIdentifier>,
    pub original_module_context: Option<Context>,
    pub issuer: Option<String>,
    pub dependency: Dependency,
    pub dependencies: Vec<DependencyId>,
    pub is_entry: bool,
    pub module_type: Option<ModuleType>,
    pub side_effects: Option<bool>,
    pub resolve_options: Option<Resolve>,
    pub options: CompilerOptions,
    pub lazy_visit_modules: HashSet<String>,
    pub current_profile: Option<ModuleProfile>,
    pub callback: Option<ModuleCreationCallback>,
}

/// What a factorize task keeps while its factory runs.
#[derive(Debug)]
pub struct PendingFactorize {
    pub dependency: DependencyId,
    pub original_module_identifier: Option<ModuleIdentifier>,
    pub dependencies: Vec<DependencyId>,
    pub is_entry: bool,
    pub current_profile: Option<ModuleProfile>,
    pub callback: Option<ModuleCreationCallback>,
}

/// `profile` with the start of the factorization marked.
pub open spec fn factory_started(profile: Option<ModuleProfile>) -> Option<ModuleProfile> {
    match profile {
        Some(p) => Some(ModuleProfile { factory_start: true, ..p }),
        None => None,
    }
}

/// `profile` with the end of the factorization marked.
pub open spec fn factory_ended(profile: Option<ModuleProfile>) -> Option<ModuleProfile> {
    match profile {
        Some(p) => Some(ModuleProfile { factory_end: true, ..p }),
        None => None,
    }
}

impl FactorizeTask {
    /// Whether the task's dependency offers the interface its factory needs:
    /// the context factory takes no dependency on a single module, and the
    /// normal factory no dependency on a context.
    pub open spec fn dependency_fits_factory(&self) -> bool {
        &&& is_context_dependency_type(self.dependency.dependency_type) ==> self.dependency.kind
            != DependencyKind::Module
        &&& factory_for(self.dependency.dependency_type) == ModuleFactoryKind::Normal
            ==> self.dependency.kind != DependencyKind::Context
    }

    /// Whether the task's dependency offers the interface its factory needs
    /// (see [`FactorizeTask::dependency_fits_factory`]).
    pub fn fits_factory(&self) -> (r: bool)
        ensures
            r == self.dependency_fits_factory(),
    {
        let t = self.dependency.dependency_type;
        let kind = self.dependency.kind;
        let context_type = t == DependencyType::ImportContext || t
            == DependencyType::CommonJSRequireContext || t == DependencyType::RequireContext || t
            == DependencyType::ImportMetaContext;
        let normal = !context_type && t != DependencyType::ContainerEntry && t
            != DependencyType::ProvideSharedModule;
        (!context_type || kind != DependencyKind::Module) && (!normal || kind
            != DependencyKind::Context)
    }

    /// Which dependencies fit their factory, by type and interface: one of
    /// the four context types fits unless it is a dependency on a single
    /// module; a container entry or a shared module fits whatever it
    /// offers; any other type fits unless it is a dependency on a context.
    pub proof fn lemma_fits_factory_table(&self)
        ensures
            ({
                let t = self.dependency.dependency_type;
                let k = self.dependency.kind;
                &&& (t == DependencyType::ImportContext || t == DependencyType::CommonJSRequireContext
                    || t == DependencyType::RequireContext || t == DependencyType::ImportMetaContext)
                    ==> (self.dependency_fits_factory() <==> k != DependencyKind::Module)
                &&& (t == DependencyType::ContainerEntry || t == DependencyType::ProvideSharedModule)
                    ==> self.dependency_fits_factory()
                &&& (t != DependencyType::ImportContext && t != DependencyType::CommonJSRequireContext
                    && t != DependencyType::RequireContext && t != DependencyType::ImportMetaContext
                    && t != DependencyType::ContainerEntry && t
                    != DependencyType::ProvideSharedModule) ==> (self.dependency_fits_factory() <==> k
                    != DependencyKind::Context)
            }),
    {
    }

    /// Starts the task: marks the start of the factorization and asks the
    /// factory that the dependency's type calls for to make a module from the
    /// dependency, in the dependency's own context, else the context of the
    /// module it was found in, else the compilation's. Only the normal
    /// factory is told the rest of the task.
    pub fn begin(self) -> (r: (FactorizeRequest, PendingFactorize))
        requires
            self.dependency_fits_factory(),
        ensures
            r.0.factory == factory_for(self.dependency.dependency_type),
            r.0.create_data.context == factorize_context(
                self.dependency.context,
                self.original_module_context,
                self.options,
            ),
            r.0.create_data.dependency == self.dependency,
            r.0.create_data.resolve_options == self.resolve_options,
            r.0.factory == ModuleFactoryKind::Normal ==> r.0.normal_module_factory_context == Some(
                NormalModuleFactoryContext {
                    original_module_identifier: self.original_module_identifier,
                    module_type: self.module_type,
                    side_effects: self.side_effects,
                    options: self.options,
                    lazy_visit_modules: self.lazy_visit_modules,
                    issuer: self.issuer,
                },
            ),
            r.0.factory != ModuleFactoryKind::Normal ==> r.0.normal_module_factory_context is None,
            r.1 == (PendingFactorize {
                dependency: self.dependency.id,
                original_module_identifier: self.original_module_identifier,
                dependencies: self.dependencies,
                is_entry: self.is_entry,
                current_profile: factory_started(self.current_profile),
                callback: self.callback,
            }),
    {
        let FactorizeTask {
            original_module_identifier,
            original_module_context,
            issuer,
            dependency,
            dependencies,
            is_entry,
            module_type,
            side_effects,
            resolve_options,
            options,
            lazy_visit_modules,
            current_profile,
            callback,
        } = self;
        let mut current_profile = current_profile;
        if let Some(p) = &mut current_profile {
            p.factory_start = true;
        }
        let dep_id = dependency.id;
        let context = match &dependency.context {
            Some(c) => c.clone(),
            None => match &original_module_context {
                Some(c) => c.clone(),
                None => options.context.clone(),
            },
        };
        let t = dependency.dependency_type;
        let is_context_type = match t {
            DependencyType::ImportContext
            | DependencyType::CommonJSRequireContext
            | DependencyType::RequireContext
            | DependencyType::ImportMetaContext => true,
            _ => false,
        };
        let factory = if is_context_type {
            ModuleFactoryKind::Context
        } else {
            match t {
                DependencyType::ContainerEntry => ModuleFactoryKind::ContainerEntry,
                DependencyType::ProvideSharedModule => ModuleFactoryKind::ProvideSharedModule,
                _ => ModuleFactoryKind::Normal,
            }
        };
        let normal_module_factory_context = match factory {
            ModuleFactoryKind::Normal => Some(
                NormalModuleFactoryContext {
                    original_module_identifier,
                    module_type,
                    side_effects,
                    options,
                    lazy_visit_modules,
                    issuer,
                },
            ),
            _ => None,
        };
        let request = FactorizeRequest {
            factory,
            normal_module_factory_context,
            create_data: ModuleFactoryCreateData { resolve_options, context, dependency },
        };
        let pending = PendingFactorize {
            dependency: dep_id,
            original_module_identifier,
            dependencies,
            is_entry,
            current_profile,
            callback,
        };
        (request, pending)
    }
}

/// The exports information of a factorized module, made with `ids`.
pub open spec fn exports_info_related_of(ids: FreshExportIds, r: ExportsInfoRelated) -> bool {
    &&& r.exports_info == ExportsInfo {
        id: ids.exports_info,
        other_exports_info: ids.other_exports_info,
        side_effects_only_info: ids.side_effects_only_info,
    }
    &&& r.other_exports_info.id == ids.other_exports_info
    &&& r.other_exports_info.name is None
    &&& r.other_exports_info.usage_state == UsageState::Unknown
    &&& r.side_effects_info.id == ids.side_effects_only_info
    &&& r.side_effects_info.name matches Some(n) && n@ == "*side effects only*"@
    &&& r.side_effects_info.usage_state == UsageState::Unknown
}

impl PendingFactorize {
    /// Finishes the task with what the factory handed back: a failure of the
    /// factory is the task's failure; else the result holds the factory's
    /// module and diagnostics, a module graph record for the module with new
    /// exports information, and the profile with the end of the
    /// factorization marked.
    pub fn complete(self, created: Result<ModuleFactoryOutput, Error>, ids: FreshExportIds) -> (r:
        Result<TaskResult, Error>)
        requires
            ids.other_exports_info != ids.side_effects_only_info,
        ensures
            match created {
                Err(e) => r == Err::<TaskResult, Error>(e),
                Ok(out) => r matches Ok(TaskResult::Factorize(b)) && ({
                    let f = *b;
                    &&& f.dependency == self.dependency
                    &&& f.original_module_identifier == self.original_module_identifier
                    &&& f.factory_result == out.result
                    &&& f.module_graph_module@ == (ModuleGraphModuleView {
                        module_identifier: out.result.module.identifier,
                        module_type: out.result.module.module_type,
                        exports: ids.exports_info,
                        dependencies: Seq::empty(),
                        incoming_connections: Set::empty(),
                        outgoing_connections: Seq::empty(),
                    })
                    &&& f.dependencies == self.dependencies
                    &&& f.diagnostics == out.diagnostics
                    &&& f.is_entry == self.is_entry
                    &&& f.current_profile == factory_ended(self.current_profile)
                    &&& exports_info_related_of(ids, f.exports_info_related)
                    &&& f.exports_info_related.other_exports_info.id
                        != f.exports_info_related.side_effects_info.id
                    &&& f.from_cache == out.result.from_cache
                    &&& f.callback == self.callback
                }),
            },
    {
        let out = match created {
            Err(e) => return Err(e),
            Ok(out) => out,
        };
        let other_exports_info = ExportInfo {
            id: ids.other_exports_info,
            name: None,
            usage_state: UsageState::Unknown,
        };
        let side_effects_info = ExportInfo {
            id: ids.side_effects_only_info,
            name: Some(String::from_str("*side effects only*")),
            usage_state: UsageState::Unknown,
        };
        let exports_info = ExportsInfo {
            id: ids.exports_info,
            other_exports_info: other_exports_info.id,
            side_effects_only_info: side_effects_info.id,
        };
        let module_graph_module = ModuleGraphModule::new(
            out.result.module.identifier,
            out.result.module.module_type,
            exports_info.id,
        );
        let mut current_profile = self.current_profile;
        if let Some(p) = &mut current_profile {
            p.factory_end = true;
        }
        let from_cache = out.result.from_cache;
        Ok(
            TaskResult::Factorize(
                Box::new(
                    FactorizeTaskResult {
                        dependency: self.dependency,
                        original_module_identifier: self.original_module_identifier,
                        factory_result: out.result,
                        module_graph_module,
                        dependencies: self.dependencies,
                        diagnostics: out.diagnostics,
                        is_entry: self.is_entry,
                        current_profile,
                        exports_info_related: ExportsInfoRelated {
                            exports_info,
                            other_exports_info,
                            side_effects_info,
                        },
                        from_cache,
                        callback: self.callback,
                    },
                ),
            ),
        )
    }
}

} // verus!
