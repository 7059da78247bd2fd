use std::collections::HashSet;
use rspack_queue::build_task::BuildOutput;
use rspack_queue::build_task::BuildTask;
use rspack_queue::build_task::BuildTaskStep;
use rspack_queue::error::Error;
use rspack_queue::factorize::Dependency;
use rspack_queue::factorize::DependencyKind;
use rspack_queue::factorize::DependencyType;
use rspack_queue::factorize::FactorizeTask;
use rspack_queue::factorize::FreshExportIds;
use rspack_queue::factorize::ModuleFactoryKind;
use rspack_queue::factorize::ModuleFactoryOutput;
use rspack_queue::module_graph::ModuleType;
use rspack_queue::queue::BuildResult;
use rspack_queue::queue::CompilerOptions;
use rspack_queue::queue::Context;
use rspack_queue::queue::Diagnostic;
use rspack_queue::queue::Module;
use rspack_queue::queue::ModuleFactoryResult;
use rspack_queue::queue::ModuleProfile;
use rspack_queue::queue::TaskResult;
use rspack_queue::queue::UsageState;

fn ctx(p: &str) -> Context {
    Context { path: p.to_string() }
}

fn task(t: DependencyType, kind: DependencyKind, own: Option<&str>, original: Option<&str>) -> FactorizeTask {
    FactorizeTask {
        original_module_identifier: Some(3),
        original_module_context: original.map(ctx),
        issuer: Some("/src/index.js".to_string()),
        dependency: Dependency {
            id: 17,
            dependency_type: t,
            kind,
            context: own.map(ctx),
            request: "./a".to_string(),
        },
        dependencies: vec![17, 18],
        is_entry: false,
        module_type: Some(ModuleType::Js),
        side_effects: Some(true),
        resolve_options: None,
        options: CompilerOptions { context: ctx("/root") },
        lazy_visit_modules: HashSet::new(),
        current_profile: Some(ModuleProfile::new()),
        callback: Some(4),
    }
}

#[test]
fn factorize_prefers_dependency_context_then_module_context_then_options() {
    let (r, _) = task(DependencyType::EsmImport, DependencyKind::Module, Some("/dep"), Some("/mod")).begin();
    assert_eq!(r.create_data.context.path, "/dep");
    let (r, _) = task(DependencyType::EsmImport, DependencyKind::Module, None, Some("/mod")).begin();
    assert_eq!(r.create_data.context.path, "/mod");
    let (r, _) = task(DependencyType::EsmImport, DependencyKind::Module, None, None).begin();
    assert_eq!(r.create_data.context.path, "/root");
}

#[test]
fn factorize_picks_factory_by_dependency_type() {
    let (r, p) = task(DependencyType::RequireContext, DependencyKind::Context, None, None).begin();
    assert_eq!(r.factory, ModuleFactoryKind::Context);
    assert!(r.normal_module_factory_context.is_none());
    assert!(p.current_profile.unwrap().factory_start);
    let (r, _) = task(DependencyType::ContainerEntry, DependencyKind::Neither, None, None).begin();
    assert_eq!(r.factory, ModuleFactoryKind::ContainerEntry);
    let (r, _) = task(DependencyType::ProvideSharedModule, DependencyKind::Neither, None, None).begin();
    assert_eq!(r.factory, ModuleFactoryKind::ProvideSharedModule);
    let (r, p) = task(DependencyType::CjsRequire, DependencyKind::Module, None, None).begin();
    assert_eq!(r.factory, ModuleFactoryKind::Normal);
    let n = r.normal_module_factory_context.unwrap();
    assert_eq!(n.original_module_identifier, Some(3));
    assert_eq!(n.issuer.as_deref(), Some("/src/index.js"));
    assert_eq!(n.side_effects, Some(true));
    assert_eq!(r.create_data.dependency.id, 17);
    assert_eq!(p.dependency, 17);
    assert_eq!(p.dependencies, vec![17, 18]);
    assert_eq!(p.callback, Some(4));
}

#[test]
fn factorize_completes_with_module_and_exports_information() {
    let (_, pending) = task(DependencyType::EsmImport, DependencyKind::Module, None, None).begin();
    let out = ModuleFactoryOutput {
        result: ModuleFactoryResult {
            module: Module { identifier: 77, module_type: ModuleType::JsEsm },
            from_cache: true,
        },
        diagnostics: vec![Diagnostic { message: "w".to_string() }],
    };
    let ids = FreshExportIds { other_exports_info: 1, side_effects_only_info: 2, exports_info: 3 };
    match pending.complete(Ok(out), ids) {
        Ok(TaskResult::Factorize(f)) => {
            assert_eq!(f.dependency, 17);
            assert_eq!(f.original_module_identifier, Some(3));
            assert_eq!(f.module_graph_module.module_identifier, 77);
            assert_eq!(f.module_graph_module.module_type, ModuleType::JsEsm);
            assert_eq!(f.module_graph_module.exports, 3);
            assert!(f.from_cache);
            assert_eq!(f.diagnostics.len(), 1);
            assert_eq!(f.exports_info_related.exports_info.other_exports_info, 1);
            assert_eq!(f.exports_info_related.exports_info.side_effects_only_info, 2);
            assert_eq!(f.exports_info_related.other_exports_info.name, None);
            assert_eq!(
                f.exports_info_related.side_effects_info.name.as_deref(),
                Some("*side effects only*")
            );
            assert_eq!(f.exports_info_related.side_effects_info.usage_state, UsageState::Unknown);
            let p = f.current_profile.unwrap();
            assert!(p.factory_start && p.factory_end);
            assert_eq!(f.callback, Some(4));
        }
        other => panic!("unexpected {:?}", other),
    }
}

#[test]
fn factorize_failure_of_factory_is_task_failure() {
    let (_, pending) = task(DependencyType::EsmImport, DependencyKind::Module, None, None).begin();
    let ids = FreshExportIds { other_exports_info: 1, side_effects_only_info: 2, exports_info: 3 };
    let r = pending.complete(Err(Error::InternalError("no".to_string())), ids);
    assert_eq!(r.unwrap_err(), Error::InternalError("no".to_string()));
}

fn output() -> BuildOutput {
    BuildOutput {
        build_result: BuildResult { dependencies: vec![1, 2], cacheable: true },
        diagnostics: vec![],
    }
}

fn build_task() -> BuildTask {
    BuildTask {
        module: Module { identifier: 5, module_type: ModuleType::Css },
        current_profile: Some(ModuleProfile::new()),
    }
}

#[test]
fn build_with_valid_cache_asks_still_valid_then_notifies() {
    let started = build_task().begin();
    assert!(started.current_profile.unwrap().building_start);
    let run = match started.on_cache_result(Ok((Ok(output()), true))) {
        BuildTaskStep::CheckStillValid(run) => run,
        other => panic!("unexpected {:?}", other),
    };
    let run = match run.on_still_valid(Ok(())) {
        BuildTaskStep::NotifySucceeded(run) => run,
        other => panic!("unexpected {:?}", other),
    };
    assert!(run.current_profile.unwrap().building_end);
    match run.on_module_succeeded(Ok(())) {
        BuildTaskStep::Done(Ok(TaskResult::Build(b))) => {
            assert_eq!(b.module.identifier, 5);
            assert!(b.from_cache);
            assert_eq!(b.build_result.dependencies, vec![1, 2]);
        }
        other => panic!("unexpected {:?}", other),
    }
}

#[test]
fn build_without_cache_goes_straight_to_notification() {
    let started = build_task().begin();
    match started.on_cache_result(Ok((Ok(output()), false))) {
        BuildTaskStep::NotifySucceeded(run) => {
            assert!(!run.is_cache_valid);
            match run.on_module_succeeded(Err(Error::InternalError("hook".to_string()))) {
                BuildTaskStep::Abort(e) => assert_eq!(e, Error::InternalError("hook".to_string())),
                other => panic!("unexpected {:?}", other),
            }
        }
        other => panic!("unexpected {:?}", other),
    }
}

#[test]
fn failed_build_is_task_failure_and_cache_failure_aborts() {
    let started = build_task().begin();
    match started.on_cache_result(Ok((Err(Error::InternalError("syntax".to_string())), false))) {
        BuildTaskStep::Done(Err(e)) => assert_eq!(e, Error::InternalError("syntax".to_string())),
        other => panic!("unexpected {:?}", other),
    }
    let started = build_task().begin();
    match started.on_cache_result(Err(Error::InternalError("cache".to_string()))) {
        BuildTaskStep::Abort(e) => assert_eq!(e, Error::InternalError("cache".to_string())),
        other => panic!("unexpected {:?}", other),
    }
    let started = build_task().begin();
    let run = match started.on_cache_result(Ok((Ok(output()), true))) {
        BuildTaskStep::CheckStillValid(run) => run,
        other => panic!("unexpected {:?}", other),
    };
    match run.on_still_valid(Err(Error::InternalError("stale".to_string()))) {
        BuildTaskStep::Done(Err(e)) => assert_eq!(e, Error::InternalError("stale".to_string())),
        other => panic!("unexpected {:?}", other),
    }
}

#[test]
fn dependency_must_offer_the_interface_of_its_factory() {
    assert!(task(DependencyType::RequireContext, DependencyKind::Context, None, None).fits_factory());
    assert!(!task(DependencyType::RequireContext, DependencyKind::Module, None, None).fits_factory());
    assert!(task(DependencyType::EsmImport, DependencyKind::Module, None, None).fits_factory());
    assert!(!task(DependencyType::EsmImport, DependencyKind::Context, None, None).fits_factory());
    assert!(task(DependencyType::ContainerEntry, DependencyKind::Context, None, None).fits_factory());
    assert!(task(DependencyType::ProvideSharedModule, DependencyKind::Module, None, None).fits_factory());
}
