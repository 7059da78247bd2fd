use rspack_queue::error::Error;
use rspack_queue::module_graph::Compilation;
use rspack_queue::module_graph::ModuleGraphConnection;
use rspack_queue::module_graph::ModuleGraphModule;
use rspack_queue::module_graph::ModuleType;
use rspack_queue::queue::AddTask;
use rspack_queue::queue::AddTaskResult;
use rspack_queue::queue::CleanTask;
use rspack_queue::queue::CleanTaskResult;
use rspack_queue::queue::Module;
use rspack_queue::queue::ModuleProfile;
use rspack_queue::queue::TaskResult;

fn module(id: u64) -> Module {
    Module { identifier: id, module_type: ModuleType::Js }
}

fn add_task(id: u64, deps: Vec<u32>, original: Option<u64>, is_entry: bool) -> AddTask {
    AddTask {
        original_module_identifier: original,
        module: module(id),
        module_graph_module: ModuleGraphModule::new(id, ModuleType::Js, id * 100),
        dependencies: deps,
        is_entry,
        current_profile: Some(ModuleProfile::new()),
        callback: Some(id + 1000),
    }
}

#[test]
fn add_task_adds_module_and_resolves_dependencies() {
    let mut compilation = Compilation::new();
    let (result, callback) = add_task(1, vec![5, 6], None, true).run(&mut compilation);
    assert_eq!(callback, Some(1001));
    match result {
        Ok(TaskResult::Add(b)) => match *b {
            AddTaskResult::ModuleAdded { module: m, current_profile } => {
                assert_eq!(m, module(1));
                let p = current_profile.unwrap();
                assert!(p.integration_start);
                assert!(p.integration_end);
                assert!(!p.factory_start);
            }
            other => panic!("unexpected {:?}", other),
        },
        other => panic!("unexpected {:?}", other),
    }
    let mgm = compilation.module_graph.module_graph_module_by_identifier(&1).unwrap();
    assert!(mgm.incoming_connections.contains(&5));
    assert!(mgm.incoming_connections.contains(&6));
    assert_eq!(
        compilation.module_graph.connection_by_dependency_id(&5),
        Some(ModuleGraphConnection {
            original_module_identifier: None,
            dependency_id: 5,
            module_identifier: 1
        })
    );
    assert!(compilation.entry_module_identifiers.contains(&1));
}

#[test]
fn add_task_reuses_module_already_in_graph() {
    let mut compilation = Compilation::new();
    let _ = add_task(1, vec![5], None, false).run(&mut compilation);
    let (result, callback) = add_task(1, vec![7], Some(9), true).run(&mut compilation);
    assert_eq!(callback, Some(1001));
    match result {
        Ok(TaskResult::Add(b)) => match *b {
            AddTaskResult::ModuleReused { module: m } => assert_eq!(m, module(1)),
            other => panic!("unexpected {:?}", other),
        },
        other => panic!("unexpected {:?}", other),
    }
    let mgm = compilation.module_graph.module_graph_module_by_identifier(&1).unwrap();
    assert!(mgm.incoming_connections.contains(&5));
    assert!(mgm.incoming_connections.contains(&7));
    assert!(!compilation.entry_module_identifiers.contains(&1));
}

#[test]
fn add_task_with_record_of_another_module_fails() {
    let mut compilation = Compilation::new();
    let mut task = add_task(1, vec![5], None, true);
    task.module_graph_module = ModuleGraphModule::new(2, ModuleType::Css, 200);
    let (result, callback) = task.run(&mut compilation);
    assert_eq!(result.unwrap_err(), Error::ModuleNotFound(1));
    assert_eq!(callback, None);
    assert!(compilation.module_graph.module_graph_module_by_identifier(&2).is_some());
    assert!(compilation.module_graph.module_graph_module_by_identifier(&1).is_none());
    assert!(!compilation.entry_module_identifiers.contains(&1));
}

#[test]
fn add_task_with_record_of_another_module_and_no_dependencies_succeeds() {
    let mut compilation = Compilation::new();
    let mut task = add_task(1, vec![], None, true);
    task.module_graph_module = ModuleGraphModule::new(2, ModuleType::Css, 200);
    let (result, callback) = task.run(&mut compilation);
    assert!(matches!(result, Ok(TaskResult::Add(_))));
    assert_eq!(callback, Some(1001));
    assert!(compilation.entry_module_identifiers.contains(&1));
}

#[test]
fn clean_task_of_missing_module_reports_cleaned() {
    let mut compilation = Compilation::new();
    match (CleanTask { module_identifier: 3 }).run(&mut compilation) {
        CleanTaskResult::ModuleIsCleaned { module_identifier, dependent_module_identifiers } => {
            assert_eq!(module_identifier, 3);
            assert!(dependent_module_identifiers.is_empty());
        }
        other => panic!("unexpected {:?}", other),
    }
}

#[test]
fn clean_task_keeps_used_module() {
    let mut compilation = Compilation::new();
    let _ = add_task(1, vec![5], None, true).run(&mut compilation);
    match (CleanTask { module_identifier: 1 }).run(&mut compilation) {
        CleanTaskResult::ModuleIsUsed { module_identifier } => assert_eq!(module_identifier, 1),
        other => panic!("unexpected {:?}", other),
    }
    assert!(compilation.module_graph.module_graph_module_by_identifier(&1).is_some());
}

#[test]
fn clean_task_removes_module_and_lists_what_it_depended_on() {
    let mut compilation = Compilation::new();
    let mut root = add_task(1, vec![], None, false);
    root.module_graph_module.dependencies = vec![10, 11, 12];
    let _ = root.run(&mut compilation);
    let _ = add_task(2, vec![10], Some(1), false).run(&mut compilation);
    let _ = add_task(3, vec![11], Some(1), false).run(&mut compilation);
    match (CleanTask { module_identifier: 1 }).run(&mut compilation) {
        CleanTaskResult::ModuleIsCleaned { module_identifier, dependent_module_identifiers } => {
            assert_eq!(module_identifier, 1);
            assert_eq!(dependent_module_identifiers, vec![2, 3]);
        }
        other => panic!("unexpected {:?}", other),
    }
    assert!(compilation.module_graph.module_graph_module_by_identifier(&1).is_none());
    assert_eq!(compilation.module_graph.connection_by_dependency_id(&10), None);
    let b = compilation.module_graph.module_graph_module_by_identifier(&2).unwrap();
    assert!(b.incoming_connections.is_empty());
    match (CleanTask { module_identifier: 2 }).run(&mut compilation) {
        CleanTaskResult::ModuleIsCleaned { module_identifier, .. } => assert_eq!(module_identifier, 2),
        other => panic!("unexpected {:?}", other),
    }
    match (CleanTask { module_identifier: 1 }).run(&mut compilation) {
        CleanTaskResult::ModuleIsCleaned { dependent_module_identifiers, .. } => {
            assert!(dependent_module_identifiers.is_empty())
        }
        other => panic!("unexpected {:?}", other),
    }
}

#[test]
fn resolving_to_missing_module_fails_without_change() {
    let mut compilation = Compilation::new();
    let r = compilation.module_graph.set_resolved_module(None, 4, 8);
    assert_eq!(r, Err(Error::ModuleNotFound(8)));
    assert_eq!(compilation.module_graph.connection_by_dependency_id(&4), None);
}

#[test]
fn resolving_records_outgoing_connection_of_origin() {
    let mut compilation = Compilation::new();
    compilation.module_graph.add_module_graph_module(ModuleGraphModule::new(1, ModuleType::Js, 1));
    compilation.module_graph.add_module_graph_module(ModuleGraphModule::new(2, ModuleType::Js, 2));
    compilation.module_graph.set_resolved_module(Some(1), 4, 2).unwrap();
    let a = compilation.module_graph.module_graph_module_by_identifier(&1).unwrap();
    assert_eq!(a.outgoing_connections, vec![4]);
    let mut deps = ModuleGraphModule::new(1, ModuleType::Js, 1);
    deps.dependencies = vec![4, 5];
    compilation.module_graph.add_module_graph_module(deps);
    let a = compilation.module_graph.module_graph_module_by_identifier(&1).unwrap();
    assert!(a.dependencies.is_empty());
    assert_eq!(compilation.module_graph.get_module_all_depended_modules(&1), Some(vec![]));
    assert_eq!(compilation.module_graph.get_module_all_depended_modules(&9), None);
}

fn assert_consistent(compilation: &Compilation, modules: &[u64], dependencies: &[u32]) {
    let g = &compilation.module_graph;
    for d in dependencies {
        if let Some(c) = g.connection_by_dependency_id(d) {
            let target = g.module_graph_module_by_identifier(&c.module_identifier).unwrap();
            assert!(target.incoming_connections.contains(d));
        }
    }
    for m in modules {
        if let Some(mgm) = g.module_graph_module_by_identifier(m) {
            for d in mgm.incoming_connections.iter() {
                assert_eq!(g.connection_by_dependency_id(d).unwrap().module_identifier, *m);
            }
        }
    }
}

#[test]
fn adding_and_cleaning_keep_the_graph_consistent() {
    let mut compilation = Compilation::new();
    let modules = [1u64, 2, 3];
    let dependencies = [11u32, 12, 13];
    let _ = add_task(1, vec![], None, true).run(&mut compilation);
    assert_consistent(&compilation, &modules, &dependencies);
    let _ = add_task(2, vec![11, 12], Some(1), false).run(&mut compilation);
    assert_consistent(&compilation, &modules, &dependencies);
    let _ = add_task(3, vec![13], Some(2), false).run(&mut compilation);
    assert_consistent(&compilation, &modules, &dependencies);
    match (CleanTask { module_identifier: 2 }).run(&mut compilation) {
        CleanTaskResult::ModuleIsUsed { module_identifier } => assert_eq!(module_identifier, 2),
        other => panic!("unexpected {:?}", other),
    }
    assert_consistent(&compilation, &modules, &dependencies);
    let _ = (CleanTask { module_identifier: 1 }).run(&mut compilation);
    assert_consistent(&compilation, &modules, &dependencies);
    assert!(compilation.module_graph.module_graph_module_by_identifier(&1).is_none());
    let _ = (CleanTask { module_identifier: 2 }).run(&mut compilation);
    assert_consistent(&compilation, &modules, &dependencies);
    assert!(compilation.module_graph.module_graph_module_by_identifier(&2).is_none());
    let three = compilation.module_graph.module_graph_module_by_identifier(&3).unwrap();
    assert!(three.incoming_connections.is_empty());
}

#[test]
fn added_module_is_reused_and_used_until_its_connections_go() {
    let mut compilation = Compilation::new();
    let _ = add_task(1, vec![], None, false).run(&mut compilation);
    let _ = add_task(2, vec![20], Some(1), false).run(&mut compilation);
    let _ = add_task(3, vec![30], Some(1), false).run(&mut compilation);
    let (result, _) = add_task(2, vec![21], Some(3), true).run(&mut compilation);
    match result {
        Ok(TaskResult::Add(b)) => assert!(matches!(*b, AddTaskResult::ModuleReused { .. })),
        other => panic!("unexpected {:?}", other),
    }
    assert!(!compilation.entry_module_identifiers.contains(&2));
    let mgm = compilation.module_graph.module_graph_module_by_identifier(&2).unwrap();
    assert_eq!(mgm.exports, 200);
    match (CleanTask { module_identifier: 3 }).run(&mut compilation) {
        CleanTaskResult::ModuleIsUsed { module_identifier } => assert_eq!(module_identifier, 3),
        other => panic!("unexpected {:?}", other),
    }
    match (CleanTask { module_identifier: 2 }).run(&mut compilation) {
        CleanTaskResult::ModuleIsUsed { module_identifier } => assert_eq!(module_identifier, 2),
        other => panic!("unexpected {:?}", other),
    }
    let _ = (CleanTask { module_identifier: 1 }).run(&mut compilation);
    let _ = (CleanTask { module_identifier: 3 }).run(&mut compilation);
    match (CleanTask { module_identifier: 2 }).run(&mut compilation) {
        CleanTaskResult::ModuleIsCleaned { module_identifier, .. } => assert_eq!(module_identifier, 2),
        other => panic!("unexpected {:?}", other),
    }
}
