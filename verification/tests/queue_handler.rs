use rspack_queue::build_task::BuildTask;
use rspack_queue::module_graph::ModuleType;
use rspack_queue::queue::Module;
use rspack_queue::queue_handler::create_queue_handle;
use rspack_queue::queue_handler::subscription_task;
use rspack_queue::queue_handler::AddQueue;
use rspack_queue::queue_handler::BuildQueue;
use rspack_queue::queue_handler::FactorizeQueue;
use rspack_queue::queue_handler::ProcessDependenciesQueue;
use rspack_queue::queue_handler::QueueHandlerProcessor;
use rspack_queue::queue_handler::QueueTask;
use rspack_queue::queue_handler::TaskCategory;
use rspack_queue::queue_handler::WorkerQueue;

struct Queues {
    factorize: FactorizeQueue,
    add: AddQueue,
    build: BuildQueue,
    process_dependencies: ProcessDependenciesQueue,
}

fn queues() -> Queues {
    Queues {
        factorize: WorkerQueue::new(),
        add: WorkerQueue::new(),
        build: WorkerQueue::new(),
        process_dependencies: WorkerQueue::new(),
    }
}

fn process(p: &mut QueueHandlerProcessor, q: &mut Queues) -> Vec<(u64, u64)> {
    p.try_process(&mut q.factorize, &mut q.add, &mut q.build, &mut q.process_dependencies)
}

#[test]
fn nothing_to_process_when_channel_is_empty() {
    let (_handler, mut processor) = create_queue_handle();
    let mut q = queues();
    assert!(process(&mut processor, &mut q).is_empty());
    assert_eq!(q.factorize.len(), 0);
}

#[test]
fn waiting_subscription_runs_when_key_finishes() {
    let (handler, mut processor) = create_queue_handle();
    let mut q = queues();
    handler.wait_for("./a.js".to_string(), TaskCategory::Factorize, 1).unwrap();
    assert!(process(&mut processor, &mut q).is_empty());
    assert!(process(&mut processor, &mut q).is_empty());
    let fired = processor.flush_callback(TaskCategory::Factorize, "./a.js", 42);
    assert_eq!(fired, vec![1]);
}

#[test]
fn subscription_after_finish_is_due_at_once() {
    let (handler, mut processor) = create_queue_handle();
    let mut q = queues();
    assert!(processor.flush_callback(TaskCategory::Add, "k", 42).is_empty());
    handler.wait_for("k".to_string(), TaskCategory::Add, 2).unwrap();
    assert_eq!(process(&mut processor, &mut q), vec![(2, 42)]);
}

#[test]
fn waiting_callbacks_run_latest_first() {
    let (handler, mut processor) = create_queue_handle();
    let mut q = queues();
    for cb in [1u64, 2, 3] {
        handler.wait_for("k".to_string(), TaskCategory::Build, cb).unwrap();
        assert!(process(&mut processor, &mut q).is_empty());
    }
    assert_eq!(processor.flush_callback(TaskCategory::Build, "k", 7), vec![3, 2, 1]);
}

#[test]
fn second_flush_runs_nothing_and_keeps_last_module() {
    let (handler, mut processor) = create_queue_handle();
    let mut q = queues();
    handler.wait_for("k".to_string(), TaskCategory::Build, 1).unwrap();
    assert!(process(&mut processor, &mut q).is_empty());
    assert_eq!(processor.flush_callback(TaskCategory::Build, "k", 7), vec![1]);
    assert!(processor.flush_callback(TaskCategory::Build, "k", 8).is_empty());
    handler.wait_for("k".to_string(), TaskCategory::Build, 2).unwrap();
    assert_eq!(process(&mut processor, &mut q), vec![(2, 8)]);
}

#[test]
fn categories_are_independent() {
    let (handler, mut processor) = create_queue_handle();
    let mut q = queues();
    handler.wait_for("k".to_string(), TaskCategory::ProcessDependencies, 1).unwrap();
    assert!(process(&mut processor, &mut q).is_empty());
    assert!(processor.flush_callback(TaskCategory::Factorize, "k", 5).is_empty());
    handler.wait_for("k".to_string(), TaskCategory::Add, 2).unwrap();
    assert!(process(&mut processor, &mut q).is_empty());
    assert_eq!(processor.flush_callback(TaskCategory::ProcessDependencies, "k", 6), vec![1]);
    assert_eq!(processor.flush_callback(TaskCategory::Add, "k", 6), vec![2]);
}

#[test]
fn keys_are_independent() {
    let (handler, mut processor) = create_queue_handle();
    let mut q = queues();
    handler.wait_for("a".to_string(), TaskCategory::Add, 1).unwrap();
    handler.wait_for("b".to_string(), TaskCategory::Add, 2).unwrap();
    assert!(process(&mut processor, &mut q).is_empty());
    assert!(process(&mut processor, &mut q).is_empty());
    assert_eq!(processor.flush_callback(TaskCategory::Add, "b", 3), vec![2]);
    assert_eq!(processor.flush_callback(TaskCategory::Add, "a", 4), vec![1]);
}

#[test]
fn tasks_go_to_the_queue_of_their_kind() {
    let (_handler, mut processor) = create_queue_handle();
    let mut q = queues();
    let task = BuildTask {
        module: Module { identifier: 9, module_type: ModuleType::Css },
        current_profile: None,
    };
    let due = processor.dispatch(
        QueueTask::Build(Box::new(task)),
        &mut q.factorize,
        &mut q.add,
        &mut q.build,
        &mut q.process_dependencies,
    );
    assert_eq!(due, None);
    assert_eq!(q.build.len(), 1);
    assert_eq!(q.factorize.len(), 0);
    assert_eq!(q.add.len(), 0);
    assert_eq!(q.process_dependencies.len(), 0);
    let t = q.build.get_task().unwrap();
    assert_eq!(t.module.identifier, 9);
    assert!(q.build.get_task().is_none());
}

#[test]
fn worker_queue_is_first_in_first_out() {
    let mut queue: WorkerQueue<u32> = WorkerQueue::new();
    queue.add_task(1);
    queue.add_task(2);
    assert_eq!(queue.get_task(), Some(1));
    assert_eq!(queue.get_task(), Some(2));
    assert_eq!(queue.get_task(), None);
}

#[test]
fn wait_for_hands_back_subscription_when_processor_is_gone() {
    let (handler, processor) = create_queue_handle();
    drop(processor);
    let s = handler.wait_for("k".to_string(), TaskCategory::Factorize, 5).unwrap_err();
    assert_eq!(s.key, "k");
    assert_eq!(s.category, TaskCategory::Factorize);
    assert_eq!(s.callback, 5);
}

#[test]
fn processing_drains_the_channel_in_order() {
    let (handler, mut processor) = create_queue_handle();
    let mut q = queues();
    assert!(processor.flush_callback(TaskCategory::Factorize, "done", 11).is_empty());
    handler.wait_for("done".to_string(), TaskCategory::Factorize, 1).unwrap();
    handler.wait_for("pending".to_string(), TaskCategory::Factorize, 2).unwrap();
    handler.wait_for("done".to_string(), TaskCategory::Factorize, 3).unwrap();
    assert_eq!(process(&mut processor, &mut q), vec![(1, 11), (3, 11)]);
    assert!(process(&mut processor, &mut q).is_empty());
    assert_eq!(processor.flush_callback(TaskCategory::Factorize, "pending", 12), vec![2]);
}

#[test]
fn cloned_handler_reaches_the_same_processor() {
    let (handler, mut processor) = create_queue_handle();
    let mut q = queues();
    let other = handler.clone();
    other.wait_for("k".to_string(), TaskCategory::Build, 4).unwrap();
    assert!(process(&mut processor, &mut q).is_empty());
    assert_eq!(processor.flush_callback(TaskCategory::Build, "k", 1), vec![4]);
}

#[test]
fn subscription_task_carries_its_arguments() {
    match subscription_task("k".to_string(), TaskCategory::Add, 3) {
        QueueTask::Subscription(s) => {
            assert_eq!(s.key, "k");
            assert_eq!(s.category, TaskCategory::Add);
            assert_eq!(s.callback, 3);
        }
        other => panic!("unexpected {:?}", other),
    }
}
