//! The queue handler: callers send tasks and subscriptions through it, and
//! its processor puts tasks into the compilation's queues and keeps, per
//! task category and key, the callbacks that wait for a task to finish and
//! the modules of the tasks that have finished.

use rustc_hash::FxHashMap;
use std::collections::VecDeque;
use tokio::sync::mpsc::UnboundedReceiver;
use tokio::sync::mpsc::UnboundedSender;
use vstd::prelude::*;

use crate::build_task::BuildTask;
use crate::channel::new_task_channel;
use crate::channel::send_task;
use crate::channel::try_receive_task;
use crate::factorize::FactorizeTask;
use crate::fx_map::callback_lists;
use crate::fx_map::CallbackListsView;
use crate::fx_map::FinishedModulesView;
use crate::fx_map::callback_lists_insert;
use crate::fx_map::callback_lists_remove;
use crate::fx_map::finished_modules;
use crate::fx_map::finished_modules_get;
use crate::fx_map::finished_modules_insert;
use crate::fx_map::new_callback_lists;
use crate::fx_map::new_finished_modules;
use crate::ids::CallbackHandle;
use crate::ids::ModuleIdentifier;
use crate::queue::AddTask;
use crate::queue::ProcessDependenciesTask;

verus! {

/// A callback that waits for a task to finish; it runs with the finished
/// task's module and the compilation. The library hands the handle back
/// when the callback is due; the caller keeps the callback itself.
pub type QueueHandleCallback = CallbackHandle;

/// The categories of tasks that can be waited for.
#[derive(Debug, Copy, Clone, PartialEq, Eq, Structural)]
pub enum TaskCategory {
    Factorize,
    Add,
    Build,
    ProcessDependencies,
}

/// A request to run `callback` once the task of `category` known by `key`
/// has finished.
#[derive(Debug)]
pub struct Subscription {
    pub category: TaskCategory,
    pub key: String,
    pub callback: QueueHandleCallback,
}

/// What travels to the queue handler's processor.
#[derive(Debug)]
pub enum QueueTask {
    Factorize(Box<FactorizeTask>),
    Add(Box<AddTask>),
    Build(Box<BuildTask>),
    ProcessDependencies(Box<ProcessDependenciesTask>),
    Subscription(Box<Subscription>),
}

/// A queue of tasks of one kind, first in, first out.
#[derive(Debug)]
pub struct WorkerQueue<T> {
    inner: VecDeque<T>,
}

impl<T> View for WorkerQueue<T> {
    type V = Seq<T>;

    closed spec fn view(&self) -> Seq<T> {
        self.inner@
    }
}

impl<T> WorkerQueue<T> {
    /// An empty queue.
    pub fn new() -> (q: Self)
        ensures
            q@ == Seq::<T>::empty(),
    {
        WorkerQueue { inner: VecDeque::new() }
    }

    /// Puts `task` at the back of the queue.
    pub fn add_task(&mut self, task: T)
        ensures
            final(self)@ == old(self)@.push(task),
    {
        self.inner.push_back(task);
    }

    /// Takes the task at the front of the queue, if there is one.
    pub fn get_task(&mut self) -> (r: Option<T>)
        ensures
            old(self)@.len() == 0 ==> r is None && final(self)@ == old(self)@,
            old(self)@.len() > 0 ==> r == Some(old(self)@[0]) && final(self)@ == old(
                self,
            )@.drop_first(),
    {
        self.inner.pop_front()
    }

    /// The number of tasks in the queue.
    pub fn len(&self) -> (n: usize)
        ensures
            n == self@.len(),
    {
        self.inner.len()
    }
}

pub type FactorizeQueue = WorkerQueue<FactorizeTask>;

pub type AddQueue = WorkerQueue<AddTask>;

pub type BuildQueue = WorkerQueue<BuildTask>;

pub type ProcessDependenciesQueue = WorkerQueue<ProcessDependenciesTask>;

/// The handle through which callers reach the queue handler's processor.
/// Copies of it reach the same processor.
#[derive(Debug, Clone)]
pub struct QueueHandler {
    sender: UnboundedSender<QueueTask>,
}

/// The task that asks the processor to run `callback` once the task of
/// `category` known by `key` has finished.
pub fn subscription_task(key: String, category: TaskCategory, callback: QueueHandleCallback) -> (t:
    QueueTask)
    ensures
        t matches QueueTask::Subscription(s) && s.category == category && s.key@ == key@
            && s.callback == callback,
{
    QueueTask::Subscription(Box::new(Subscription { category, key, callback }))
}

impl QueueHandler {
    /// Sends the processor the task made by [`subscription_task`] from the
    /// arguments. Where the processor is gone, the subscription comes back
    /// unchanged.
    pub fn wait_for(&self, key: String, category: TaskCategory, callback: QueueHandleCallback) -> (r:
        Result<(), Subscription>)
        ensures
            r matches Err(s) ==> s.category == category && s.key@ == key@ && s.callback
                == callback,
    {
        let task = subscription_task(key, category, callback);
        match send_task(&self.sender, task) {
            Ok(()) => Ok(()),
            Err(QueueTask::Subscription(s)) => Err(*s),
            Err(_) => vstd::pervasive::unreached(),
        }
    }
}

/// The callbacks waiting on a key with `callback` added after them.
pub open spec fn with_waiting(
    waiting: Map<Seq<char>, Seq<QueueHandleCallback>>,
    key: Seq<char>,
    callback: QueueHandleCallback,
) -> Map<Seq<char>, Seq<QueueHandleCallback>> {
    let before = if waiting.contains_key(key) {
        waiting[key]
    } else {
        Seq::empty()
    };
    waiting.insert(key, before.push(callback))
}

/// The receiving end of the queue handler: it dispatches tasks to the
/// queues, and its table keeps the subscriptions.
#[derive(Debug)]
pub struct QueueHandlerProcessor {
    receiver: UnboundedReceiver<QueueTask>,
    table: SubscriptionTable,
}

/// Per task category, the callbacks that wait on a key and the module that
/// each finished key produced.
#[derive(Debug)]
pub struct SubscriptionTable {
    factorize_callbacks: FxHashMap<String, Vec<QueueHandleCallback>>,
    add_callbacks: FxHashMap<String, Vec<QueueHandleCallback>>,
    build_callbacks: FxHashMap<String, Vec<QueueHandleCallback>>,
    process_dependencies_callbacks: FxHashMap<String, Vec<QueueHandleCallback>>,
    factorize_finished: FxHashMap<String, ModuleIdentifier>,
    add_finished: FxHashMap<String, ModuleIdentifier>,
    build_finished: FxHashMap<String, ModuleIdentifier>,
    process_dependencies_finished: FxHashMap<String, ModuleIdentifier>,
}

impl SubscriptionTable {
    /// The callbacks that wait, per key, on tasks of `category`, in the order
    /// in which they came.
    pub closed spec fn callbacks(&self, category: TaskCategory) -> Map<
        Seq<char>,
        Seq<QueueHandleCallback>,
    > {
        match category {
            TaskCategory::Factorize => callback_lists(self.factorize_callbacks),
            TaskCategory::Add => callback_lists(self.add_callbacks),
            TaskCategory::Build => callback_lists(self.build_callbacks),
            TaskCategory::ProcessDependencies => callback_lists(self.process_dependencies_callbacks),
        }
    }

    /// The module of each finished key of `category`.
    pub closed spec fn finished(&self, category: TaskCategory) -> Map<Seq<char>, ModuleIdentifier> {
        match category {
            TaskCategory::Factorize => finished_modules(self.factorize_finished),
            TaskCategory::Add => finished_modules(self.add_finished),
            TaskCategory::Build => finished_modules(self.build_finished),
            TaskCategory::ProcessDependencies => finished_modules(
                self.process_dependencies_finished,
            ),
        }
    }

    /// Whether `post` holds what `pre` holds in `category`.
    pub open spec fn same_in(
        pre: &SubscriptionTable,
        post: &SubscriptionTable,
        category: TaskCategory,
    ) -> bool {
        post.callbacks(category) == pre.callbacks(category) && post.finished(category)
            == pre.finished(category)
    }

    /// Whether `post` holds what `pre` holds in every category but
    /// `category`.
    pub open spec fn same_outside(
        pre: &SubscriptionTable,
        post: &SubscriptionTable,
        category: TaskCategory,
    ) -> bool {
        &&& category != TaskCategory::Factorize ==> SubscriptionTable::same_in(
            pre,
            post,
            TaskCategory::Factorize,
        )
        &&& category != TaskCategory::Add ==> SubscriptionTable::same_in(
            pre,
            post,
            TaskCategory::Add,
        )
        &&& category != TaskCategory::Build ==> SubscriptionTable::same_in(
            pre,
            post,
            TaskCategory::Build,
        )
        &&& category != TaskCategory::ProcessDependencies ==> SubscriptionTable::same_in(
            pre,
            post,
            TaskCategory::ProcessDependencies,
        )
    }

    /// Whether `post` holds what `pre` holds in every category.
    pub open spec fn same_everywhere(pre: &SubscriptionTable, post: &SubscriptionTable) -> bool {
        &&& SubscriptionTable::same_in(pre, post, TaskCategory::Factorize)
        &&& SubscriptionTable::same_in(pre, post, TaskCategory::Add)
        &&& SubscriptionTable::same_in(pre, post, TaskCategory::Build)
        &&& SubscriptionTable::same_in(pre, post, TaskCategory::ProcessDependencies)
    }

    fn take_callbacks(&mut self, category: TaskCategory, key: &str) -> (r: Option<
        Vec<QueueHandleCallback>,
    >)
        ensures
            SubscriptionTable::same_outside(&*old(self), &*final(self), category),
            final(self).finished(category) == old(self).finished(category),
            final(self).callbacks(category) == old(self).callbacks(category).remove(key@),
            match r {
                Some(v) => old(self).callbacks(category).contains_key(key@) && v@ == old(
                    self,
                ).callbacks(category)[key@],
                None => !old(self).callbacks(category).contains_key(key@),
            },
    {
        match category {
            TaskCategory::Factorize => callback_lists_remove(&mut self.factorize_callbacks, key),
            TaskCategory::Add => callback_lists_remove(&mut self.add_callbacks, key),
            TaskCategory::Build => callback_lists_remove(&mut self.build_callbacks, key),
            TaskCategory::ProcessDependencies => callback_lists_remove(
                &mut self.process_dependencies_callbacks,
                key,
            ),
        }
    }

    fn put_callbacks(
        &mut self,
        category: TaskCategory,
        key: String,
        callbacks: Vec<QueueHandleCallback>,
    )
        ensures
            SubscriptionTable::same_outside(&*old(self), &*final(self), category),
            final(self).finished(category) == old(self).finished(category),
            final(self).callbacks(category) == old(self).callbacks(category).insert(
                key@,
                callbacks@,
            ),
    {
        match category {
            TaskCategory::Factorize => callback_lists_insert(
                &mut self.factorize_callbacks,
                key,
                callbacks,
            ),
            TaskCategory::Add => callback_lists_insert(&mut self.add_callbacks, key, callbacks),
            TaskCategory::Build => callback_lists_insert(&mut self.build_callbacks, key, callbacks),
            TaskCategory::ProcessDependencies => callback_lists_insert(
                &mut self.process_dependencies_callbacks,
                key,
                callbacks,
            ),
        }
    }

    fn finished_module(&self, category: TaskCategory, key: &str) -> (r: Option<ModuleIdentifier>)
        ensures
            match r {
                Some(m) => self.finished(category).contains_key(key@) && m == self.finished(
                    category,
                )[key@],
                None => !self.finished(category).contains_key(key@),
            },
    {
        match category {
            TaskCategory::Factorize => finished_modules_get(&self.factorize_finished, key),
            TaskCategory::Add => finished_modules_get(&self.add_finished, key),
            TaskCategory::Build => finished_modules_get(&self.build_finished, key),
            TaskCategory::ProcessDependencies => finished_modules_get(
                &self.process_dependencies_finished,
                key,
            ),
        }
    }

    fn record_finished(&mut self, category: TaskCategory, key: String, module: ModuleIdentifier)
        ensures
            SubscriptionTable::same_outside(&*old(self), &*final(self), category),
            final(self).callbacks(category) == old(self).callbacks(category),
            final(self).finished(category) == old(self).finished(category).insert(key@, module),
    {
        match category {
            TaskCategory::Factorize => finished_modules_insert(
                &mut self.factorize_finished,
                key,
                module,
            ),
            TaskCategory::Add => finished_modules_insert(&mut self.add_finished, key, module),
            TaskCategory::Build => finished_modules_insert(&mut self.build_finished, key, module),
            TaskCategory::ProcessDependencies => finished_modules_insert(
                &mut self.process_dependencies_finished,
                key,
                module,
            ),
        }
    }

    /// Whether `post` is `pre` after `subscription` was handled, with `due`
    /// the callback to run now and the module to run it with: where the
    /// key has finished, the callback is due with the key's module; else it
    /// joins the callbacks that wait on the key.
    pub open spec fn subscribed(
        pre: &SubscriptionTable,
        post: &SubscriptionTable,
        subscription: Subscription,
        due: Option<(QueueHandleCallback, ModuleIdentifier)>,
    ) -> bool {
        let c = subscription.category;
        let key = subscription.key@;
        &&& SubscriptionTable::same_outside(pre, post, c)
        &&& post.finished(c) == pre.finished(c)
        &&& if pre.finished(c).contains_key(key) {
            &&& due == Some((subscription.callback, pre.finished(c)[key]))
            &&& post.callbacks(c) == pre.callbacks(c)
        } else {
            &&& due is None
            &&& post.callbacks(c) == with_waiting(pre.callbacks(c), key, subscription.callback)
        }
    }

    /// Handles a subscription (see [`SubscriptionTable::subscribed`]).
    pub fn subscribe(&mut self, subscription: Subscription) -> (due: Option<
        (QueueHandleCallback, ModuleIdentifier),
    >)
        ensures
            SubscriptionTable::subscribed(&*old(self), &*final(self), subscription, due),
    {
        let Subscription { category, key, callback } = subscription;
        if let Some(module) = self.finished_module(category, key.as_str()) {
            return Some((callback, module));
        }
        let ghost k = key@;
        let ghost s0 = *self;
        let taken = self.take_callbacks(category, key.as_str());
        let ghost s1 = *self;
        let mut waiting = match taken {
            Some(v) => v,
            None => Vec::new(),
        };
        waiting.push(callback);
        self.put_callbacks(category, key, waiting);
        proof {
            assert(self.callbacks(category) =~= with_waiting(
                old(self).callbacks(category),
                k,
                callback,
            ));
        }
        None
    }

    /// Whether the processor and the queues went from `pre` to `post` by
    /// handling `task`, with `due` the callback to run now: a task joins the
    /// back of the queue of its kind, and a subscription is handled as
    /// [`SubscriptionTable::subscribed`] says.
    pub open spec fn dispatched(
        pre: &SubscriptionTable,
        post: &SubscriptionTable,
        queues_pre: (Seq<FactorizeTask>, Seq<AddTask>, Seq<BuildTask>, Seq<ProcessDependenciesTask>),
        queues_post: (Seq<FactorizeTask>, Seq<AddTask>, Seq<BuildTask>, Seq<ProcessDependenciesTask>),
        task: QueueTask,
        due: Option<(QueueHandleCallback, ModuleIdentifier)>,
    ) -> bool {
        match task {
            QueueTask::Subscription(s) => queues_post == queues_pre
                && SubscriptionTable::subscribed(pre, post, *s, due),
            _ => {
                &&& due is None
                &&& SubscriptionTable::same_everywhere(pre, post)
                &&& queues_post == match task {
                    QueueTask::Factorize(t) => (
                        queues_pre.0.push(*t),
                        queues_pre.1,
                        queues_pre.2,
                        queues_pre.3,
                    ),
                    QueueTask::Add(t) => (
                        queues_pre.0,
                        queues_pre.1.push(*t),
                        queues_pre.2,
                        queues_pre.3,
                    ),
                    QueueTask::Build(t) => (
                        queues_pre.0,
                        queues_pre.1,
                        queues_pre.2.push(*t),
                        queues_pre.3,
                    ),
                    QueueTask::ProcessDependencies(t) => (
                        queues_pre.0,
                        queues_pre.1,
                        queues_pre.2,
                        queues_pre.3.push(*t),
                    ),
                    QueueTask::Subscription(_) => queues_pre,
                }
            },
        }
    }

    /// Whether the table and the queues went from `pre` to `post` by
    /// handling some task, with `due` the callback to run now.
    pub open spec fn dispatched_some_task(
        pre: &SubscriptionTable,
        post: &SubscriptionTable,
        queues_pre: (Seq<FactorizeTask>, Seq<AddTask>, Seq<BuildTask>, Seq<ProcessDependenciesTask>),
        queues_post: (Seq<FactorizeTask>, Seq<AddTask>, Seq<BuildTask>, Seq<ProcessDependenciesTask>),
        due: Option<(QueueHandleCallback, ModuleIdentifier)>,
    ) -> bool {
        exists|task: QueueTask|
            SubscriptionTable::dispatched(pre, post, queues_pre, queues_post, task, due)
    }

    /// Handles one task (see [`SubscriptionTable::dispatched`]).
    pub fn dispatch(
        &mut self,
        task: QueueTask,
        factorize_queue: &mut FactorizeQueue,
        add_queue: &mut AddQueue,
        build_queue: &mut BuildQueue,
        process_dependencies_queue: &mut ProcessDependenciesQueue,
    ) -> (due: Option<(QueueHandleCallback, ModuleIdentifier)>)
        ensures
            SubscriptionTable::dispatched(
                &*old(self),
                &*final(self),
                (old(factorize_queue)@, old(add_queue)@, old(build_queue)@, old(process_dependencies_queue)@),
                (final(factorize_queue)@, final(add_queue)@, final(build_queue)@, final(process_dependencies_queue)@),
                task,
                due,
            ),
    {
        match task {
            QueueTask::Factorize(t) => {
                factorize_queue.add_task(*t);
                None
            },
            QueueTask::Add(t) => {
                add_queue.add_task(*t);
                None
            },
            QueueTask::Build(t) => {
                build_queue.add_task(*t);
                None
            },
            QueueTask::ProcessDependencies(t) => {
                process_dependencies_queue.add_task(*t);
                None
            },
            QueueTask::Subscription(s) => self.subscribe(*s),
        }
    }

    /// Whether `post` is `pre` after the task of `category` known by `key`
    /// finished with `module`, with `fired` the callbacks that are due now:
    /// the key's module is recorded; the callbacks that waited on the key are
    /// due, latest first, and none is left waiting on it.
    pub open spec fn flushed(
        pre: &SubscriptionTable,
        post: &SubscriptionTable,
        category: TaskCategory,
        key: Seq<char>,
        module: ModuleIdentifier,
        fired: Seq<QueueHandleCallback>,
    ) -> bool {
        &&& SubscriptionTable::same_outside(pre, post, category)
        &&& post.finished(category) == pre.finished(category).insert(key, module)
        &&& if pre.callbacks(category).contains_key(key) {
            &&& post.callbacks(category) == pre.callbacks(category).insert(key, Seq::empty())
            &&& fired == pre.callbacks(category)[key].reverse()
        } else {
            &&& post.callbacks(category) == pre.callbacks(category)
            &&& fired.len() == 0
        }
    }

    /// Records that the task of `category` known by `key` finished with
    /// `module`, and hands back the callbacks that waited on it, latest
    /// first; they are due now with `module`. No callback is left waiting on
    /// the key.
    pub fn flush_callback(
        &mut self,
        category: TaskCategory,
        key: &str,
        module: ModuleIdentifier,
    ) -> (fired: Vec<QueueHandleCallback>)
        ensures
            SubscriptionTable::flushed(&*old(self), &*final(self), category, key@, module, fired@),
    {
        self.record_finished(category, String::from_str(key), module);
        let mut fired: Vec<QueueHandleCallback> = Vec::new();
        let taken = self.take_callbacks(category, key);
        if let Some(mut waiting) = taken {
            let ghost all = waiting@;
            while waiting.len() > 0
                invariant
                    all.reverse() == fired@ + waiting@.reverse(),
                decreases waiting@.len(),
            {
                let ghost w = waiting@;
                let cb = waiting.pop().unwrap();
                proof {
                    assert(w.reverse() =~= seq![cb] + waiting@.reverse());
                }
                fired.push(cb);
                proof {
                    assert(all.reverse() =~= fired@ + waiting@.reverse());
                }
            }
            proof {
                assert(waiting@ =~= Seq::<QueueHandleCallback>::empty());
                assert(waiting@.reverse() =~= Seq::<QueueHandleCallback>::empty());
                assert(all.reverse() =~= fired@);
            }
            self.put_callbacks(category, String::from_str(key), waiting);
            proof {
                assert(self.callbacks(category) =~= old(self).callbacks(category).insert(
                    key@,
                    Seq::empty(),
                ));
            }
        } else {
            proof {
                assert(self.callbacks(category) =~= old(self).callbacks(category));
            }
        }
        fired
    }
}

/// The contents of the four queues: factorize, add, build and process
/// dependencies.
pub type QueuesView = (Seq<FactorizeTask>, Seq<AddTask>, Seq<BuildTask>, Seq<ProcessDependenciesTask>);

/// The callbacks that became due, in order, over a run of handled tasks.
pub open spec fn due_callbacks(
    dues: Seq<Option<(QueueHandleCallback, ModuleIdentifier)>>,
) -> Seq<(QueueHandleCallback, ModuleIdentifier)>
    decreases dues.len(),
{
    if dues.len() == 0 {
        Seq::empty()
    } else {
        let before = due_callbacks(dues.drop_last());
        match dues.last() {
            Some(d) => before.push(d),
            None => before,
        }
    }
}

/// Whether `tables` and `queues` went, step by step, through one handled
/// task per step, with `dues[i]` the callback that step `i` made due.
pub open spec fn processed_in_steps(
    tables: Seq<SubscriptionTable>,
    queues: Seq<QueuesView>,
    dues: Seq<Option<(QueueHandleCallback, ModuleIdentifier)>>,
) -> bool {
    &&& tables.len() == dues.len() + 1
    &&& queues.len() == dues.len() + 1
    &&& forall|i: int|
        0 <= i < dues.len() ==> #[trigger] SubscriptionTable::dispatched_some_task(
            &tables[i],
            &tables[i + 1],
            queues[i],
            queues[i + 1],
            dues[i],
        )
}

impl QueueHandlerProcessor {
    /// The processor's subscriptions.
    pub closed spec fn table(&self) -> SubscriptionTable {
        self.table
    }

    /// Takes the tasks that are in the channel, one after the other, and
    /// handles each as [`SubscriptionTable::dispatched`] says; it stops
    /// where the channel has nothing more (or after `u64::MAX` tasks). The
    /// result holds the callbacks that became due, in the order in which
    /// they did, each with the module to run it with. Which tasks come, and
    /// how many, depends on the senders; whatever they are, the tables and
    /// the queues went from their state before to their state after through
    /// one handled task per step.
    pub fn try_process(
        &mut self,
        factorize_queue: &mut FactorizeQueue,
        add_queue: &mut AddQueue,
        build_queue: &mut BuildQueue,
        process_dependencies_queue: &mut ProcessDependenciesQueue,
    ) -> (r: Vec<(QueueHandleCallback, ModuleIdentifier)>)
        ensures
            exists|tables: Seq<SubscriptionTable>, queues: Seq<QueuesView>, dues: Seq<Option<(QueueHandleCallback, ModuleIdentifier)>>|
                {
                    &&& processed_in_steps(tables, queues, dues)
                    &&& tables[0] == old(self).table()
                    &&& tables.last() == final(self).table()
                    &&& queues[0] == (old(factorize_queue)@, old(add_queue)@, old(build_queue)@, old(process_dependencies_queue)@)
                    &&& queues.last() == (final(factorize_queue)@, final(add_queue)@, final(build_queue)@, final(process_dependencies_queue)@)
                    &&& r@ == due_callbacks(dues)
                },
    {
        let ghost mut tables: Seq<SubscriptionTable> = seq![self.table];
        let ghost mut queues: Seq<QueuesView> = seq![
            (factorize_queue@, add_queue@, build_queue@, process_dependencies_queue@),
        ];
        let ghost mut dues: Seq<Option<(QueueHandleCallback, ModuleIdentifier)>> = Seq::empty();
        let mut due_now: Vec<(QueueHandleCallback, ModuleIdentifier)> = Vec::new();
        let mut budget: u64 = u64::MAX;
        let mut drained: bool = false;
        while budget > 0 && !drained
            invariant
                processed_in_steps(tables, queues, dues),
                tables[0] == old(self).table(),
                tables.last() == self.table(),
                queues[0] == (old(factorize_queue)@, old(add_queue)@, old(build_queue)@, old(process_dependencies_queue)@),
                queues.last() == (factorize_queue@, add_queue@, build_queue@, process_dependencies_queue@),
                due_now@ == due_callbacks(dues),
            decreases budget,
        {
            budget = budget - 1;
            let received = try_receive_task(&mut self.receiver);
            match received {
                None => {
                    drained = true;
                },
                Some(task) => {
                    let ghost t = task;
                    let ghost pre = self.table;
                    let ghost queues_pre = (factorize_queue@, add_queue@, build_queue@, process_dependencies_queue@);
                    let due = self.table.dispatch(
                        task,
                        factorize_queue,
                        add_queue,
                        build_queue,
                        process_dependencies_queue,
                    );
                    let ghost queues_post = (factorize_queue@, add_queue@, build_queue@, process_dependencies_queue@);
                    assert(SubscriptionTable::dispatched(&pre, &self.table, queues_pre, queues_post, t, due));
                    assert(SubscriptionTable::dispatched_some_task(&pre, &self.table, queues_pre, queues_post, due));
                    match due {
                        Some(d) => due_now.push(d),
                        None => {},
                    }
                    proof {
                        let ghost old_dues = dues;
                        let ghost old_tables = tables;
                        let ghost old_queues = queues;
                        tables = tables.push(self.table);
                        queues = queues.push(queues_post);
                        dues = dues.push(due);
                        assert(dues.drop_last() =~= old_dues);
                        assert forall|i: int| 0 <= i < dues.len() implies #[trigger] SubscriptionTable::dispatched_some_task(
                            &tables[i],
                            &tables[i + 1],
                            queues[i],
                            queues[i + 1],
                            dues[i],
                        ) by {
                            if i < old_dues.len() {
                                assert(tables[i] == old_tables[i]);
                                assert(tables[i + 1] == old_tables[i + 1]);
                                assert(queues[i] == old_queues[i]);
                                assert(queues[i + 1] == old_queues[i + 1]);
                                assert(dues[i] == old_dues[i]);
                            }
                        }
                    }
                },
            }
        }
        proof {
            assert(processed_in_steps(tables, queues, dues));
        }
        due_now
    }

    /// Handles one task as the processor does with what the channel brings
    /// (see [`SubscriptionTable::dispatched`]).
    pub fn dispatch(
        &mut self,
        task: QueueTask,
        factorize_queue: &mut FactorizeQueue,
        add_queue: &mut AddQueue,
        build_queue: &mut BuildQueue,
        process_dependencies_queue: &mut ProcessDependenciesQueue,
    ) -> (due: Option<(QueueHandleCallback, ModuleIdentifier)>)
        ensures
            SubscriptionTable::dispatched(
                &old(self).table(),
                &final(self).table(),
                (old(factorize_queue)@, old(add_queue)@, old(build_queue)@, old(process_dependencies_queue)@),
                (final(factorize_queue)@, final(add_queue)@, final(build_queue)@, final(process_dependencies_queue)@),
                task,
                due,
            ),
    {
        self.table.dispatch(task, factorize_queue, add_queue, build_queue, process_dependencies_queue)
    }

    /// Records that the task of `category` known by `key` finished with
    /// `module`, and hands back the callbacks that waited on it, latest
    /// first (see [`SubscriptionTable::flush_callback`]).
    pub fn flush_callback(
        &mut self,
        category: TaskCategory,
        key: &str,
        module: ModuleIdentifier,
    ) -> (fired: Vec<QueueHandleCallback>)
        ensures
            SubscriptionTable::flushed(&old(self).table(), &final(self).table(), category, key@, module, fired@),
    {
        self.table.flush_callback(category, key, module)
    }
}

/// Makes a queue handler and the processor at its other end. The processor
/// starts with no waiting callbacks and no finished keys.
pub fn create_queue_handle() -> (r: (QueueHandler, QueueHandlerProcessor))
    ensures
        forall|c: TaskCategory|
            #[trigger] r.1.table().callbacks(c) == CallbackListsView::empty() && r.1.table().finished(
                c,
            ) == FinishedModulesView::empty(),
{
    let (tx, rx) = new_task_channel();
    (
        QueueHandler { sender: tx },
        QueueHandlerProcessor {
            receiver: rx,
            table: SubscriptionTable {
            factorize_callbacks: new_callback_lists(),
            add_callbacks: new_callback_lists(),
            build_callbacks: new_callback_lists(),
            process_dependencies_callbacks: new_callback_lists(),
            factorize_finished: new_finished_modules(),
            add_finished: new_finished_modules(),
            build_finished: new_finished_modules(),
            process_dependencies_finished: new_finished_modules(),
            },
        },
    )
}

/// Once the task of a category and key has finished, a subscription to it
/// is due at once, with the finished module, and waits on nothing.
pub proof fn lemma_subscription_after_flush_is_due(
    t0: SubscriptionTable,
    t1: SubscriptionTable,
    t2: SubscriptionTable,
    category: TaskCategory,
    key: Seq<char>,
    module: ModuleIdentifier,
    fired: Seq<QueueHandleCallback>,
    subscription: Subscription,
    due: Option<(QueueHandleCallback, ModuleIdentifier)>,
)
    requires
        SubscriptionTable::flushed(&t0, &t1, category, key, module, fired),
        subscription.category == category,
        subscription.key@ == key,
        SubscriptionTable::subscribed(&t1, &t2, subscription, due),
    ensures
        due == Some((subscription.callback, module)),
        t2.callbacks(category) == t1.callbacks(category),
{
}

/// A subscription to a key that has not finished waits, and when the key
/// finishes it is the first callback to run; with it run all the callbacks
/// that waited before, latest first, and none is left waiting.
pub proof fn lemma_waiting_subscription_runs_first_on_flush(
    t0: SubscriptionTable,
    t1: SubscriptionTable,
    t2: SubscriptionTable,
    subscription: Subscription,
    due: Option<(QueueHandleCallback, ModuleIdentifier)>,
    module: ModuleIdentifier,
    fired: Seq<QueueHandleCallback>,
)
    requires
        !t0.finished(subscription.category).contains_key(subscription.key@),
        SubscriptionTable::subscribed(&t0, &t1, subscription, due),
        SubscriptionTable::flushed(
            &t1,
            &t2,
            subscription.category,
            subscription.key@,
            module,
            fired,
        ),
    ensures
        due is None,
        fired.len() >= 1,
        fired[0] == subscription.callback,
        fired == with_waiting(
            t0.callbacks(subscription.category),
            subscription.key@,
            subscription.callback,
        )[subscription.key@].reverse(),
        t2.callbacks(subscription.category)[subscription.key@].len() == 0,
        t2.finished(subscription.category)[subscription.key@] == module,
{
    let c = subscription.category;
    let k = subscription.key@;
    let w = with_waiting(t0.callbacks(c), k, subscription.callback)[k];
    assert(t1.callbacks(c).contains_key(k));
    assert(w.reverse()[0] == w[w.len() - 1]);
}

/// Finishing a key a second time runs no callback: the first time left none
/// waiting on it. The key's module is the one it finished with last.
pub proof fn lemma_second_flush_runs_nothing(
    t0: SubscriptionTable,
    t1: SubscriptionTable,
    t2: SubscriptionTable,
    category: TaskCategory,
    key: Seq<char>,
    first: ModuleIdentifier,
    second: ModuleIdentifier,
    fired_first: Seq<QueueHandleCallback>,
    fired_second: Seq<QueueHandleCallback>,
)
    requires
        SubscriptionTable::flushed(&t0, &t1, category, key, first, fired_first),
        SubscriptionTable::flushed(&t1, &t2, category, key, second, fired_second),
    ensures
        fired_second.len() == 0,
        t2.finished(category)[key] == second,
{
}

/// The categories are kept apart: finishing a key in one category neither
/// runs nor changes what waits in another, and a subscription there to the
/// same key still waits.
pub proof fn lemma_categories_are_independent(
    t0: SubscriptionTable,
    t1: SubscriptionTable,
    t2: SubscriptionTable,
    category: TaskCategory,
    key: Seq<char>,
    module: ModuleIdentifier,
    fired: Seq<QueueHandleCallback>,
    subscription: Subscription,
    due: Option<(QueueHandleCallback, ModuleIdentifier)>,
)
    requires
        SubscriptionTable::flushed(&t0, &t1, category, key, module, fired),
        subscription.category != category,
        subscription.key@ == key,
        !t0.finished(subscription.category).contains_key(key),
        SubscriptionTable::subscribed(&t1, &t2, subscription, due),
    ensures
        t1.callbacks(subscription.category) == t0.callbacks(subscription.category),
        t1.finished(subscription.category) == t0.finished(subscription.category),
        due is None,
{
}

} // verus!
