# rspack_queue

The task queues of a module bundler's compilation, verified with Verus.

- `src/` is the library. Each public function states in its contract what
  it returns or changes, over mathematical views (`Seq`, `Map`, `Set`):
  - `module_graph`: the module graph and the compilation state the tasks
    change;
  - `queue`: the add and clean tasks and the results of all tasks;
  - `factorize`, `build_task`: the factorize and build tasks, as steps
    around the awaited calls to module factories, the build cache and the
    plugins' hooks;
  - `queue_handler`: the worker queues, the channel to the queue handler's
    processor and the table of callbacks that wait for tasks to finish;
  - `chunk_filename`: the runtime module that maps chunk ids to file names;
  - `text`, `json`: string ordering, joining and JSON string literals;
  - `channel`, `fx_map`: the calls into `tokio` and `rustc-hash`, with the
    contracts that the proofs rest on.
- `app/` runs the awaited calls and the callbacks themselves.
- `tests/` runs the library on concrete values.
