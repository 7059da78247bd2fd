//! Task queues of a module bundler's compilation: the tasks that factorize,
//! add, build and clean modules, the handler that lets callers wait for a
//! task to finish, and the runtime module that maps chunk ids to file names.

pub mod error;
pub mod ids;
pub mod module_graph;
pub mod queue;
pub mod factorize;
pub mod build_task;
pub mod channel;
pub mod fx_map;
pub mod queue_handler;
pub mod text;
pub mod json;
pub mod chunk_filename;
pub mod loader_runner;
