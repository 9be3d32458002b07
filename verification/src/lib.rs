//! A single-user task list: tasks are added, listed, completed and deleted,
//! and the list is handed out for persistence after every change.

pub mod error;
pub mod laws;
pub mod manager;
pub mod snapshot;
pub mod store;
pub mod task;
pub mod text;

pub use error::TaskError;
pub use manager::{texts_of, Outcome, Request, TaskManager};
pub use snapshot::{Snapshot, SnapshotView};
pub use store::{Operation, StoreView};
pub use task::{views_of, Task, TaskView};
