//! What the caller found at the persistence location when the store starts.

use crate::task::{views_of, Task, TaskView};
use vstd::prelude::*;

verus! {

/// What was found at the persistence location, as a mathematical value.
pub enum SnapshotView {
    /// Nothing was there.
    Missing,
    /// Something was there that is no task list.
    Malformed,
    /// The task list that was last written.
    Tasks(Seq<TaskView>),
}

impl SnapshotView {
    /// The tasks a store starts with: those of the snapshot, and none where
    /// the snapshot is missing or malformed.
    pub open spec fn tasks(self) -> Seq<TaskView> {
        match self {
            SnapshotView::Tasks(tasks) => tasks,
            _ => Seq::empty(),
        }
    }

    /// The ids are pairwise distinct and none exceeds the number of tasks,
    /// so that a store which counts its next id from that number is
    /// well-formed.
    pub open spec fn well_numbered(self) -> bool {
        let tasks = self.tasks();
        &&& forall|i: int, j: int| 0 <= i < j < tasks.len() ==> tasks[i].id != tasks[j].id
        &&& forall|i: int| 0 <= i < tasks.len() ==> tasks[i].id <= tasks.len()
    }
}

/// What the caller found at the persistence location.
#[derive(Debug)]
pub enum Snapshot {
    /// Nothing was there.
    Missing,
    /// Something was there that is no task list.
    Malformed,
    /// The task list that was last written.
    Tasks(Vec<Task>),
}

impl View for Snapshot {
    type V = SnapshotView;

    open spec fn view(&self) -> SnapshotView {
        match self {
            Snapshot::Missing => SnapshotView::Missing,
            Snapshot::Malformed => SnapshotView::Malformed,
            Snapshot::Tasks(tasks) => SnapshotView::Tasks(views_of(tasks@)),
        }
    }
}

} // verus!
