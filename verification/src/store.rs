//! The task list as a mathematical value, and what each operation makes of it.

use crate::snapshot::SnapshotView;
use crate::task::TaskView;
use crate::text::not_found_text;
use vstd::prelude::*;

verus! {

/// What a caller asks of the store, as a mathematical value.
pub enum Operation {
    /// Add a task with this description.
    Add(Seq<char>),
    /// Show the tasks.
    List,
    /// Mark the task with this id as completed.
    Complete(nat),
    /// Take the task with this id out of the list.
    Delete(nat),
}

/// The store as a mathematical value: the tasks in insertion order and
/// the id that the next new task receives.
pub struct StoreView {
    pub tasks: Seq<TaskView>,
    pub next_id: nat,
}

impl StoreView {
    /// The store with no task, whose first new task gets id 1.
    pub open spec fn empty() -> StoreView {
        StoreView { tasks: Seq::empty(), next_id: 1 }
    }

    /// The store that starts from `snapshot`. The next id is counted from
    /// the number of tasks, not from the ids they carry.
    pub open spec fn load(snapshot: SnapshotView) -> StoreView {
        StoreView { tasks: snapshot.tasks(), next_id: snapshot.tasks().len() + 1 }
    }

    /// The ids are pairwise distinct and each lies below `next_id`.
    ///
    /// This holds of the empty store and is kept by every operation. A store
    /// loaded from a snapshot has it only where the snapshot's ids allow it.
    pub open spec fn well_formed(self) -> bool {
        &&& forall|i: int, j: int|
            0 <= i < j < self.tasks.len() ==> self.tasks[i].id != self.tasks[j].id
        &&& forall|i: int| 0 <= i < self.tasks.len() ==> self.tasks[i].id < self.next_id
    }

    /// Some task carries `id`.
    pub open spec fn has_id(self, id: nat) -> bool {
        exists|i: int| 0 <= i < self.tasks.len() && self.tasks[i].id == id
    }

    /// `at` is the position of the first task that carries `id`.
    pub open spec fn first_at(self, id: nat, at: int) -> bool {
        &&& 0 <= at < self.tasks.len()
        &&& self.tasks[at].id == id
        &&& forall|j: int| 0 <= j < at ==> self.tasks[j].id != id
    }

    /// The position of the first task that carries `id`, where there is one.
    pub open spec fn position(self, id: nat) -> int {
        choose|at: int| self.first_at(id, at)
    }

    /// The store after a task with `description` was added.
    pub open spec fn add_task(self, description: Seq<char>) -> StoreView {
        StoreView {
            tasks: self.tasks.push(
                TaskView { id: self.next_id, description, completed: false },
            ),
            next_id: self.next_id + 1,
        }
    }

    /// The store after one task was added for each of `descriptions`, in order.
    pub open spec fn add_all(self, descriptions: Seq<Seq<char>>) -> StoreView
        decreases descriptions.len(),
    {
        if descriptions.len() == 0 {
            self
        } else {
            self.add_all(descriptions.drop_last()).add_task(descriptions.last())
        }
    }

    /// The store after the first task that carries `id` was marked completed;
    /// the store itself where no task carries `id`.
    pub open spec fn complete_task(self, id: nat) -> StoreView {
        if self.has_id(id) {
            let at = self.position(id);
            StoreView {
                tasks: self.tasks.update(at, TaskView { completed: true, ..self.tasks[at] }),
                ..self
            }
        } else {
            self
        }
    }

    /// The store after the first task that carries `id` was taken out;
    /// the store itself where no task carries `id`.
    pub open spec fn delete_task(self, id: nat) -> StoreView {
        if self.has_id(id) {
            StoreView { tasks: self.tasks.remove(self.position(id)), ..self }
        } else {
            self
        }
    }

    /// The store after `operation`.
    pub open spec fn apply(self, operation: Operation) -> StoreView {
        match operation {
            Operation::Add(description) => self.add_task(description),
            Operation::List => self,
            Operation::Complete(id) => self.complete_task(id),
            Operation::Delete(id) => self.delete_task(id),
        }
    }

    /// Whether the list is written to the persistence location after
    /// `operation`: after every addition, and after a completion or a
    /// deletion that found its task.
    pub open spec fn saves(self, operation: Operation) -> bool {
        match operation {
            Operation::Add(_) => true,
            Operation::List => false,
            Operation::Complete(id) => self.has_id(id),
            Operation::Delete(id) => self.has_id(id),
        }
    }

    /// The lines shown to the user after `operation`: one for each task
    /// where the tasks are listed, and the message that the task was not
    /// found where a completion or a deletion found none.
    pub open spec fn shows(self, operation: Operation) -> Seq<Seq<char>> {
        match operation {
            Operation::Add(_) => Seq::empty(),
            Operation::List => self.listing(),
            Operation::Complete(id) => self.not_found_lines(id),
            Operation::Delete(id) => self.not_found_lines(id),
        }
    }

    /// One line for each task, in list order.
    pub open spec fn listing(self) -> Seq<Seq<char>> {
        self.tasks.map_values(|task: TaskView| task.line())
    }

    /// No line where some task carries `id`, else the message that none does.
    pub open spec fn not_found_lines(self, id: nat) -> Seq<Seq<char>> {
        if self.has_id(id) {
            Seq::empty()
        } else {
            seq![not_found_text(id)]
        }
    }

    /// What stands at the persistence location after `operation`, where
    /// `written` stood there before: the new list where the operation saves,
    /// else what was there.
    pub open spec fn written_after(
        self,
        written: SnapshotView,
        operation: Operation,
    ) -> SnapshotView {
        if self.saves(operation) {
            SnapshotView::Tasks(self.apply(operation).tasks)
        } else {
            written
        }
    }

    /// The store after each of `operations`, in order.
    pub open spec fn apply_all(self, operations: Seq<Operation>) -> StoreView
        decreases operations.len(),
    {
        if operations.len() == 0 {
            self
        } else {
            self.apply_all(operations.drop_last()).apply(operations.last())
        }
    }

    /// `task` is what one of the store's tasks can become: it has the id and
    /// the description of a task of the store, and it is completed if that
    /// one is.
    pub open spec fn holds_earlier(self, task: TaskView) -> bool {
        exists|i: int|
            0 <= i < self.tasks.len() && #[trigger] self.tasks[i].id == task.id
                && self.tasks[i].description == task.description && (self.tasks[i].completed
                ==> task.completed)
    }

    /// Where a task carries `id`, `position(id)` is the first such position.
    pub proof fn lemma_position(self, id: nat)
        requires
            self.has_id(id),
        ensures
            self.first_at(id, self.position(id)),
    {
        let i = choose|i: int| 0 <= i < self.tasks.len() && self.tasks[i].id == id;
        self.lemma_first_before(id, i);
    }

    /// A task that carries `id` has a first such task at or before it.
    proof fn lemma_first_before(self, id: nat, i: int)
        requires
            0 <= i < self.tasks.len(),
            self.tasks[i].id == id,
        ensures
            exists|at: int| 0 <= at <= i && self.first_at(id, at),
        decreases i,
    {
        if forall|j: int| 0 <= j < i ==> self.tasks[j].id != id {
            assert(self.first_at(id, i));
        } else {
            let j = choose|j: int| 0 <= j < i && self.tasks[j].id == id;
            self.lemma_first_before(id, j);
        }
    }

    /// No two positions are the first that carries `id`.
    pub proof fn lemma_first_at_unique(self, id: nat, a: int, b: int)
        requires
            self.first_at(id, a),
            self.first_at(id, b),
        ensures
            a == b,
    {
    }
}

} // verus!
