//! The task store: the tasks in insertion order and the id counter.

use crate::error::TaskError;
use crate::laws::{lemma_apply_keeps_well_formed, lemma_load_well_formed};
use crate::snapshot::Snapshot;
use crate::store::{Operation, StoreView};
use crate::task::{views_of, Task, TaskView};
use vstd::prelude::*;

verus! {

/// What the shell asks of the store.
#[derive(Debug)]
pub enum Request {
    /// Add a task with this description.
    Add(String),
    /// Show the tasks.
    List,
    /// Mark the task with this id as completed.
    Complete(usize),
    /// Take the task with this id out of the list.
    Delete(usize),
}

impl View for Request {
    type V = Operation;

    open spec fn view(&self) -> Operation {
        match self {
            Request::Add(description) => Operation::Add(description@),
            Request::List => Operation::List,
            Request::Complete(id) => Operation::Complete(*id as nat),
            Request::Delete(id) => Operation::Delete(*id as nat),
        }
    }
}

/// What the shell is to do once the store has seen a request.
#[derive(Debug)]
pub struct Outcome {
    /// The lines to show to the user, in order.
    pub lines: Vec<String>,
    /// Whether `list_tasks()` is to be written to the persistence location.
    pub save: bool,
}

/// The texts of `lines`, in the same order.
pub open spec fn texts_of(lines: Seq<String>) -> Seq<Seq<char>> {
    lines.map_values(|line: String| line@)
}

/// The task store. Every change to it is meant to be followed by writing
/// `list_tasks()` to the persistence location; `apply` says when.
#[derive(Debug)]
pub struct TaskManager {
    tasks: Vec<Task>,
    next_id: usize,
}

impl View for TaskManager {
    type V = StoreView;

    closed spec fn view(&self) -> StoreView {
        StoreView { tasks: views_of(self.tasks@), next_id: self.next_id as nat }
    }
}

impl TaskManager {
    /// The tasks a store starts with, given what was found at the
    /// persistence location: a missing or malformed snapshot counts as no
    /// tasks.
    pub fn load_tasks(snapshot: Snapshot) -> (tasks: Vec<Task>)
        ensures
            views_of(tasks@) == snapshot@.tasks(),
    {
        match snapshot {
            Snapshot::Tasks(tasks) => tasks,
            _ => Vec::new(),
        }
    }

    /// Starts a store from what was found at the persistence location.
    pub fn new(snapshot: Snapshot) -> (manager: TaskManager)
        requires
            snapshot@.tasks().len() < usize::MAX,
        ensures
            manager@ == StoreView::load(snapshot@),
            manager@.well_formed() <==> snapshot@.well_numbered(),
    {
        let tasks = Self::load_tasks(snapshot);
        let next_id: usize = if tasks.is_empty() { 1 } else { tasks.len() + 1 };
        proof {
            lemma_load_well_formed(snapshot@);
        }
        TaskManager { tasks, next_id }
    }

    /// The tasks in insertion order.
    pub fn list_tasks(&self) -> (tasks: &Vec<Task>)
        ensures
            views_of(tasks@) == self@.tasks,
    {
        &self.tasks
    }

    /// Appends a new, uncompleted task with `description` and hands back a
    /// copy of it. The task gets the store's next id, and the counter moves
    /// on by one. In a well-formed store no task carried that id before.
    pub fn add_task(&mut self, description: String) -> (task: Task)
        requires
            old(self)@.next_id < usize::MAX,
        ensures
            final(self)@ == old(self)@.add_task(description@),
            task@ == (TaskView {
                id: old(self)@.next_id,
                description: description@,
                completed: false,
            }),
            old(self)@.well_formed() ==> !old(self)@.has_id(old(self)@.next_id),
            old(self)@.well_formed() ==> final(self)@.well_formed(),
    {
        let task = Task { id: self.next_id, description, completed: false };
        let copy = task.clone();
        self.tasks.push(task);
        self.next_id += 1;
        proof {
            assert(views_of(self.tasks@) =~= views_of(old(self).tasks@).push(copy@));
            if old(self)@.well_formed() {
                lemma_apply_keeps_well_formed(old(self)@, Operation::Add(description@));
            }
        }
        copy
    }

    /// Marks the first task that carries `id` as completed. A task that was
    /// completed before stays so, and the call still succeeds.
    pub fn complete_task(&mut self, id: usize) -> (result: Result<(), TaskError>)
        ensures
            result == if old(self)@.has_id(id as nat) {
                Ok::<(), TaskError>(())
            } else {
                Err::<(), TaskError>(TaskError::NotFound(id))
            },
            final(self)@ == old(self)@.complete_task(id as nat),
            old(self)@.well_formed() ==> final(self)@.well_formed(),
    {
        match self.find(id) {
            Some(at) => {
                self.tasks[at].completed = true;
                proof {
                    old(self)@.lemma_first_at_unique(
                        id as nat,
                        at as int,
                        old(self)@.position(id as nat),
                    );
                    assert(self@.tasks =~= old(self)@.complete_task(id as nat).tasks);
                    if old(self)@.well_formed() {
                        lemma_apply_keeps_well_formed(old(self)@, Operation::Complete(id as nat));
                    }
                }
                Ok(())
            },
            None => Err(TaskError::NotFound(id)),
        }
    }

    /// Takes the first task that carries `id` out of the list. The tasks
    /// that stay keep their ids and their order, and the id counter stays
    /// where it is.
    pub fn delete_task(&mut self, id: usize) -> (result: Result<(), TaskError>)
        ensures
            result == if old(self)@.has_id(id as nat) {
                Ok::<(), TaskError>(())
            } else {
                Err::<(), TaskError>(TaskError::NotFound(id))
            },
            final(self)@ == old(self)@.delete_task(id as nat),
            old(self)@.well_formed() ==> final(self)@.well_formed(),
    {
        match self.find(id) {
            Some(at) => {
                self.tasks.remove(at);
                proof {
                    old(self)@.lemma_first_at_unique(
                        id as nat,
                        at as int,
                        old(self)@.position(id as nat),
                    );
                    assert(self@.tasks =~= old(self)@.delete_task(id as nat).tasks);
                    if old(self)@.well_formed() {
                        lemma_apply_keeps_well_formed(old(self)@, Operation::Delete(id as nat));
                    }
                }
                Ok(())
            },
            None => Err(TaskError::NotFound(id)),
        }
    }

    /// Does what `request` asks and says what the shell is to do then:
    /// which lines to show and whether to write the list.
    pub fn apply(&mut self, request: Request) -> (outcome: Outcome)
        requires
            request@ is Add ==> old(self)@.next_id < usize::MAX,
        ensures
            final(self)@ == old(self)@.apply(request@),
            outcome.save == old(self)@.saves(request@),
            texts_of(outcome.lines@) == old(self)@.shows(request@),
            old(self)@.well_formed() ==> final(self)@.well_formed(),
    {
        match request {
            Request::Add(description) => {
                self.add_task(description);
                Outcome { lines: Vec::new(), save: true }
            },
            Request::List => Outcome { lines: self.listing(), save: false },
            Request::Complete(id) => Self::outcome_of(self.complete_task(id)),
            Request::Delete(id) => Self::outcome_of(self.delete_task(id)),
        }
    }

    /// One line for each task, in list order.
    fn listing(&self) -> (lines: Vec<String>)
        ensures
            texts_of(lines@) == self@.listing(),
    {
        let mut lines: Vec<String> = Vec::new();
        let mut at: usize = 0;
        while at < self.tasks.len()
            invariant
                at <= self.tasks.len(),
                lines.len() == at,
                forall|j: int| 0 <= j < at ==> lines[j]@ == self.tasks[j]@.line(),
            decreases self.tasks.len() - at,
        {
            lines.push(self.tasks[at].line());
            at += 1;
        }
        assert(texts_of(lines@) =~= self@.listing());
        lines
    }

    /// What the shell is to do after a completion or a deletion: write the
    /// list where the task was found, show the message where it was not.
    fn outcome_of(result: Result<(), TaskError>) -> (outcome: Outcome)
        ensures
            outcome.save == (result is Ok),
            texts_of(outcome.lines@) == match result {
                Ok(_) => Seq::<Seq<char>>::empty(),
                Err(error) => seq![error.message_text()],
            },
    {
        match result {
            Ok(()) => Outcome { lines: Vec::new(), save: true },
            Err(error) => {
                let mut lines: Vec<String> = Vec::new();
                lines.push(error.message());
                assert(texts_of(lines@) =~= seq![error.message_text()]);
                Outcome { lines, save: false }
            },
        }
    }

    /// The position of the first task that carries `id`.
    fn find(&self, id: usize) -> (found: Option<usize>)
        ensures
            match found {
                Some(at) => self@.first_at(id as nat, at as int),
                None => !self@.has_id(id as nat),
            },
    {
        let mut at: usize = 0;
        while at < self.tasks.len()
            invariant
                at <= self.tasks.len(),
                forall|j: int| 0 <= j < at ==> self.tasks[j].id != id,
            decreases self.tasks.len() - at,
        {
            if self.tasks[at].id == id {
                return Some(at);
            }
            at += 1;
        }
        None
    }

    /// The id that the next new task receives.
    pub fn next_id(&self) -> (id: usize)
        ensures
            id == self@.next_id,
    {
        self.next_id
    }
}

} // verus!
