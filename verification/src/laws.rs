//! What holds of the store's operations, stated over [`StoreView`] and proved.

use crate::snapshot::SnapshotView;
use crate::store::{Operation, StoreView};
use crate::task::TaskView;
use crate::text::not_found_text;
use vstd::prelude::*;

verus! {

/// Adding tasks one after another appends them in order behind the tasks
/// that were there, numbers them upwards from the store's next id, and
/// leaves each of them uncompleted.
pub proof fn lemma_add_all_appends(store: StoreView, descriptions: Seq<Seq<char>>)
    ensures
        ({
            let after = store.add_all(descriptions);
            let before = store.tasks.len();
            &&& after.tasks.len() == before + descriptions.len()
            &&& after.next_id == store.next_id + descriptions.len()
            &&& forall|i: int| 0 <= i < before ==> after.tasks[i] == store.tasks[i]
            &&& forall|i: int|
                before <= i < after.tasks.len() ==> after.tasks[i] == (TaskView {
                    id: (store.next_id + (i - before)) as nat,
                    description: descriptions[i - before],
                    completed: false,
                })
        }),
    decreases descriptions.len(),
{
    if descriptions.len() > 0 {
        lemma_add_all_appends(store, descriptions.drop_last());
    }
}

/// Whatever tasks are added to an empty store, their ids are 1, 2, 3 and so
/// on in list order: strictly increasing, and so pairwise distinct.
pub proof fn lemma_ids_count_from_one(descriptions: Seq<Seq<char>>)
    ensures
        ({
            let after = StoreView::empty().add_all(descriptions);
            &&& after.tasks.len() == descriptions.len()
            &&& forall|k: int| 0 <= k < after.tasks.len() ==> after.tasks[k].id == k + 1
            &&& forall|i: int, j: int|
                0 <= i < j < after.tasks.len() ==> after.tasks[i].id < after.tasks[j].id
        }),
{
    lemma_add_all_appends(StoreView::empty(), descriptions);
}

/// Adding a task puts exactly one task behind those that were there: it
/// carries the description and is not completed. Where no task had that
/// description before, exactly one has it afterwards.
pub proof fn lemma_add_appends_one(store: StoreView, description: Seq<char>)
    ensures
        ({
            let after = store.add_task(description);
            &&& after.tasks.len() == store.tasks.len() + 1
            &&& after.tasks.drop_last() == store.tasks
            &&& after.tasks.last().id == store.next_id
            &&& after.tasks.last().description == description
            &&& !after.tasks.last().completed
            &&& (forall|i: int|
                0 <= i < store.tasks.len() ==> store.tasks[i].description != description)
                ==> (forall|i: int|
                0 <= i < after.tasks.len() ==> (after.tasks[i].description == description <==> i
                    == store.tasks.len()))
        }),
{
    let after = store.add_task(description);
    assert(after.tasks.drop_last() =~= store.tasks);
}

/// Completing an id that some task carries marks the first such task and
/// changes nothing else: not its id or description, no other task, not the
/// order, not the id counter.
pub proof fn lemma_complete_marks_one(store: StoreView, id: nat)
    requires
        store.has_id(id),
    ensures
        ({
            let after = store.complete_task(id);
            let at = store.position(id);
            &&& store.first_at(id, at)
            &&& after.next_id == store.next_id
            &&& after.tasks.len() == store.tasks.len()
            &&& after.tasks[at] == (TaskView { completed: true, ..store.tasks[at] })
            &&& forall|j: int|
                0 <= j < store.tasks.len() && j != at ==> after.tasks[j] == store.tasks[j]
        }),
{
    store.lemma_position(id);
}

/// In a well-formed store only one task carries a given id, so completing
/// that id leaves every task with another id as it was.
pub proof fn lemma_complete_spares_other_ids(store: StoreView, id: nat)
    requires
        store.well_formed(),
    ensures
        ({
            let after = store.complete_task(id);
            &&& after.tasks.len() == store.tasks.len()
            &&& forall|j: int|
                0 <= j < store.tasks.len() ==> after.tasks[j] == if store.tasks[j].id == id {
                    TaskView { completed: true, ..store.tasks[j] }
                } else {
                    store.tasks[j]
                }
        }),
{
    if store.has_id(id) {
        store.lemma_position(id);
    }
}

/// Completing a task twice is the same as completing it once.
pub proof fn lemma_complete_twice(store: StoreView, id: nat)
    ensures
        store.complete_task(id).complete_task(id) == store.complete_task(id),
{
    if store.has_id(id) {
        store.lemma_position(id);
        let once = store.complete_task(id);
        let at = store.position(id);
        assert(once.first_at(id, at));
        once.lemma_position(id);
        once.lemma_first_at_unique(id, at, once.position(id));
        assert(once.complete_task(id).tasks =~= once.tasks);
    }
}

/// Completing or deleting an id that no task carries leaves the store as
/// it was.
pub proof fn lemma_unknown_id_changes_nothing(store: StoreView, id: nat)
    requires
        !store.has_id(id),
    ensures
        store.complete_task(id) == store,
        store.delete_task(id) == store,
{
}

/// Deleting an id that some task carries takes out the first such task and
/// no other: the tasks before it stay where they are, those behind it move
/// up by one, and the id counter does not move.
pub proof fn lemma_delete_removes_one(store: StoreView, id: nat)
    requires
        store.has_id(id),
    ensures
        ({
            let after = store.delete_task(id);
            let at = store.position(id);
            &&& store.first_at(id, at)
            &&& after.next_id == store.next_id
            &&& after.tasks.len() == store.tasks.len() - 1
            &&& forall|j: int| 0 <= j < at ==> after.tasks[j] == store.tasks[j]
            &&& forall|j: int| at <= j < after.tasks.len() ==> after.tasks[j] == store.tasks[j + 1]
        }),
{
    store.lemma_position(id);
}

/// In a well-formed store no task carries a deleted id any more.
pub proof fn lemma_delete_clears_id(store: StoreView, id: nat)
    requires
        store.well_formed(),
    ensures
        !store.delete_task(id).has_id(id),
{
    if store.has_id(id) {
        lemma_delete_removes_one(store, id);
    }
}

/// After a task was deleted, no task that is added next gets its id,
/// provided the id lay below the id counter.
pub proof fn lemma_deleted_id_not_reused(store: StoreView, id: nat, descriptions: Seq<Seq<char>>)
    requires
        store.has_id(id),
        id < store.next_id,
    ensures
        ({
            let deleted = store.delete_task(id);
            let after = deleted.add_all(descriptions);
            &&& after.tasks.len() == deleted.tasks.len() + descriptions.len()
            &&& forall|k: int|
                deleted.tasks.len() <= k < after.tasks.len() ==> after.tasks[k].id != id
        }),
{
    let deleted = store.delete_task(id);
    let after = deleted.add_all(descriptions);
    lemma_add_all_appends(deleted, descriptions);
    assert forall|k: int| deleted.tasks.len() <= k < after.tasks.len() implies after.tasks[k].id
        != id by {
        assert(after.tasks[k].id >= store.next_id);
    }
}

/// The id counter never moves back: adding moves it on by one, completing
/// and deleting leave it where it is.
pub proof fn lemma_counter_only_grows(store: StoreView, operation: Operation)
    ensures
        store.apply(operation).next_id == store.next_id + if operation is Add {
            1nat
        } else {
            0nat
        },
{
}

/// Adding tasks one after another is applying one `Add` for each.
pub proof fn lemma_add_all_is_apply_all(store: StoreView, descriptions: Seq<Seq<char>>)
    ensures
        store.add_all(descriptions) == store.apply_all(
            descriptions.map_values(|description: Seq<char>| Operation::Add(description)),
        ),
    decreases descriptions.len(),
{
    let operations = descriptions.map_values(|description: Seq<char>| Operation::Add(description));
    if descriptions.len() > 0 {
        lemma_add_all_is_apply_all(store, descriptions.drop_last());
        assert(operations.drop_last() =~= descriptions.drop_last().map_values(
            |description: Seq<char>| Operation::Add(description),
        ));
    }
}

/// However the store is changed, each task it then holds either was in it
/// before, with the same id and description and still completed if it was,
/// or was added since and carries an id that the counter had not reached.
pub proof fn lemma_tasks_stem_from(store: StoreView, operations: Seq<Operation>)
    ensures
        ({
            let after = store.apply_all(operations);
            &&& after.next_id >= store.next_id
            &&& forall|k: int|
                0 <= k < after.tasks.len() ==> store.holds_earlier(#[trigger] after.tasks[k])
                    || store.next_id <= after.tasks[k].id < after.next_id
        }),
    decreases operations.len(),
{
    let after = store.apply_all(operations);
    if operations.len() > 0 {
        let before = store.apply_all(operations.drop_last());
        lemma_tasks_stem_from(store, operations.drop_last());
        match operations.last() {
            Operation::Add(description) => {},
            Operation::List => {},
            Operation::Complete(id) => {
                if before.has_id(id) {
                    before.lemma_position(id);
                    let at = before.position(id);
                    assert forall|k: int| 0 <= k < after.tasks.len() implies store.holds_earlier(
                        #[trigger] after.tasks[k],
                    ) || store.next_id <= after.tasks[k].id < after.next_id by {
                        if k == at && store.holds_earlier(before.tasks[k]) {
                            let i = choose|i: int|
                                0 <= i < store.tasks.len() && #[trigger] store.tasks[i].id
                                    == before.tasks[k].id && store.tasks[i].description
                                    == before.tasks[k].description && (store.tasks[i].completed
                                    ==> before.tasks[k].completed);
                            assert(store.tasks[i].id == after.tasks[k].id);
                        } else {
                            assert(k != at ==> after.tasks[k] == before.tasks[k]);
                        }
                    }
                }
            },
            Operation::Delete(id) => {
                if before.has_id(id) {
                    before.lemma_position(id);
                    let at = before.position(id);
                    assert forall|k: int| 0 <= k < after.tasks.len() implies store.holds_earlier(
                        #[trigger] after.tasks[k],
                    ) || store.next_id <= after.tasks[k].id < after.next_id by {
                        if k < at {
                            assert(after.tasks[k] == before.tasks[k]);
                        } else {
                            assert(after.tasks[k] == before.tasks[k + 1]);
                        }
                    }
                }
            },
        }
    } else {
        assert forall|k: int| 0 <= k < after.tasks.len() implies store.holds_earlier(
            #[trigger] after.tasks[k],
        ) by {
            assert(store.tasks[k].id == after.tasks[k].id);
        }
    }
}

/// After a task was deleted, its id is never given to a new task, whatever
/// is asked of the store afterwards, provided the id lay below the id
/// counter: a task that carries it later was in the store all along.
pub proof fn lemma_deleted_id_never_given_again(
    store: StoreView,
    id: nat,
    operations: Seq<Operation>,
)
    requires
        store.has_id(id),
        id < store.next_id,
    ensures
        ({
            let deleted = store.delete_task(id);
            let after = deleted.apply_all(operations);
            forall|k: int|
                0 <= k < after.tasks.len() && #[trigger] after.tasks[k].id == id
                    ==> deleted.holds_earlier(after.tasks[k])
        }),
{
    lemma_tasks_stem_from(store.delete_task(id), operations);
}

/// In a well-formed store a deleted id is gone for good: no task carries
/// it after the deletion, whatever is asked of the store afterwards.
pub proof fn lemma_deleted_id_never_returns(
    store: StoreView,
    id: nat,
    operations: Seq<Operation>,
)
    requires
        store.well_formed(),
        store.has_id(id),
    ensures
        !store.delete_task(id).apply_all(operations).has_id(id),
{
    let deleted = store.delete_task(id);
    let after = deleted.apply_all(operations);
    lemma_delete_clears_id(store, id);
    lemma_tasks_stem_from(deleted, operations);
    assert forall|k: int| 0 <= k < after.tasks.len() implies after.tasks[k].id != id by {
        if deleted.holds_earlier(after.tasks[k]) {
        }
    }
}

/// A store that starts from the tasks another store listed holds the same
/// tasks in the same order; its id counter is counted anew from their number.
pub proof fn lemma_reload_keeps_tasks(store: StoreView)
    ensures
        StoreView::load(SnapshotView::Tasks(store.tasks)).tasks == store.tasks,
        StoreView::load(SnapshotView::Tasks(store.tasks)).next_id == store.tasks.len() + 1,
{
}

/// An operation that does not save leaves the store as it was: no change
/// goes unwritten.
pub proof fn lemma_every_change_is_saved(store: StoreView, operation: Operation)
    requires
        !store.saves(operation),
    ensures
        store.apply(operation) == store,
{
}

/// Completing or deleting an id that no task carries writes nothing and
/// shows the message that the task was not found.
pub proof fn lemma_unknown_id_is_reported(store: StoreView, id: nat)
    requires
        !store.has_id(id),
    ensures
        !store.saves(Operation::Complete(id)),
        !store.saves(Operation::Delete(id)),
        store.shows(Operation::Complete(id)) == seq![not_found_text(id)],
        store.shows(Operation::Delete(id)) == seq![not_found_text(id)],
{
}

/// Where the persistence location holds the store's tasks, it still does
/// after any operation, and a store that is loaded from it afresh holds the
/// same tasks in the same order.
pub proof fn lemma_written_tasks_keep_step(
    store: StoreView,
    written: SnapshotView,
    operation: Operation,
)
    requires
        written.tasks() == store.tasks,
    ensures
        ({
            let after = store.apply(operation);
            let written_then = store.written_after(written, operation);
            &&& written_then.tasks() == after.tasks
            &&& StoreView::load(written_then).tasks == after.tasks
        }),
{
}

/// A missing and a malformed snapshot both give the empty store.
pub proof fn lemma_load_without_tasks()
    ensures
        StoreView::load(SnapshotView::Missing) == StoreView::empty(),
        StoreView::load(SnapshotView::Malformed) == StoreView::empty(),
{
}

/// The empty store is well-formed.
pub proof fn lemma_empty_well_formed()
    ensures
        StoreView::empty().well_formed(),
{
}

/// A loaded store is well-formed exactly where the snapshot is well
/// numbered: its ids are pairwise distinct and none exceeds the number of
/// tasks.
pub proof fn lemma_load_well_formed(snapshot: SnapshotView)
    ensures
        StoreView::load(snapshot).well_formed() <==> snapshot.well_numbered(),
{
    assert(StoreView::load(snapshot).tasks == snapshot.tasks());
}

/// Every operation keeps a well-formed store well-formed.
pub proof fn lemma_apply_keeps_well_formed(store: StoreView, operation: Operation)
    requires
        store.well_formed(),
    ensures
        store.apply(operation).well_formed(),
{
    match operation {
        Operation::Add(description) => {},
        Operation::List => {},
        Operation::Complete(id) => {
            if store.has_id(id) {
                store.lemma_position(id);
            }
        },
        Operation::Delete(id) => {
            if store.has_id(id) {
                store.lemma_position(id);
            }
        },
    }
}

/// Whatever is asked of a well-formed store, it stays well-formed.
pub proof fn lemma_apply_all_keeps_well_formed(store: StoreView, operations: Seq<Operation>)
    requires
        store.well_formed(),
    ensures
        store.apply_all(operations).well_formed(),
    decreases operations.len(),
{
    if operations.len() > 0 {
        lemma_apply_all_keeps_well_formed(store, operations.drop_last());
        lemma_apply_keeps_well_formed(store.apply_all(operations.drop_last()), operations.last());
    }
}

} // verus!
