//! The stored form of a collection: what is written to the backing file and
//! what is read back from it, with the status as text.

use vstd::prelude::*;
use crate::status::{status_of_text, status_text_round_trip, Status};
use crate::task::{views, Task, TaskView};
use crate::timestamp::Timestamp;

verus! {

/// A task as it is stored.
#[derive(Clone, Debug)]
pub struct StoredTask {
    pub id: u32,
    pub description: String,
    /// The status in its textual form.
    pub status: String,
    pub created_at: Timestamp,
    pub updated_at: Timestamp,
}

/// What a stored task holds, with its texts as sequences of characters.
pub struct StoredTaskView {
    pub id: u32,
    pub description: Seq<char>,
    pub status: Seq<char>,
    pub created_at: Timestamp,
    pub updated_at: Timestamp,
}

impl View for StoredTask {
    type V = StoredTaskView;

    open spec fn view(&self) -> StoredTaskView {
        StoredTaskView {
            id: self.id,
            description: self.description@,
            status: self.status@,
            created_at: self.created_at,
            updated_at: self.updated_at,
        }
    }
}

/// The contents of a sequence of stored tasks, in order.
pub open spec fn record_views(records: Seq<StoredTask>) -> Seq<StoredTaskView> {
    records.map_values(|r: StoredTask| r@)
}

/// The stored form of a task: the same fields, the status as its text.
pub open spec fn stored(task: TaskView) -> StoredTaskView {
    StoredTaskView {
        id: task.id,
        description: task.description,
        status: task.status.text(),
        created_at: task.created_at,
        updated_at: task.updated_at,
    }
}

/// The task that a stored task stands for. Only the status is read: where
/// its text names none, this is a task still to be done, and `restorable`
/// is false.
pub open spec fn restored(record: StoredTaskView) -> TaskView {
    TaskView {
        id: record.id,
        description: record.description,
        status: match status_of_text(record.status) {
            Some(status) => status,
            None => Status::Todo,
        },
        created_at: record.created_at,
        updated_at: record.updated_at,
    }
}

/// The status text of the stored task names a status.
pub open spec fn restorable(record: StoredTaskView) -> bool {
    status_of_text(record.status) is Some
}

/// The stored form of a collection: that of each task, in order.
pub open spec fn stored_all(tasks: Seq<TaskView>) -> Seq<StoredTaskView> {
    tasks.map_values(|t: TaskView| stored(t))
}

/// The collection that loading gives. What was read counts only as a whole:
/// where nothing could be read, or the status of some stored task names no
/// status, the collection is empty; otherwise it holds the task of each
/// stored task, in order.
pub open spec fn loaded(read: Option<Seq<StoredTaskView>>) -> Seq<TaskView> {
    match read {
        Some(records) => if forall|i: int|
            0 <= i < records.len() ==> restorable(#[trigger] records[i]) {
            records.map_values(|r: StoredTaskView| restored(r))
        } else {
            Seq::empty()
        },
        None => Seq::empty(),
    }
}

/// What was read, as contents.
pub open spec fn read_views(read: Option<Vec<StoredTask>>) -> Option<Seq<StoredTaskView>> {
    match read {
        Some(records) => Some(record_views(records@)),
        None => None,
    }
}

/// The stored form of the collection, ready to be written: one stored task
/// for each task, in order.
pub fn write_tasks(tasks: &Vec<Task>) -> (records: Vec<StoredTask>)
    ensures
        record_views(records@) == stored_all(views(tasks@)),
{
    let mut records: Vec<StoredTask> = Vec::new();
    let mut i: usize = 0;
    while i < tasks.len()
        invariant
            0 <= i <= tasks.len(),
            record_views(records@) == stored_all(views(tasks@).take(i as int)),
        decreases tasks.len() - i,
    {
        let ghost so_far = record_views(records@);
        let task = &tasks[i];
        records.push(
            StoredTask {
                id: task.id,
                description: task.description.clone(),
                status: task.status.as_str().to_owned(),
                created_at: task.created_at,
                updated_at: task.updated_at,
            },
        );
        proof {
            assert(stored_all(views(tasks@).take(i + 1)) =~= so_far.push(
                stored(views(tasks@)[i as int]),
            ));
        }
        i += 1;
    }
    records
}

/// The collection that what was read stands for. Loading is forgiving:
/// `None`, which stands for a file that is empty or does not hold a list of
/// tasks, gives an empty collection, and so does a list in which some status
/// is none of the three.
pub fn read_tasks(read: Option<Vec<StoredTask>>) -> (tasks: Vec<Task>)
    ensures
        views(tasks@) == loaded(read_views(read)),
{
    let ghost input = read_views(read);
    let records = match read {
        Some(records) => records,
        None => {
            let empty: Vec<Task> = Vec::new();
            return empty;
        },
    };
    let ghost all = record_views(records@);
    let mut tasks: Vec<Task> = Vec::new();
    let mut i: usize = 0;
    while i < records.len()
        invariant
            0 <= i <= records.len(),
            all == record_views(records@),
            input == read_views(read),
            input == Some(all),
            forall|j: int| 0 <= j < i ==> restorable(#[trigger] all[j]),
            views(tasks@) == all.take(i as int).map_values(|r: StoredTaskView| restored(r)),
        decreases records.len() - i,
    {
        let ghost so_far = views(tasks@);
        let record = &records[i];
        match Status::parse(record.status.as_str()) {
            Some(status) => {
                tasks.push(
                    Task {
                        id: record.id,
                        description: record.description.clone(),
                        status,
                        created_at: record.created_at,
                        updated_at: record.updated_at,
                    },
                );
                proof {
                    assert(all.take(i + 1).map_values(|r: StoredTaskView| restored(r))
                        =~= so_far.push(restored(all[i as int])));
                }
            },
            None => {
                let empty: Vec<Task> = Vec::new();
                return empty;
            },
        }
        i += 1;
    }
    tasks
}

/// Storing a collection and loading what was stored gives the collection
/// back, the same tasks in the same order.
pub proof fn stored_then_loaded(tasks: Seq<TaskView>)
    ensures
        loaded(Some(stored_all(tasks))) == tasks,
{
    let records = stored_all(tasks);
    assert forall|i: int| 0 <= i < records.len() implies restorable(#[trigger] records[i]) by {
        status_text_round_trip(tasks[i].status);
    }
    assert forall|i: int| 0 <= i < tasks.len() implies restored(#[trigger] records[i])
        == tasks[i] by {
        status_text_round_trip(tasks[i].status);
    }
}

} // verus!
