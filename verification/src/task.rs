//! The task record and what it means for a collection of tasks to be valid.

use vstd::prelude::*;
use crate::status::Status;
use crate::timestamp::Timestamp;

verus! {

/// One task of the tracker.
#[derive(Clone, Debug)]
pub struct Task {
    /// Identifies the task within its collection.
    pub id: u32,
    /// What is to be done.
    pub description: String,
    /// How far the task has come.
    pub status: Status,
    /// When the task was added. Never changes afterwards.
    pub created_at: Timestamp,
    /// When the task was last changed.
    pub updated_at: Timestamp,
}

/// What a task holds, with its description as a sequence of characters.
pub struct TaskView {
    pub id: u32,
    pub description: Seq<char>,
    pub status: Status,
    pub created_at: Timestamp,
    pub updated_at: Timestamp,
}

impl View for Task {
    type V = TaskView;

    open spec fn view(&self) -> TaskView {
        TaskView {
            id: self.id,
            description: self.description@,
            status: self.status,
            created_at: self.created_at,
            updated_at: self.updated_at,
        }
    }
}

/// The contents of a collection of tasks, in order.
pub open spec fn views(tasks: Seq<Task>) -> Seq<TaskView> {
    tasks.map_values(|t: Task| t@)
}

impl TaskView {
    /// A task is valid when its id is positive, its description is not empty
    /// and it was not changed before it was created.
    pub open spec fn valid(self) -> bool {
        &&& self.id >= 1
        &&& self.description.len() > 0
        &&& self.created_at.le(self.updated_at)
    }
}

/// No two tasks of the collection share an id.
pub open spec fn ids_unique(tasks: Seq<TaskView>) -> bool {
    forall|i: int, j: int| 0 <= i < j < tasks.len() ==> tasks[i].id != tasks[j].id
}

/// A collection is valid when each of its tasks is and no id occurs twice.
pub open spec fn valid_collection(tasks: Seq<TaskView>) -> bool {
    &&& forall|i: int| 0 <= i < tasks.len() ==> (#[trigger] tasks[i]).valid()
    &&& ids_unique(tasks)
}

} // verus!
