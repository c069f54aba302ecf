//! The changes that a command can ask for, applied to a collection, and what
//! came of each: whether the collection has to be written back.

use vstd::prelude::*;
use crate::commands::{add_task_at, delete_task, mark_task_at, update_task_at};
use crate::model::{
    added, deleted, has_id, lemma_filter_all, lemma_position, marked, max_id, not_id, updated,
};
use crate::status::Status;
use crate::task::{views, Task, TaskView};
use crate::timestamp::{current_time, Timestamp};

verus! {

/// A change to the collection.
#[derive(Clone, Debug)]
pub enum Edit {
    /// Add a task with this description.
    Add { description: String },
    /// Give the task with this id a new description.
    Update { id: u32, description: String },
    /// Remove the task with this id.
    Delete { id: u32 },
    /// Give the task with this id a new status.
    Mark { id: u32, status: Status },
}

/// A change, with its description as a sequence of characters.
pub enum EditView {
    Add { description: Seq<char> },
    Update { id: u32, description: Seq<char> },
    Delete { id: u32 },
    Mark { id: u32, status: Status },
}

impl View for Edit {
    type V = EditView;

    open spec fn view(&self) -> EditView {
        match self {
            Edit::Add { description } => EditView::Add { description: description@ },
            Edit::Update { id, description } => EditView::Update {
                id: *id,
                description: description@,
            },
            Edit::Delete { id } => EditView::Delete { id: *id },
            Edit::Mark { id, status } => EditView::Mark { id: *id, status: *status },
        }
    }
}

/// What came of a change.
#[derive(Clone, Copy, Debug, PartialEq, Eq, Structural)]
pub enum Outcome {
    /// A task was added under this id.
    Added { id: u32 },
    /// The task with this id has its new description.
    Updated { id: u32 },
    /// The task with this id is gone.
    Deleted { id: u32 },
    /// The task with this id has this status.
    Marked { id: u32, status: Status },
    /// No task has this id: nothing was changed.
    NotFound { id: u32 },
    /// The largest id in use is the largest there is: nothing was added.
    OutOfIds,
}

impl Outcome {
    /// The collection was changed and has to be written back.
    pub open spec fn saves(self) -> bool {
        !(self is NotFound) && !(self is OutOfIds)
    }

    /// Whether the collection was changed and has to be written back.
    pub fn changed(&self) -> (r: bool)
        ensures
            r == self.saves(),
    {
        match self {
            Outcome::NotFound { .. } => false,
            Outcome::OutOfIds => false,
            _ => true,
        }
    }
}

/// The id of the task that a change is aimed at. Adding is aimed at none.
pub open spec fn target_of(edit: EditView) -> Option<u32> {
    match edit {
        EditView::Add { .. } => None,
        EditView::Update { id, .. } => Some(id),
        EditView::Delete { id } => Some(id),
        EditView::Mark { id, .. } => Some(id),
    }
}

/// What comes of a change to this collection.
pub open spec fn outcome_of(tasks: Seq<TaskView>, edit: EditView) -> Outcome {
    match edit {
        EditView::Add { description } => if max_id(tasks) < u32::MAX {
            Outcome::Added { id: (max_id(tasks) + 1) as u32 }
        } else {
            Outcome::OutOfIds
        },
        EditView::Update { id, description } => if has_id(tasks, id) {
            Outcome::Updated { id }
        } else {
            Outcome::NotFound { id }
        },
        EditView::Delete { id } => if has_id(tasks, id) {
            Outcome::Deleted { id }
        } else {
            Outcome::NotFound { id }
        },
        EditView::Mark { id, status } => if has_id(tasks, id) {
            Outcome::Marked { id, status }
        } else {
            Outcome::NotFound { id }
        },
    }
}

/// The collection after a change made at `now`.
pub open spec fn applied(tasks: Seq<TaskView>, edit: EditView, now: Timestamp) -> Seq<TaskView> {
    match edit {
        EditView::Add { description } => if max_id(tasks) < u32::MAX {
            added(tasks, description, now)
        } else {
            tasks
        },
        EditView::Update { id, description } => updated(tasks, id, description, now),
        EditView::Delete { id } => deleted(tasks, id),
        EditView::Mark { id, status } => marked(tasks, id, status, now),
    }
}

/// Makes the change at `now` and says what came of it. Where the outcome
/// does not ask for the collection to be written back, the collection is as
/// it was.
pub fn apply_at(tasks: &mut Vec<Task>, edit: &Edit, now: Timestamp) -> (outcome: Outcome)
    ensures
        outcome == outcome_of(views(old(tasks)@), edit@),
        views(final(tasks)@) == applied(views(old(tasks)@), edit@, now),
        !outcome.saves() ==> final(tasks)@ == old(tasks)@,
{
    match edit {
        Edit::Add { description } => {
            match add_task_at(tasks, description.as_str(), now) {
                Some(id) => Outcome::Added { id },
                None => Outcome::OutOfIds,
            }
        },
        Edit::Update { id, description } => {
            if update_task_at(tasks, *id, description.as_str(), now) {
                Outcome::Updated { id: *id }
            } else {
                Outcome::NotFound { id: *id }
            }
        },
        Edit::Delete { id } => {
            if delete_task(tasks, *id) {
                Outcome::Deleted { id: *id }
            } else {
                Outcome::NotFound { id: *id }
            }
        },
        Edit::Mark { id, status } => {
            if mark_task_at(tasks, *id, *status, now) {
                Outcome::Marked { id: *id, status: *status }
            } else {
                Outcome::NotFound { id: *id }
            }
        },
    }
}

/// Makes the change now: see `apply_at`, which this calls with the time that
/// the clock shows.
pub fn apply(tasks: &mut Vec<Task>, edit: &Edit) -> (outcome: Outcome)
    ensures
        outcome == outcome_of(views(old(tasks)@), edit@),
        exists|now: Timestamp|
            views(final(tasks)@) == #[trigger] applied(views(old(tasks)@), edit@, now),
        !outcome.saves() ==> final(tasks)@ == old(tasks)@,
{
    let now = current_time();
    apply_at(tasks, edit, now)
}

/// A change whose outcome does not ask for the collection to be written back
/// has not changed it.
pub proof fn unsaved_is_unchanged(tasks: Seq<TaskView>, edit: EditView, now: Timestamp)
    requires
        !outcome_of(tasks, edit).saves(),
    ensures
        applied(tasks, edit, now) == tasks,
{
    match edit {
        EditView::Add { .. } => {},
        EditView::Update { id, .. } | EditView::Delete { id } | EditView::Mark { id, .. } => {
            lemma_position(tasks, id);
            lemma_filter_all(tasks, not_id(id));
        },
    }
}

/// Updating, marking or deleting by an id that no task has is reported as
/// not found, an outcome that does not ask for the collection to be written
/// back.
pub proof fn missing_id_is_not_saved(tasks: Seq<TaskView>, edit: EditView, id: u32)
    requires
        !has_id(tasks, id),
        target_of(edit) == Some(id),
    ensures
        outcome_of(tasks, edit) == (Outcome::NotFound { id }),
        !outcome_of(tasks, edit).saves(),
{
}

} // verus!
