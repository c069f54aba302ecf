//! The three states a task can be in, and their textual forms.

use vstd::prelude::*;

verus! {

/// The state of a task.
#[derive(Clone, Copy, Debug, PartialEq, Eq, Structural)]
pub enum Status {
    Todo,
    InProgress,
    Done,
}

/// The status that a piece of text names, if it names one. The text has to
/// match one of the three forms exactly.
pub open spec fn status_of_text(text: Seq<char>) -> Option<Status> {
    if text == "todo"@ {
        Some(Status::Todo)
    } else if text == "in-progress"@ {
        Some(Status::InProgress)
    } else if text == "done"@ {
        Some(Status::Done)
    } else {
        None
    }
}

impl Status {
    /// The textual form of a status, as it is shown and stored.
    pub open spec fn text(self) -> Seq<char> {
        match self {
            Status::Todo => "todo"@,
            Status::InProgress => "in-progress"@,
            Status::Done => "done"@,
        }
    }

    /// The textual form of this status.
    pub fn as_str(&self) -> (s: &'static str)
        ensures
            s@ == self.text(),
    {
        match self {
            Status::Todo => "todo",
            Status::InProgress => "in-progress",
            Status::Done => "done",
        }
    }

    /// Reads a status from its textual form. Anything but the three exact
    /// forms gives `None`.
    pub fn parse(text: &str) -> (r: Option<Status>)
        ensures
            r == status_of_text(text@),
    {
        let owned = text.to_owned();
        if owned == "todo".to_owned() {
            Some(Status::Todo)
        } else if owned == "in-progress".to_owned() {
            Some(Status::InProgress)
        } else if owned == "done".to_owned() {
            Some(Status::Done)
        } else {
            None
        }
    }
}

/// The three textual forms are pairwise different, so reading back the text
/// of a status gives that status.
pub proof fn status_text_round_trip(status: Status)
    ensures
        status_of_text(status.text()) == Some(status),
{
    reveal_strlit("todo");
    reveal_strlit("in-progress");
    reveal_strlit("done");
    assert("done"@[0] == 'd');
    assert("todo"@[0] == 't');
}

} // verus!
