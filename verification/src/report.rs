//! The texts that the tracker shows: a line for each listed task, and a
//! message for the outcome of each change.

use vstd::prelude::*;
use vstd::string::*;
use crate::cli::{decimal_value, id_of_text, is_digit};
use crate::edits::Outcome;
use crate::task::{Task, TaskView};
use crate::timestamp::{moment_text, show_moment};

verus! {

/// The character of a decimal digit.
pub open spec fn digit_char(d: nat) -> char {
    if d == 0 {
        '0'
    } else if d == 1 {
        '1'
    } else if d == 2 {
        '2'
    } else if d == 3 {
        '3'
    } else if d == 4 {
        '4'
    } else if d == 5 {
        '5'
    } else if d == 6 {
        '6'
    } else if d == 7 {
        '7'
    } else if d == 8 {
        '8'
    } else {
        '9'
    }
}

/// A number in decimal digits, without leading zeros.
pub open spec fn decimal_text(n: nat) -> Seq<char>
    decreases n,
{
    if n < 10 {
        seq![digit_char(n)]
    } else {
        decimal_text(n / 10).push(digit_char(n % 10))
    }
}

/// The message for an outcome.
pub open spec fn message_text(outcome: Outcome) -> Seq<char> {
    match outcome {
        Outcome::Added { id } => "Task added successfully (ID: "@ + decimal_text(id as nat)
            + ")"@,
        Outcome::Updated { id } => "Task updated successfully (ID: "@ + decimal_text(id as nat)
            + ")"@,
        Outcome::Deleted { id } => "Task deleted successfully (ID: "@ + decimal_text(id as nat)
            + ")"@,
        Outcome::Marked { id, status } => "Task marked as "@ + status.text() + " (ID: "@
            + decimal_text(id as nat) + ")"@,
        Outcome::NotFound { id } => "Task not found (ID: "@ + decimal_text(id as nat) + ")"@,
        Outcome::OutOfIds => "No id is left for a new task"@,
    }
}

/// The line that shows a task, given the texts of its two times.
pub open spec fn line_text(task: TaskView, created: Seq<char>, updated: Seq<char>) -> Seq<char> {
    "ID: "@ + decimal_text(task.id as nat) + ", Description: "@ + task.description
        + ", Status: "@ + task.status.text() + ", Created At: "@ + created + ", Updated At: "@
        + updated
}

/// The text of one decimal digit.
fn digit_str(d: u32) -> (s: &'static str)
    requires
        d < 10,
    ensures
        s@ == seq![digit_char(d as nat)],
{
    proof {
        reveal_strlit("0");
        reveal_strlit("1");
        reveal_strlit("2");
        reveal_strlit("3");
        reveal_strlit("4");
        reveal_strlit("5");
        reveal_strlit("6");
        reveal_strlit("7");
        reveal_strlit("8");
        reveal_strlit("9");
    }
    let s = if d == 0 {
        "0"
    } else if d == 1 {
        "1"
    } else if d == 2 {
        "2"
    } else if d == 3 {
        "3"
    } else if d == 4 {
        "4"
    } else if d == 5 {
        "5"
    } else if d == 6 {
        "6"
    } else if d == 7 {
        "7"
    } else if d == 8 {
        "8"
    } else {
        "9"
    };
    s
}

/// Writes a number in decimal digits.
pub fn decimal(n: u32) -> (text: String)
    ensures
        text@ == decimal_text(n as nat),
    decreases n,
{
    if n < 10 {
        digit_str(n).to_owned()
    } else {
        let mut text = decimal(n / 10);
        text.append(digit_str(n % 10));
        text
    }
}

/// The message that tells the user of an outcome.
pub fn message(outcome: &Outcome) -> (text: String)
    ensures
        text@ == message_text(*outcome),
{
    match outcome {
        Outcome::Added { id } => {
            let mut text = "Task added successfully (ID: ".to_owned();
            text.append(decimal(*id).as_str());
            text.append(")");
            text
        },
        Outcome::Updated { id } => {
            let mut text = "Task updated successfully (ID: ".to_owned();
            text.append(decimal(*id).as_str());
            text.append(")");
            text
        },
        Outcome::Deleted { id } => {
            let mut text = "Task deleted successfully (ID: ".to_owned();
            text.append(decimal(*id).as_str());
            text.append(")");
            text
        },
        Outcome::Marked { id, status } => {
            let mut text = "Task marked as ".to_owned();
            text.append(status.as_str());
            text.append(" (ID: ");
            text.append(decimal(*id).as_str());
            text.append(")");
            text
        },
        Outcome::NotFound { id } => {
            let mut text = "Task not found (ID: ".to_owned();
            text.append(decimal(*id).as_str());
            text.append(")");
            text
        },
        Outcome::OutOfIds => "No id is left for a new task".to_owned(),
    }
}

/// The line that shows a task, given the texts of the time it was created
/// and the time it was last changed.
pub fn line_of(task: &Task, created: &str, updated: &str) -> (line: String)
    ensures
        line@ == line_text(task@, created@, updated@),
{
    let mut line = "ID: ".to_owned();
    line.append(decimal(task.id).as_str());
    line.append(", Description: ");
    line.append(task.description.as_str());
    line.append(", Status: ");
    line.append(task.status.as_str());
    line.append(", Created At: ");
    line.append(created);
    line.append(", Updated At: ");
    line.append(updated);
    line
}

/// The line that shows a task, with its two times as chrono shows them.
/// There is no line where chrono does not hold one of the two times.
pub fn task_line(task: &Task) -> (line: Option<String>)
    ensures
        match (
            moment_text(task.created_at.secs, task.created_at.nanos),
            moment_text(task.updated_at.secs, task.updated_at.nanos),
        ) {
            (Some(created), Some(updated)) => line is Some && line->0@ == line_text(
                task@,
                created,
                updated,
            ),
            _ => line is None,
        },
{
    let created = match show_moment(task.created_at.secs, task.created_at.nanos) {
        Some(text) => text,
        None => {
            return None;
        },
    };
    let updated = match show_moment(task.updated_at.secs, task.updated_at.nanos) {
        Some(text) => text,
        None => {
            return None;
        },
    };
    Some(line_of(task, created.as_str(), updated.as_str()))
}

/// A number written in decimal digits reads back as an id: the ids that the
/// messages and lines show are ids that the command line takes.
pub proof fn decimal_text_reads_back(n: u32)
    ensures
        id_of_text(decimal_text(n as nat)) == Some(n),
{
    lemma_decimal_text(n as nat);
}

/// The decimal text of a number is made of digits, at least one, and writes
/// the number.
pub proof fn lemma_decimal_text(n: nat)
    ensures
        decimal_text(n).len() > 0,
        forall|i: int| 0 <= i < decimal_text(n).len() ==> is_digit(#[trigger] decimal_text(n)[i]),
        decimal_value(decimal_text(n)) == n,
    decreases n,
{
    let text = decimal_text(n);
    if n < 10 {
        assert(decimal_value(text.drop_last()) == 0);
    } else {
        lemma_decimal_text(n / 10);
        assert(text.drop_last() =~= decimal_text(n / 10));
    }
}

} // verus!
