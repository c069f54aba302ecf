use task_tracker::edits::Outcome;
use task_tracker::report::{decimal, line_of, message, task_line};
use task_tracker::status::Status;
use task_tracker::task::Task;
use task_tracker::timestamp::Timestamp;

fn sample() -> Task {
    Task {
        id: 12,
        description: "buy milk".to_string(),
        status: Status::InProgress,
        created_at: Timestamp::new(1_431_648_000, 0),
        updated_at: Timestamp::new(1_431_648_061, 500_000_000),
    }
}

#[test]
fn numbers_in_decimal() {
    assert_eq!(decimal(0), "0");
    assert_eq!(decimal(7), "7");
    assert_eq!(decimal(10), "10");
    assert_eq!(decimal(109), "109");
    assert_eq!(decimal(4_294_967_295), "4294967295");
    for n in [0u32, 1, 9, 10, 11, 99, 100, 101, 1_000, 65_535, 1_234_567_890, u32::MAX] {
        assert_eq!(decimal(n), n.to_string());
    }
}

#[test]
fn messages_of_outcomes() {
    assert_eq!(message(&Outcome::Added { id: 1 }), "Task added successfully (ID: 1)");
    assert_eq!(message(&Outcome::Updated { id: 23 }), "Task updated successfully (ID: 23)");
    assert_eq!(message(&Outcome::Deleted { id: 4 }), "Task deleted successfully (ID: 4)");
    assert_eq!(
        message(&Outcome::Marked { id: 5, status: Status::Done }),
        "Task marked as done (ID: 5)"
    );
    assert_eq!(
        message(&Outcome::Marked { id: 5, status: Status::InProgress }),
        "Task marked as in-progress (ID: 5)"
    );
    assert_eq!(message(&Outcome::NotFound { id: 600 }), "Task not found (ID: 600)");
    assert_eq!(message(&Outcome::OutOfIds), "No id is left for a new task");
}

#[test]
fn line_with_given_times() {
    assert_eq!(
        line_of(&sample(), "yesterday", "today"),
        "ID: 12, Description: buy milk, Status: in-progress, Created At: yesterday, Updated At: today"
    );
}

#[test]
fn line_with_the_times_of_the_task() {
    assert_eq!(
        task_line(&sample()),
        Some(
            "ID: 12, Description: buy milk, Status: in-progress, \
             Created At: 2015-05-15 00:00:00 UTC, Updated At: 2015-05-15 00:01:01.500 UTC"
                .to_string()
        )
    );
}

#[test]
fn line_is_what_formatting_the_moments_gives() {
    let task = sample();
    let created = chrono::DateTime::from_timestamp(1_431_648_000, 0).unwrap();
    let updated = chrono::DateTime::from_timestamp(1_431_648_061, 500_000_000).unwrap();
    let expected = format!(
        "ID: {}, Description: {}, Status: {}, Created At: {}, Updated At: {}",
        task.id,
        task.description,
        task.status.as_str(),
        created,
        updated
    );
    assert_eq!(task_line(&task), Some(expected));
}

#[test]
fn no_line_for_a_time_that_cannot_be_shown() {
    let mut task = sample();
    task.updated_at = Timestamp::new(i64::MAX, 0);
    assert_eq!(task_line(&task), None);
    let mut task = sample();
    task.created_at = Timestamp::new(0, 2_000_000_000);
    assert_eq!(task_line(&task), None);
    let mut task = sample();
    task.created_at = Timestamp::new(0, 1_500_000_000);
    assert_eq!(task_line(&task), None);
    let mut task = sample();
    task.created_at = Timestamp::new(59, 1_500_000_000);
    assert!(task_line(&task).is_some());
}
