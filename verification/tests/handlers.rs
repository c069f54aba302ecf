use chrono::Utc;
use task_tracker::commands::{
    add_task, add_task_at, delete_task, find_task, largest_id, list_tasks, mark_task,
    mark_task_at, tasks_in_status, update_task, update_task_at,
};
use task_tracker::status::Status;
use task_tracker::task::Task;
use task_tracker::timestamp::Timestamp;

fn now() -> Timestamp {
    let now = Utc::now();
    Timestamp::new(now.timestamp(), now.timestamp_subsec_nanos())
}

fn setup_tasks() -> Vec<Task> {
    vec![
        Task {
            id: 1,
            description: "Test task 1".to_string(),
            status: Status::parse("todo").unwrap(),
            created_at: now(),
            updated_at: now(),
        },
        Task {
            id: 2,
            description: "Test task 2".to_string(),
            status: Status::parse("in-progress").unwrap(),
            created_at: now(),
            updated_at: now(),
        },
    ]
}

fn task(id: u32, description: &str, status: Status, at: i64) -> Task {
    Task {
        id,
        description: description.to_string(),
        status,
        created_at: Timestamp::new(at, 0),
        updated_at: Timestamp::new(at, 0),
    }
}

fn ids(tasks: &Vec<Task>) -> Vec<u32> {
    tasks.iter().map(|t| t.id).collect()
}

fn same(a: &Task, b: &Task) -> bool {
    a.id == b.id
        && a.description == b.description
        && a.status == b.status
        && a.created_at == b.created_at
        && a.updated_at == b.updated_at
}

fn same_all(a: &Vec<Task>, b: &Vec<Task>) -> bool {
    a.len() == b.len() && a.iter().zip(b.iter()).all(|(x, y)| same(x, y))
}

#[test]
fn test_add_task() {
    let mut tasks = setup_tasks();
    let description = "New test task";
    let new_id = add_task(&mut tasks, description);

    assert_eq!(tasks.len(), 3);
    assert_eq!(tasks[2].description, "New test task");
    assert_eq!(new_id, Some(3));
    assert_eq!(tasks[2].id, 3);
    assert_eq!(tasks[2].status.as_str(), "todo");
}

#[test]
fn test_update_task() {
    let mut tasks = setup_tasks();
    let id = 1;
    let new_description = "Updated test task 1";

    let found = update_task(&mut tasks, id, new_description);

    assert!(found);
    assert_eq!(tasks[0].description, "Updated test task 1");
}

#[test]
fn test_delete_task() {
    let mut tasks = setup_tasks();
    let id = 1;
    let initial_len = tasks.len();
    let removed = delete_task(&mut tasks, id);

    assert!(removed);
    assert_eq!(tasks.len(), initial_len - 1);
    assert!(tasks.iter().all(|task| task.id != id));
}

#[test]
fn test_mark_task() {
    let mut tasks = setup_tasks();
    let id = 1;
    let new_status = "done";

    let found = mark_task(&mut tasks, id, Status::parse(new_status).unwrap());

    assert!(found);
    assert_eq!(tasks[0].status.as_str(), "done");
}

#[test]
fn test_list_tasks() {
    let tasks = setup_tasks();
    let done_tasks: Vec<&Task> = list_tasks(&tasks, Some("done"));

    assert!(done_tasks.is_empty());

    let todo_tasks: Vec<&Task> = list_tasks(&tasks, Some("todo"));
    assert_eq!(todo_tasks.len(), 1);
    assert_eq!(todo_tasks[0].description, "Test task 1");
}

#[test]
fn first_task_gets_id_one() {
    let mut tasks: Vec<Task> = Vec::new();
    let at = Timestamp::new(1_700_000_000, 5);
    assert_eq!(add_task_at(&mut tasks, "buy milk", at), Some(1));
    assert_eq!(tasks.len(), 1);
    assert_eq!(tasks[0].id, 1);
    assert_eq!(tasks[0].description, "buy milk");
    assert_eq!(tasks[0].status, Status::Todo);
    assert_eq!(tasks[0].created_at, at);
    assert_eq!(tasks[0].updated_at, at);
}

#[test]
fn new_id_is_one_above_the_largest() {
    let mut tasks = vec![
        task(7, "a", Status::Todo, 10),
        task(3, "b", Status::Done, 11),
        task(5, "c", Status::InProgress, 12),
    ];
    assert_eq!(largest_id(&tasks), 7);
    assert_eq!(add_task_at(&mut tasks, "d", Timestamp::new(13, 0)), Some(8));
    assert_eq!(ids(&tasks), vec![7, 3, 5, 8]);
    assert_eq!(add_task_at(&mut tasks, "e", Timestamp::new(14, 0)), Some(9));
    assert_eq!(ids(&tasks), vec![7, 3, 5, 8, 9]);
}

#[test]
fn added_ids_never_repeat() {
    let mut tasks: Vec<Task> = Vec::new();
    for n in 1..=20u32 {
        assert_eq!(add_task_at(&mut tasks, "task", Timestamp::new(n as i64, 0)), Some(n));
    }
    let mut seen = ids(&tasks);
    seen.sort();
    seen.dedup();
    assert_eq!(seen.len(), 20);
}

#[test]
fn id_follows_the_largest_left_after_a_deletion() {
    let mut tasks: Vec<Task> = Vec::new();
    add_task_at(&mut tasks, "a", Timestamp::new(1, 0));
    add_task_at(&mut tasks, "b", Timestamp::new(2, 0));
    add_task_at(&mut tasks, "c", Timestamp::new(3, 0));
    assert!(delete_task(&mut tasks, 2));
    assert_eq!(add_task_at(&mut tasks, "d", Timestamp::new(4, 0)), Some(4));
    assert_eq!(ids(&tasks), vec![1, 3, 4]);
}

#[test]
fn nothing_is_added_when_ids_run_out() {
    let mut tasks = vec![task(u32::MAX, "last", Status::Todo, 1)];
    let before = tasks.clone();
    assert_eq!(largest_id(&tasks), u32::MAX);
    assert_eq!(add_task_at(&mut tasks, "one more", Timestamp::new(2, 0)), None);
    assert!(same_all(&tasks, &before));
    assert_eq!(add_task(&mut tasks, "one more"), None);
    assert!(same_all(&tasks, &before));
}

#[test]
fn largest_id_of_nothing_is_zero() {
    let tasks: Vec<Task> = Vec::new();
    assert_eq!(largest_id(&tasks), 0);
}

#[test]
fn added_task_carries_the_time_of_the_clock() {
    let mut tasks: Vec<Task> = Vec::new();
    let before = now();
    assert_eq!(add_task(&mut tasks, "timed"), Some(1));
    let after = now();
    assert_eq!(tasks[0].created_at, tasks[0].updated_at);
    assert!(tasks[0].created_at.secs > 1_600_000_000);
    assert!(tasks[0].created_at.nanos < 1_000_000_000);
    assert!(before.is_le(&tasks[0].created_at));
    assert!(tasks[0].created_at.is_le(&after));
}

#[test]
fn find_gives_the_first_with_the_id() {
    let tasks = vec![
        task(4, "a", Status::Todo, 1),
        task(9, "b", Status::Todo, 2),
        task(4, "c", Status::Todo, 3),
    ];
    assert_eq!(find_task(&tasks, 4), Some(0));
    assert_eq!(find_task(&tasks, 9), Some(1));
    assert_eq!(find_task(&tasks, 5), None);
    assert_eq!(find_task(&Vec::new(), 1), None);
}

#[test]
fn update_changes_description_and_time_only() {
    let mut tasks = vec![
        task(1, "one", Status::Done, 100),
        task(2, "two", Status::InProgress, 200),
        task(3, "three", Status::Todo, 300),
    ];
    let before = tasks.clone();
    let at = Timestamp::new(999, 7);
    assert!(update_task_at(&mut tasks, 2, "two, again", at));
    assert_eq!(tasks.len(), 3);
    assert!(same(&tasks[0], &before[0]));
    assert!(same(&tasks[2], &before[2]));
    assert_eq!(tasks[1].id, 2);
    assert_eq!(tasks[1].description, "two, again");
    assert_eq!(tasks[1].status, Status::InProgress);
    assert_eq!(tasks[1].created_at, Timestamp::new(200, 0));
    assert_eq!(tasks[1].updated_at, at);
}

#[test]
fn mark_changes_status_and_time_only() {
    let mut tasks = vec![
        task(1, "one", Status::Done, 100),
        task(2, "two", Status::Todo, 200),
        task(3, "three", Status::Todo, 300),
    ];
    let before = tasks.clone();
    let at = Timestamp::new(250, 0);
    assert!(mark_task_at(&mut tasks, 2, Status::InProgress, at));
    assert_eq!(tasks.len(), 3);
    assert!(same(&tasks[0], &before[0]));
    assert!(same(&tasks[2], &before[2]));
    assert_eq!(tasks[1].id, 2);
    assert_eq!(tasks[1].description, "two");
    assert_eq!(tasks[1].status, Status::InProgress);
    assert_eq!(tasks[1].created_at, Timestamp::new(200, 0));
    assert_eq!(tasks[1].updated_at, at);
}

#[test]
fn any_status_may_follow_any_other() {
    let all = [Status::Todo, Status::InProgress, Status::Done];
    for from in all {
        for to in all {
            let mut tasks = vec![task(1, "t", from, 1)];
            assert!(mark_task_at(&mut tasks, 1, to, Timestamp::new(2, 0)));
            assert_eq!(tasks[0].status, to);
        }
    }
}

#[test]
fn update_reaches_only_the_first_of_equal_ids() {
    let mut tasks = vec![
        task(4, "first", Status::Todo, 1),
        task(4, "second", Status::Todo, 2),
    ];
    assert!(update_task_at(&mut tasks, 4, "changed", Timestamp::new(3, 0)));
    assert_eq!(tasks[0].description, "changed");
    assert_eq!(tasks[1].description, "second");
    assert!(mark_task_at(&mut tasks, 4, Status::Done, Timestamp::new(4, 0)));
    assert_eq!(tasks[0].status, Status::Done);
    assert_eq!(tasks[1].status, Status::Todo);
}

#[test]
fn delete_removes_every_task_with_the_id() {
    let mut tasks = vec![
        task(4, "a", Status::Todo, 1),
        task(9, "b", Status::Todo, 2),
        task(4, "c", Status::Todo, 3),
        task(2, "d", Status::Todo, 4),
        task(4, "e", Status::Todo, 5),
    ];
    assert!(delete_task(&mut tasks, 4));
    assert_eq!(ids(&tasks), vec![9, 2]);
    assert_eq!(tasks[0].description, "b");
    assert_eq!(tasks[1].description, "d");
}

#[test]
fn delete_keeps_the_order_of_the_rest() {
    let mut tasks = vec![
        task(1, "a", Status::Todo, 1),
        task(2, "b", Status::Done, 2),
        task(3, "c", Status::Todo, 3),
    ];
    let before = tasks.clone();
    assert!(delete_task(&mut tasks, 1));
    assert_eq!(tasks.len(), 2);
    assert!(same(&tasks[0], &before[1]));
    assert!(same(&tasks[1], &before[2]));
    assert!(delete_task(&mut tasks, 3));
    assert_eq!(tasks.len(), 1);
    assert!(same(&tasks[0], &before[1]));
    assert!(delete_task(&mut tasks, 2));
    assert!(tasks.is_empty());
}

#[test]
fn missing_id_changes_nothing() {
    let mut tasks = setup_tasks();
    let before = tasks.clone();
    assert!(!update_task_at(&mut tasks, 3, "x", Timestamp::new(1, 0)));
    assert!(same_all(&tasks, &before));
    assert!(!update_task(&mut tasks, 3, "x"));
    assert!(same_all(&tasks, &before));
    assert!(!mark_task_at(&mut tasks, 0, Status::Done, Timestamp::new(1, 0)));
    assert!(same_all(&tasks, &before));
    assert!(!mark_task(&mut tasks, 0, Status::Done));
    assert!(same_all(&tasks, &before));
    assert!(!delete_task(&mut tasks, 42));
    assert!(same_all(&tasks, &before));
}

#[test]
fn missing_id_in_an_empty_collection() {
    let mut tasks: Vec<Task> = Vec::new();
    assert!(!update_task_at(&mut tasks, 1, "x", Timestamp::new(1, 0)));
    assert!(!mark_task_at(&mut tasks, 1, Status::Done, Timestamp::new(1, 0)));
    assert!(!delete_task(&mut tasks, 1));
    assert!(tasks.is_empty());
}

#[test]
fn listing_holds_exactly_the_tasks_in_the_status() {
    let tasks = vec![
        task(1, "a", Status::Todo, 1),
        task(2, "b", Status::Done, 2),
        task(3, "c", Status::InProgress, 3),
        task(4, "d", Status::Done, 4),
        task(5, "e", Status::Todo, 5),
    ];
    let shown = |filter: Option<&str>| -> Vec<u32> {
        list_tasks(&tasks, filter).iter().map(|t| t.id).collect()
    };
    assert_eq!(shown(Some("todo")), vec![1, 5]);
    assert_eq!(shown(Some("in-progress")), vec![3]);
    assert_eq!(shown(Some("done")), vec![2, 4]);
    assert_eq!(shown(None), vec![1, 2, 3, 4, 5]);
}

#[test]
fn unrecognised_filter_lists_everything() {
    let tasks = setup_tasks();
    for filter in ["", "Done", "TODO", "in progress", "done ", "todos", "all", "in-progress\n"] {
        assert_eq!(list_tasks(&tasks, Some(filter)).len(), 2);
    }
    assert_eq!(list_tasks(&tasks, None).len(), 2);
}

#[test]
fn listing_by_status_value() {
    let tasks = setup_tasks();
    assert_eq!(tasks_in_status(&tasks, Some(Status::InProgress)).len(), 1);
    assert_eq!(tasks_in_status(&tasks, Some(Status::InProgress))[0].id, 2);
    assert_eq!(tasks_in_status(&tasks, Some(Status::Done)).len(), 0);
    assert_eq!(tasks_in_status(&tasks, None).len(), 2);
    assert!(list_tasks(&Vec::new(), Some("todo")).is_empty());
}

#[test]
fn listing_shows_the_tasks_themselves() {
    let tasks = setup_tasks();
    let list = list_tasks(&tasks, Some("in-progress"));
    assert_eq!(list.len(), 1);
    assert!(same(list[0], &tasks[1]));
}

#[test]
fn add_mark_list_delete() {
    let mut tasks: Vec<Task> = Vec::new();
    let created = Timestamp::new(1_700_000_000, 0);
    assert_eq!(add_task_at(&mut tasks, "buy milk", created), Some(1));
    assert_eq!(tasks[0].id, 1);
    assert_eq!(tasks[0].status.as_str(), "todo");

    let later = Timestamp::new(1_700_000_060, 0);
    assert!(mark_task_at(&mut tasks, 1, Status::Done, later));
    assert_eq!(tasks[0].status.as_str(), "done");
    assert_eq!(tasks[0].created_at, created);
    assert_eq!(tasks[0].updated_at, later);
    assert!(tasks[0].created_at.is_le(&tasks[0].updated_at));
    assert!(!tasks[0].updated_at.is_le(&tasks[0].created_at));

    let done = list_tasks(&tasks, Some("done"));
    assert_eq!(done.len(), 1);
    assert_eq!(done[0].id, 1);

    assert!(delete_task(&mut tasks, 1));
    assert!(list_tasks(&tasks, None).is_empty());
}
