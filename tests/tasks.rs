use forgetful_me::date::CalendarDate;
use forgetful_me::tasks::{Task, TaskError, TaskManager, TaskStatus};
use forgetful_me::urgency::days_until;
use forgetful_me::urgency::{urgency_of_days, Urgency};

fn day(y: i32, m: u32, d: u32) -> CalendarDate {
    CalendarDate::new(y, m, d).unwrap()
}

fn task(id: u32, name: &str, status: TaskStatus, deadline: &str) -> Task {
    Task {
        id,
        name: name.to_string(),
        description: String::new(),
        status,
        date_posted: "2024-01-01".to_string(),
        date_deadline: deadline.to_string(),
    }
}

fn store_of(names: &[&str]) -> TaskManager {
    let mut tm = TaskManager::new();
    for n in names {
        tm.create(n.to_string(), "d".to_string(), day(2024, 1, 1), None).unwrap();
    }
    tm
}

fn ids(tm: &TaskManager) -> Vec<u32> {
    tm.get_tasklist().iter().map(|t| t.id).collect()
}

fn names(tm: &TaskManager) -> Vec<String> {
    tm.get_tasklist().iter().map(|t| t.name.clone()).collect()
}

#[test]
fn first_two_ids() {
    let mut tm = TaskManager::new();
    assert!(tm.is_first_task());
    let a = tm.create("a".to_string(), "x".to_string(), day(2024, 1, 1), None).unwrap();
    assert_eq!(a.id, 0);
    let b = tm.create("b".to_string(), "y".to_string(), day(2024, 1, 1), None).unwrap();
    assert_eq!(b.id, 1);
    assert!(!tm.is_first_task());
    assert_eq!(tm.get_last_id(), 1);
}

#[test]
fn create_fills_fields() {
    let mut tm = TaskManager::new();
    let t = tm
        .create("Pay rent".to_string(), "monthly".to_string(), day(2024, 3, 5), Some(day(987, 1, 2)))
        .unwrap();
    assert_eq!(t.name, "Pay rent");
    assert_eq!(t.description, "monthly");
    assert_eq!(t.status, TaskStatus::Incomplete);
    assert_eq!(t.date_posted, "2024-03-05");
    assert_eq!(t.date_deadline, "0987-01-02");
    let list = tm.get_tasklist();
    assert_eq!(list.len(), 1);
    assert_eq!(list[0].date_deadline, "0987-01-02");
}

#[test]
fn create_without_deadline_stores_sentinel() {
    let mut tm = TaskManager::new();
    let t = tm.create("a".to_string(), "b".to_string(), day(2024, 1, 1), None).unwrap();
    assert_eq!(t.date_deadline, "0000-00-00");
    let mut other = TaskManager::new();
    other.load(Some(tm.get_tasklist()));
    let list = other.get_tasklist();
    assert_eq!(list.len(), 1);
    assert_eq!(list[0].date_deadline, "0000-00-00");
    assert_eq!(list[0].date_posted, "2024-01-01");
}

#[test]
fn load_missing_list_is_empty() {
    let mut tm = store_of(&["a", "b"]);
    tm.load(None);
    assert!(tm.is_first_task());
    assert_eq!(tm.get_tasklist().len(), 0);
}

#[test]
fn create_id_follows_largest() {
    let mut tm = TaskManager::new();
    tm.save_task(task(5, "a", TaskStatus::Incomplete, "0000-00-00")).unwrap();
    tm.save_task(task(2, "b", TaskStatus::Incomplete, "0000-00-00")).unwrap();
    let t = tm.create("c".to_string(), "d".to_string(), day(2024, 1, 1), None).unwrap();
    assert_eq!(t.id, 6);
}

#[test]
fn create_rejects_long_name() {
    let mut tm = TaskManager::new();
    let name = "n".repeat(31);
    let r = tm.create(name, "d".to_string(), day(2024, 1, 1), None);
    assert!(matches!(r, Err(TaskError::NameTooLong)));
    assert!(tm.is_first_task());
    let ok = tm.create("é".repeat(30), "d".to_string(), day(2024, 1, 1), None);
    assert!(ok.is_ok());
}

#[test]
fn create_rejects_long_description() {
    let mut tm = TaskManager::new();
    let r = tm.create("n".to_string(), "d".repeat(101), day(2024, 1, 1), None);
    assert!(matches!(r, Err(TaskError::DescriptionTooLong)));
    assert!(tm.get_tasklist().is_empty());
    assert!(tm.create("n".to_string(), "d".repeat(100), day(2024, 1, 1), None).is_ok());
}

#[test]
fn create_rejects_exhausted_ids() {
    let mut tm = TaskManager::new();
    tm.save_task(task(u32::MAX, "a", TaskStatus::Incomplete, "0000-00-00")).unwrap();
    let r = tm.create("n".to_string(), "d".to_string(), day(2024, 1, 1), None);
    assert!(matches!(r, Err(TaskError::IdsExhausted)));
    assert_eq!(tm.get_tasklist().len(), 1);
}

#[test]
fn delete_renumbers() {
    let mut tm = store_of(&["a", "b", "c"]);
    tm.delete_tasks(vec![1]);
    assert_eq!(ids(&tm), vec![0, 1]);
    assert_eq!(names(&tm), vec!["a".to_string(), "c".to_string()]);
}

#[test]
fn delete_several() {
    let mut tm = store_of(&["a", "b", "c", "d", "e"]);
    tm.delete_tasks(vec![3, 0, 3]);
    assert_eq!(ids(&tm), vec![0, 1, 2]);
    assert_eq!(names(&tm), vec!["b".to_string(), "c".to_string(), "e".to_string()]);
}

#[test]
fn delete_absent_id_unchanged() {
    let mut tm = store_of(&["a", "b"]);
    tm.delete_tasks(vec![7]);
    assert_eq!(ids(&tm), vec![0, 1]);
    assert_eq!(names(&tm), vec!["a".to_string(), "b".to_string()]);
}

#[test]
fn toggle_twice_restores() {
    let mut tm = store_of(&["a", "b"]);
    tm.switch_task_status(vec![1]);
    assert_eq!(tm.get_tasklist()[1].status, TaskStatus::Complete);
    assert_eq!(tm.get_tasklist()[0].status, TaskStatus::Incomplete);
    tm.switch_task_status(vec![1]);
    assert_eq!(tm.get_tasklist()[1].status, TaskStatus::Incomplete);
}

#[test]
fn toggle_skips_unknown_ids() {
    let mut tm = store_of(&["a"]);
    tm.switch_task_status(vec![4, 0]);
    assert_eq!(tm.get_tasklist()[0].status, TaskStatus::Complete);
    assert_eq!(ids(&tm), vec![0]);
}

#[test]
fn toggle_checks_id_at_position() {
    let mut tm = TaskManager::new();
    tm.save_task(task(3, "a", TaskStatus::Incomplete, "0000-00-00")).unwrap();
    tm.switch_task_status(vec![0]);
    let list = tm.get_tasklist();
    assert_eq!(list[0].status, TaskStatus::Incomplete);
    assert_eq!(list[0].id, 0);
}

#[test]
fn counts_by_status() {
    let mut tm = store_of(&["a", "b", "c"]);
    tm.switch_task_status(vec![0, 2]);
    assert_eq!(tm.count_with_status(TaskStatus::Complete), 2);
    assert_eq!(tm.count_with_status(TaskStatus::Incomplete), 1);
    let done = tm.tasks_with_status(TaskStatus::Complete);
    assert_eq!(done.len(), 2);
    assert_eq!(done[0].name, "a");
    assert_eq!(done[1].name, "c");
    let open = tm.tasks_with_status(TaskStatus::Incomplete);
    assert_eq!(open.len(), 1);
    assert_eq!(open[0].name, "b");
}

#[test]
fn ids_from_selection_lines() {
    let tm = TaskManager::new();
    let lines = vec![
        "ID:12\nName:x3\nDescription:9".to_string(),
        "ID:0\nName:y".to_string(),
        "ID:4294967295".to_string(),
    ];
    assert_eq!(tm.get_id_from_str(lines), Some(vec![12, 0, 4294967295]));
    assert_eq!(tm.get_id_from_str(vec!["Name only\n1".to_string()]), None);
    assert_eq!(tm.get_id_from_str(vec!["ID:4294967296".to_string()]), None);
    assert_eq!(tm.get_id_from_str(vec![]), Some(vec![]));
}

#[test]
fn urgency_by_days() {
    assert_eq!(urgency_of_days(10), Urgency::OnTrack);
    assert_eq!(urgency_of_days(7), Urgency::OnTrack);
    assert_eq!(urgency_of_days(6), Urgency::Approaching);
    assert_eq!(urgency_of_days(1), Urgency::Approaching);
    assert_eq!(urgency_of_days(0), Urgency::DueToday);
    assert_eq!(urgency_of_days(-1), Urgency::Overdue);
}

#[test]
fn days_diff_counts_calendar_days() {
    let tm = TaskManager::new();
    assert_eq!(tm.get_days_diff(day(2024, 3, 1), day(2024, 2, 28)), 2);
    assert_eq!(tm.get_days_diff(day(2023, 3, 1), day(2023, 2, 28)), 1);
    assert_eq!(tm.get_days_diff(day(2023, 12, 30), day(2024, 1, 1)), -2);
    assert_eq!(tm.get_days_diff(day(2025, 1, 1), day(2024, 1, 1)), 366);
}

#[test]
fn deadline_classification() {
    let today = day(2024, 1, 1);
    let at = |d: &str| task(0, "t", TaskStatus::Incomplete, d).deadline_urgency(today);
    assert_eq!(at("2024-01-11"), Some(Urgency::OnTrack));
    assert_eq!(at("2024-01-04"), Some(Urgency::Approaching));
    assert_eq!(at("2024-01-01"), Some(Urgency::DueToday));
    assert_eq!(at("2023-12-30"), Some(Urgency::Overdue));
    assert_eq!(at("0000-00-00"), None);
}

#[test]
fn urgency_counts_skip_complete_and_undated() {
    let mut tm = TaskManager::new();
    tm.save_task(task(0, "a", TaskStatus::Incomplete, "2024-01-11")).unwrap();
    tm.save_task(task(1, "b", TaskStatus::Incomplete, "2024-01-04")).unwrap();
    tm.save_task(task(2, "c", TaskStatus::Incomplete, "2024-01-01")).unwrap();
    tm.save_task(task(3, "d", TaskStatus::Incomplete, "2023-12-30")).unwrap();
    tm.save_task(task(4, "e", TaskStatus::Complete, "2023-12-30")).unwrap();
    tm.save_task(task(5, "f", TaskStatus::Incomplete, "0000-00-00")).unwrap();
    tm.save_task(task(6, "g", TaskStatus::Incomplete, "2024-02-10")).unwrap();
    let c = tm.urgency_counts(day(2024, 1, 1));
    assert_eq!(c.on_track, 2);
    assert_eq!(c.approaching, 1);
    assert_eq!(c.due_today, 1);
    assert_eq!(c.overdue, 1);
}

#[test]
fn date_parsing() {
    assert_eq!(CalendarDate::parse("2024-02-29"), Some(day(2024, 2, 29)));
    assert_eq!(CalendarDate::parse("2023-02-29"), None);
    assert_eq!(CalendarDate::parse("2024-2-03"), None);
    assert_eq!(CalendarDate::parse("abcd-ef-gh"), None);
    assert_eq!(CalendarDate::parse("0000-00-00"), None);
    assert_eq!(CalendarDate::parse("2024-01-011"), None);
    assert_eq!(CalendarDate::new(2000, 2, 29).map(|d| d.day), Some(29));
    assert_eq!(CalendarDate::new(1900, 2, 29), None);
    assert_eq!(CalendarDate::new(2024, 13, 1), None);
    assert_eq!(CalendarDate::new(10000, 1, 1), None);
}

#[test]
fn reminder_scenario() {
    let today = day(2024, 1, 1);
    let mut tm = TaskManager::new();
    tm.create("Pay rent".to_string(), "...".to_string(), today, Some(day(2024, 1, 11))).unwrap();
    tm.create("Call dentist".to_string(), "...".to_string(), today, None).unwrap();
    let list = tm.get_tasklist();
    assert_eq!(list.len(), 2);
    assert_eq!(list[0].id, 0);
    assert_eq!(list[1].id, 1);
    assert_eq!(list[0].deadline_urgency(today), Some(Urgency::OnTrack));
    assert_eq!(list[1].deadline_urgency(today), None);
    let c = tm.urgency_counts(today);
    assert_eq!((c.on_track, c.approaching, c.due_today, c.overdue), (1, 0, 0, 0));
    tm.delete_tasks(vec![0]);
    let list = tm.get_tasklist();
    assert_eq!(list.len(), 1);
    assert_eq!(list[0].id, 0);
    assert_eq!(list[0].name, "Call dentist");
}

#[test]
fn toggle_same_id_twice_in_one_call() {
    let mut tm = store_of(&["a", "b"]);
    tm.switch_task_status(vec![0, 0]);
    assert_eq!(tm.get_tasklist()[0].status, TaskStatus::Incomplete);
    tm.switch_task_status(vec![0, 1, 0, 1, 1]);
    let list = tm.get_tasklist();
    assert_eq!(list[0].status, TaskStatus::Incomplete);
    assert_eq!(list[1].status, TaskStatus::Complete);
}

#[test]
fn create_after_delete_uses_next_position() {
    let mut tm = store_of(&["a", "b", "c"]);
    tm.delete_tasks(vec![2]);
    let t = tm.create("d".to_string(), "x".to_string(), day(2024, 1, 1), None).unwrap();
    assert_eq!(t.id, 2);
    assert_eq!(ids(&tm), vec![0, 1, 2]);
}

#[test]
fn save_task_rejects_long_name() {
    let mut tm = store_of(&["a"]);
    let r = tm.save_task(task(1, &"n".repeat(31), TaskStatus::Incomplete, "0000-00-00"));
    assert_eq!(r, Err(TaskError::NameTooLong));
    assert_eq!(names(&tm), vec!["a".to_string()]);
    let ok = tm.save_task(task(1, &"é".repeat(30), TaskStatus::Incomplete, "0000-00-00"));
    assert_eq!(ok, Ok(()));
    assert_eq!(tm.get_tasklist().len(), 2);
}

#[test]
fn save_task_rejects_long_description() {
    let mut tm = TaskManager::new();
    let mut t = task(0, "a", TaskStatus::Incomplete, "0000-00-00");
    t.description = "d".repeat(101);
    assert_eq!(tm.save_task(t.clone()), Err(TaskError::DescriptionTooLong));
    assert!(tm.is_first_task());
    t.description = "d".repeat(100);
    assert_eq!(tm.save_task(t), Ok(()));
    assert_eq!(tm.get_tasklist()[0].description.len(), 100);
}

#[test]
fn day_count_matches_calendar() {
    assert_eq!(days_until(day(2028, 3, 1), day(2028, 2, 28)), 2);
    assert_eq!(days_until(day(1, 1, 1), day(0, 12, 31)), 1);
    assert_eq!(days_until(day(1, 1, 1), day(0, 1, 1)), 366);
    assert_eq!(days_until(day(2000, 3, 1), day(1900, 3, 1)), 36525);
}
