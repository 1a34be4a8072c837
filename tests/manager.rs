use chrono::{Datelike, Local, NaiveDate};
use todo_cli::app::{AddError, DateInput, EditError, NotFound, TodoApp};
use todo_cli::date::Date;
use todo_cli::storage::{FileRead, LoadStatus, Storage};
use todo_cli::task::Task;
use todo_cli::types::Priority;

fn fresh() -> TodoApp {
    let storage = Storage::with_dirs(Some("/tmp/todo_tests".to_string()), None);
    let (app, status) = TodoApp::new(storage, FileRead::Absent);
    assert_eq!(status, LoadStatus::Missing);
    app
}

fn day_of(y: i32, m: u32, d: u32) -> Date {
    Date { day: NaiveDate::from_ymd_opt(y, m, d).unwrap().num_days_from_ce() }
}

fn ids(app: &TodoApp) -> Vec<u32> {
    app.tasks().iter().map(|t| t.id).collect()
}

fn tags_of(app: &TodoApp, k: usize) -> Option<Vec<String>> {
    app.tasks()[k].tags.clone()
}

fn strings(v: &[&str]) -> Vec<String> {
    v.iter().map(|s| s.to_string()).collect()
}

#[test]
fn ids_increase_and_are_not_reused() {
    let mut app = fresh();
    assert_eq!(app.next_id(), 1);
    assert_eq!(app.add_task("a".to_string(), None, None, None), Ok(1));
    assert_eq!(app.add_task("b".to_string(), None, None, None), Ok(2));
    assert_eq!(app.add_task("c".to_string(), None, None, None), Ok(3));
    assert_eq!(app.next_id(), 4);
    assert_eq!(app.remove_task(2), Ok(()));
    assert_eq!(app.next_id(), 4);
    assert_eq!(app.add_task("d".to_string(), None, None, None), Ok(4));
    assert_eq!(ids(&app), vec![1, 3, 4]);
    assert_eq!(app.remove_task(4), Ok(()));
    assert_eq!(app.add_task("e".to_string(), None, None, None), Ok(5));
    assert_eq!(ids(&app), vec![1, 3, 5]);
}

#[test]
fn remove_all_resets_ids() {
    let mut app = fresh();
    app.add_task("a".to_string(), None, None, None).unwrap();
    app.add_task("b".to_string(), None, None, None).unwrap();
    app.remove_all_tasks();
    assert!(app.tasks().is_empty());
    assert_eq!(app.next_id(), 1);
    assert_eq!(app.add_task("c".to_string(), None, None, None), Ok(1));
}

#[test]
fn next_id_after_load_is_one_past_max() {
    let storage = Storage::with_dirs(None, None);
    let tasks = vec![
        Task::new(7, "x".to_string(), None, None, None),
        Task::new(3, "y".to_string(), None, None, None),
    ];
    let (mut app, status) = TodoApp::new(storage, FileRead::Decoded(tasks));
    assert_eq!(status, LoadStatus::Loaded);
    assert_eq!(app.next_id(), 8);
    assert_eq!(app.add_task("z".to_string(), None, None, None), Ok(8));
}

#[test]
fn valid_collection_loads_back_unchanged() {
    let mut app = fresh();
    app.add_task("one".to_string(), Some(Priority::High), Some("a,b".to_string()), Some("2024-03-01".to_string())).unwrap();
    app.add_task("two".to_string(), None, None, None).unwrap();
    app.complete_task(2).unwrap();
    let copy: Vec<Task> = app.tasks().clone();
    let storage = Storage::with_dirs(None, None);
    let (back, status) = storage.load_tasks(FileRead::Decoded(copy));
    assert_eq!(status, LoadStatus::Loaded);
    assert_eq!(back.len(), 2);
    for (a, b) in back.iter().zip(app.tasks().iter()) {
        assert_eq!(a.id, b.id);
        assert_eq!(a.description, b.description);
        assert_eq!(a.completed, b.completed);
        assert_eq!(a.completed_at, b.completed_at);
        assert_eq!(a.due_date, b.due_date);
        assert_eq!(a.priority, b.priority);
        assert_eq!(a.tags, b.tags);
    }
}

#[test]
fn empty_description_in_file_is_corruption() {
    let storage = Storage::with_dirs(None, None);
    let tasks = vec![
        Task::new(1, "fine".to_string(), None, None, None),
        Task::new(2, "".to_string(), None, None, None),
        Task::new(3, "also fine".to_string(), None, None, None),
    ];
    let (app, status) = TodoApp::new(storage, FileRead::Decoded(tasks));
    assert_eq!(status, LoadStatus::Corrupted);
    assert!(app.tasks().is_empty());
    assert_eq!(app.next_id(), 1);
}

#[test]
fn undecodable_file_starts_empty() {
    let storage = Storage::with_dirs(None, None);
    let (app, status) = TodoApp::new(storage, FileRead::Undecodable);
    assert_eq!(status, LoadStatus::Unparseable);
    assert!(app.tasks().is_empty());
}

#[test]
fn integrity_check() {
    let good = vec![Task::new(1, "a".to_string(), None, None, None)];
    let bad = vec![Task::new(1, "".to_string(), None, None, None)];
    assert!(Storage::verify_file_integrity(&good));
    assert!(!Storage::verify_file_integrity(&bad));
    assert!(Storage::verify_file_integrity(&Vec::new()));
}

#[test]
fn urgency_around_today() {
    let today = Date { day: 739000 };
    let due = |offset: i32| Task::new(1, "t".to_string(), None, None, Some(Date { day: 739000 + offset }));
    assert!(due(0).is_urgent_on(today, 3));
    assert!(due(1).is_urgent_on(today, 3));
    assert!(due(3).is_urgent_on(today, 3));
    assert!(due(-2).is_urgent_on(today, 3));
    assert!(!due(4).is_urgent_on(today, 3));
    let mut done = due(0);
    done.complete();
    assert!(!done.is_urgent_on(today, 3));
    let undated = Task::new(1, "t".to_string(), None, None, None);
    assert!(!undated.is_urgent_on(today, 3));
}

#[test]
fn overdue_only_before_today() {
    let today = Date { day: 500 };
    let due = |d: i32| Task::new(1, "t".to_string(), None, None, Some(Date { day: d }));
    assert!(due(499).is_overdue_on(today));
    assert!(!due(500).is_overdue_on(today));
    assert!(!due(501).is_overdue_on(today));
    let mut done = due(400);
    done.complete();
    assert!(!done.is_overdue_on(today));
}

#[test]
fn urgency_against_the_clock() {
    let now = Local::now().date_naive().num_days_from_ce();
    let soon = Task::new(1, "t".to_string(), None, None, Some(Date { day: now + 1 }));
    let late = Task::new(2, "t".to_string(), None, None, Some(Date { day: now + 30 }));
    let past = Task::new(3, "t".to_string(), None, None, Some(Date { day: now - 2 }));
    assert!(soon.is_urgent(3));
    assert!(!late.is_urgent(3));
    assert!(past.is_overdue());
    assert!(!soon.is_overdue());
}

#[test]
fn listing_order() {
    let today = Date { day: 800 };
    let storage = Storage::with_dirs(None, None);
    let tasks = vec![
        Task::new(1, "later".to_string(), None, None, Some(Date { day: 805 })),
        Task::new(2, "none".to_string(), None, None, None),
        Task::new(3, "today".to_string(), None, None, Some(Date { day: 800 })),
        Task::new(4, "late".to_string(), None, None, Some(Date { day: 798 })),
    ];
    let (app, _) = TodoApp::new(storage, FileRead::Decoded(tasks));
    let order: Vec<u32> = app.list_tasks_on(today, false).iter().map(|&k| app.tasks()[k].id).collect();
    assert_eq!(order, vec![4, 3, 1, 2]);
    let urgent: Vec<u32> = app.list_tasks_on(today, true).iter().map(|&k| app.tasks()[k].id).collect();
    assert_eq!(urgent, vec![4, 3]);
}

#[test]
fn listing_keeps_order_among_ties() {
    let today = Date { day: 100 };
    let storage = Storage::with_dirs(None, None);
    let tasks = vec![
        Task::new(1, "a".to_string(), None, None, None),
        Task::new(2, "b".to_string(), None, None, Some(Date { day: 101 })),
        Task::new(3, "c".to_string(), None, None, None),
        Task::new(4, "d".to_string(), None, None, Some(Date { day: 101 })),
    ];
    let (app, _) = TodoApp::new(storage, FileRead::Decoded(tasks));
    assert_eq!(app.list_tasks_on(today, false), vec![1, 3, 0, 2]);
    assert_eq!(app.list_tasks(false).len(), 4);
}

#[test]
fn listing_of_empty_store() {
    let app = fresh();
    assert!(app.list_tasks(false).is_empty());
    assert!(app.list_tasks(true).is_empty());
}

#[test]
fn add_with_invalid_date_changes_nothing() {
    let mut app = fresh();
    app.add_task("keep".to_string(), None, None, None).unwrap();
    let r = app.add_task("new".to_string(), None, None, Some("2024-13-40".to_string()));
    assert_eq!(r, Err(AddError::InvalidDate));
    assert_eq!(ids(&app), vec![1]);
    assert_eq!(app.next_id(), 2);
}

#[test]
fn edit_with_invalid_date_keeps_due_date() {
    let mut app = fresh();
    app.add_task("old".to_string(), None, None, Some("2024-05-06".to_string())).unwrap();
    let r = app.edit_task(1, Some("new".to_string()), None, None, None, Some("2024-13-40".to_string()));
    assert_eq!(r, Ok(0));
    assert_eq!(app.tasks()[0].description, "new");
    assert_eq!(app.tasks()[0].due_date, Some(day_of(2024, 5, 6)));
}

#[test]
fn add_parses_due_date() {
    let mut app = fresh();
    app.add_task("d".to_string(), None, None, Some("2024-02-29".to_string())).unwrap();
    assert_eq!(app.tasks()[0].due_date, Some(day_of(2024, 2, 29)));
    assert_eq!(app.tasks()[0].due_date, Some(Date { day: 738945 }));
    assert!(!app.tasks()[0].completed);
    assert_eq!(app.tasks()[0].completed_at, None);
}

#[test]
fn edit_sets_valid_due_date() {
    let mut app = fresh();
    app.add_task("d".to_string(), None, None, None).unwrap();
    app.edit_task(1, None, None, None, None, Some("2025-01-01".to_string())).unwrap();
    assert_eq!(app.tasks()[0].due_date, Some(day_of(2025, 1, 1)));
    assert_eq!(app.tasks()[0].description, "d");
}

#[test]
fn add_with_date_input() {
    let mut app = fresh();
    assert_eq!(app.add_task_with_date("x".to_string(), None, None, DateInput::Invalid), Err(AddError::InvalidDate));
    assert_eq!(app.add_task_with_date("x".to_string(), None, None, DateInput::Valid(Date { day: 9 })), Ok(1));
    assert_eq!(app.tasks()[0].due_date, Some(Date { day: 9 }));
}

#[test]
fn add_refuses_empty_description() {
    let mut app = fresh();
    assert_eq!(app.add_task(String::new(), None, None, None), Err(AddError::EmptyDescription));
    assert!(app.tasks().is_empty());
}

#[test]
fn add_refuses_when_ids_run_out() {
    let storage = Storage::with_dirs(None, None);
    let tasks = vec![Task::new(u32::MAX, "last".to_string(), None, None, None)];
    let (mut app, _) = TodoApp::new(storage, FileRead::Decoded(tasks));
    assert_eq!(app.next_id(), u32::MAX as u64 + 1);
    assert_eq!(app.add_task("more".to_string(), None, None, None), Err(AddError::IdsExhausted));
    assert_eq!(app.tasks().len(), 1);
}

#[test]
fn add_sets_priority_and_tags() {
    let mut app = fresh();
    app.add_task("t".to_string(), Some(Priority::Low), Some(" work , home,,work ".to_string()), None).unwrap();
    assert_eq!(app.tasks()[0].priority, Some(Priority::Low));
    assert_eq!(tags_of(&app, 0), Some(strings(&["work", "home"])));
    app.add_task("u".to_string(), None, Some(" , ".to_string()), None).unwrap();
    assert_eq!(tags_of(&app, 1), None);
}

#[test]
fn edit_merges_added_tags() {
    let mut app = fresh();
    app.add_task("t".to_string(), None, Some("work,urgent".to_string()), None).unwrap();
    app.edit_task(1, None, None, None, Some("urgent, home".to_string()), None).unwrap();
    assert_eq!(tags_of(&app, 0), Some(strings(&["home", "urgent", "work"])));
}

#[test]
fn edit_replaces_then_adds_tags() {
    let mut app = fresh();
    app.add_task("t".to_string(), None, Some("a,b".to_string()), None).unwrap();
    app.edit_task(1, None, None, Some("z, y".to_string()), Some("b".to_string()), None).unwrap();
    assert_eq!(tags_of(&app, 0), Some(strings(&["b", "y", "z"])));
    app.edit_task(1, None, None, Some(" ".to_string()), None, None).unwrap();
    assert_eq!(tags_of(&app, 0), None);
    app.edit_task(1, None, None, None, Some("q, p".to_string()), None).unwrap();
    assert_eq!(tags_of(&app, 0), Some(strings(&["p", "q"])));
    app.edit_task(1, None, None, None, Some(",,".to_string()), None).unwrap();
    assert_eq!(tags_of(&app, 0), Some(strings(&["p", "q"])));
}

#[test]
fn edit_sets_priority() {
    let mut app = fresh();
    app.add_task("t".to_string(), Some(Priority::Low), None, None).unwrap();
    app.edit_task(1, None, Some(Priority::High), None, None, None).unwrap();
    assert_eq!(app.tasks()[0].priority, Some(Priority::High));
    app.edit_task(1, None, None, None, None, None).unwrap();
    assert_eq!(app.tasks()[0].priority, Some(Priority::High));
}

#[test]
fn edit_errors() {
    let mut app = fresh();
    app.add_task("t".to_string(), None, None, None).unwrap();
    assert_eq!(app.edit_task(9, Some("x".to_string()), None, None, None, None), Err(EditError::NotFound));
    assert_eq!(app.edit_task(1, Some(String::new()), None, None, None, None), Err(EditError::EmptyDescription));
    assert_eq!(app.tasks()[0].description, "t");
    assert_eq!(
        app.edit_task_with_date(1, None, None, None, None, DateInput::Valid(Date { day: 3 })),
        Ok(0)
    );
    assert_eq!(app.tasks()[0].due_date, Some(Date { day: 3 }));
}

#[test]
fn complete_and_complete_many() {
    let mut app = fresh();
    app.add_task("a".to_string(), None, None, None).unwrap();
    app.add_task("b".to_string(), None, None, None).unwrap();
    app.add_task("c".to_string(), None, None, None).unwrap();
    assert_eq!(app.complete_task(9), Err(NotFound));
    assert_eq!(app.complete_task(2), Ok(1));
    assert!(app.tasks()[1].completed);
    assert!(app.tasks()[1].completed_at.is_some());
    let r = app.complete_tasks(&vec![3, 42, 1]);
    assert_eq!(r, vec![true, false, true]);
    assert!(app.tasks().iter().all(|t| t.completed && t.completed_at.is_some()));
}

#[test]
fn remove_unknown_id() {
    let mut app = fresh();
    app.add_task("a".to_string(), None, None, None).unwrap();
    assert_eq!(app.remove_task(5), Err(NotFound));
    assert_eq!(app.tasks().len(), 1);
    assert_eq!(app.find_task(1), Some(0));
    assert_eq!(app.find_task(5), None);
}

#[test]
fn search_ignores_case() {
    let mut app = fresh();
    app.add_task("Buy MILK".to_string(), None, None, None).unwrap();
    app.add_task("walk dog".to_string(), None, None, None).unwrap();
    app.add_task("milkshake".to_string(), None, None, None).unwrap();
    assert_eq!(app.search_tasks("milk"), vec![0, 2]);
    assert_eq!(app.search_tasks("DOG"), vec![1]);
    assert!(app.search_tasks("cat").is_empty());
    assert_eq!(app.search_tasks(""), vec![0, 1, 2]);
}

#[test]
fn storage_path_choice() {
    let s = Storage::with_dirs(Some("/d".to_string()), Some("/h".to_string()));
    assert_eq!(s.file_path(), "/d/todo-cli/.todo_data.json");
    let s = Storage::with_dirs(None, Some("/h".to_string()));
    assert_eq!(s.file_path(), "/h/todo-cli/.todo_data.json");
    let s = Storage::with_dirs(None, None);
    assert_eq!(s.file_path(), "./todo-cli/.todo_data.json");
    let s = Storage::new();
    assert!(s.file_path().ends_with("/todo-cli/.todo_data.json"));
    assert!(s.file_path().len() > "/todo-cli/.todo_data.json".len());
}
