use task_tracker::cli::Command;
use task_tracker::runner::{execute, run_command, Effect};
use task_tracker::task::{AddError, CompleteOutcome, Task, TaskStore};
use task_tracker::timefmt::utc_text_is_not_in_progress;

// Timestamps with known UTC renderings.
const T_2015: i64 = 1431648000; // 2015-05-15 00:00:00 UTC
const T_2001: i64 = 1000000000; // 2001-09-09 01:46:40 UTC
const T_2009: i64 = 1234567890; // 2009-02-13 23:31:30 UTC

#[test]
fn add_then_list_shows_in_progress() {
    let mut store = TaskStore::new();
    assert_eq!(store.add_task("write spec".to_string(), T_2015), Ok(1));
    let lines = store.list_lines(false);
    assert_eq!(
        lines,
        vec!["ID: 1, Name: write spec, Start Time: 2015-05-15 00:00:00 UTC, End Time: In Progress"
            .to_string()]
    );
}

#[test]
fn duplicate_add_is_refused_and_leaves_one_row() {
    let mut store = TaskStore::new();
    assert_eq!(store.add_task("X".to_string(), T_2001), Ok(1));
    assert_eq!(
        store.add_task("X".to_string(), T_2009),
        Err(AddError::DuplicateName)
    );
    assert_eq!(store.len(), 1);
    let lines = store.list_lines(true);
    assert_eq!(lines.len(), 1);
    assert!(lines[0].contains(", Name: X,"));
}

#[test]
fn complete_moves_task_to_all_list() {
    let mut store = TaskStore::new();
    assert_eq!(store.add_task("ship it".to_string(), T_2001), Ok(1));
    assert_eq!(store.complete_task(1, T_2009), CompleteOutcome::Completed);
    assert_eq!(store.list_lines(false), Vec::<String>::new());
    let all = store.list_lines(true);
    assert_eq!(
        all,
        vec![
            "ID: 1, Name: ship it, Start Time: 2001-09-09 01:46:40 UTC, End Time: 2009-02-13 23:31:30 UTC"
                .to_string()
        ]
    );
    assert!(!all[0].contains("In Progress"));
}

#[test]
fn complete_missing_id_changes_nothing() {
    let mut store = TaskStore::new();
    assert_eq!(store.add_task("keep me".to_string(), T_2001), Ok(1));
    assert_eq!(store.complete_task(42, T_2009), CompleteOutcome::NotFound);
    assert_eq!(store.len(), 1);
    let lines = store.list_lines(false);
    assert_eq!(lines.len(), 1);
    assert!(lines[0].contains("In Progress"));
}

#[test]
fn complete_twice_reports_already_done() {
    let mut store = TaskStore::new();
    assert_eq!(store.add_task("once".to_string(), T_2001), Ok(1));
    assert_eq!(store.complete_task(1, T_2009), CompleteOutcome::Completed);
    assert_eq!(store.complete_task(1, T_2015), CompleteOutcome::AlreadyDone);
    // the first end time stands
    let all = store.list_lines(true);
    assert!(all[0].ends_with("End Time: 2009-02-13 23:31:30 UTC"));
}

#[test]
fn list_with_no_tasks_prints_nothing() {
    let store = TaskStore::new();
    assert_eq!(store.list_lines(false), Vec::<String>::new());
    assert_eq!(store.list_lines(true), Vec::<String>::new());
}

#[test]
fn round_trip_keeps_name_and_orders_times() {
    let name = "exact name kept: spaces & symbols!";
    let mut store = TaskStore::new();
    let id = store.add_task(name.to_string(), T_2001).unwrap();
    assert_eq!(store.complete_task(id, T_2009), CompleteOutcome::Completed);
    assert!(T_2001 <= T_2009);
    let all = store.list_lines(true);
    assert_eq!(all.len(), 1);
    assert!(all[0].contains(&format!(", Name: {},", name)));
    assert!(!all[0].ends_with("In Progress"));
}

#[test]
fn ids_are_assigned_in_sequence() {
    let mut store = TaskStore::new();
    assert_eq!(store.add_task("first".to_string(), T_2001), Ok(1));
    assert_eq!(store.add_task("second".to_string(), T_2001), Ok(2));
    assert_eq!(store.add_task("third".to_string(), T_2009), Ok(3));
    let lines = store.list_lines(false);
    assert_eq!(lines.len(), 3);
    assert!(lines[0].starts_with("ID: 1, Name: first,"));
    assert!(lines[1].starts_with("ID: 2, Name: second,"));
    assert!(lines[2].starts_with("ID: 3, Name: third,"));
}

#[test]
fn run_command_add_reports_and_asks_insert() {
    let mut store = TaskStore::new();
    let r = run_command(
        &mut store,
        Command::Add { task: "call home".to_string() },
        T_2015,
    );
    assert!(r.ok);
    assert_eq!(r.lines, vec!["Added task: call home".to_string()]);
    match r.effect {
        Effect::Insert { id, name, start_time } => {
            assert_eq!(id, 1);
            assert_eq!(name, "call home");
            assert_eq!(start_time, T_2015);
        }
        _ => panic!("expected an insert effect"),
    }
}

#[test]
fn run_command_duplicate_add_fails() {
    let mut store = TaskStore::new();
    assert_eq!(store.add_task("X".to_string(), T_2001), Ok(1));
    let r = run_command(&mut store, Command::Add { task: "X".to_string() }, T_2009);
    assert!(!r.ok);
    assert_eq!(
        r.lines,
        vec!["Error: a task already exists with name: X".to_string()]
    );
    assert!(matches!(r.effect, Effect::NoWrite));
    assert_eq!(store.len(), 1);
}

#[test]
fn run_command_complete_reports_and_asks_update() {
    let mut store = TaskStore::new();
    assert_eq!(store.add_task("todo".to_string(), T_2001), Ok(1));
    let r = run_command(&mut store, Command::Complete { task_id: 1 }, T_2009);
    assert!(r.ok);
    assert_eq!(r.lines, vec!["Completed task with ID: 1".to_string()]);
    match r.effect {
        Effect::SetEnd { id, end_time } => {
            assert_eq!(id, 1);
            assert_eq!(end_time, T_2009);
        }
        _ => panic!("expected a set-end effect"),
    }
}

#[test]
fn run_command_complete_missing_is_distinct() {
    let mut store = TaskStore::new();
    let r = run_command(&mut store, Command::Complete { task_id: 42 }, T_2009);
    assert!(!r.ok);
    assert_eq!(r.lines, vec!["No task found with ID: 42".to_string()]);
    assert!(matches!(r.effect, Effect::NoWrite));
    assert_eq!(store.len(), 0);
}

#[test]
fn run_command_complete_twice_fails_second_time() {
    let mut store = TaskStore::new();
    assert_eq!(store.add_task("once".to_string(), T_2001), Ok(1));
    assert!(run_command(&mut store, Command::Complete { task_id: 1 }, T_2009).ok);
    let r = run_command(&mut store, Command::Complete { task_id: 1 }, T_2015);
    assert!(!r.ok);
    assert_eq!(r.lines, vec!["Task is already completed, ID: 1".to_string()]);
    assert!(matches!(r.effect, Effect::NoWrite));
}

#[test]
fn execute_uses_the_real_clock() {
    let mut store = TaskStore::new();
    let r = execute(&mut store, Command::Add { task: "now".to_string() });
    assert!(r.ok);
    assert_eq!(r.lines.len(), 1);
    assert!(r.lines[0].starts_with("Added task: now"));
    let lines = store.list_lines(false);
    assert_eq!(lines.len(), 1);
    assert!(lines[0].ends_with("In Progress"));
}

#[test]
fn from_rows_accepts_consistent_rows() {
    let rows = vec![
        Task { id: 1, name: "a".to_string(), start_time: T_2001, end_time: Some(T_2009) },
        Task { id: 2, name: "b".to_string(), start_time: T_2009, end_time: None },
    ];
    let store = TaskStore::from_rows(rows).expect("rows are consistent");
    assert_eq!(store.len(), 2);
    let open = store.list_lines(false);
    assert_eq!(open.len(), 1);
    assert!(open[0].starts_with("ID: 2, Name: b,"));
}

#[test]
fn from_rows_rejects_bad_rows() {
    let dup_id = vec![
        Task { id: 1, name: "a".to_string(), start_time: T_2001, end_time: None },
        Task { id: 1, name: "b".to_string(), start_time: T_2001, end_time: None },
    ];
    assert!(TaskStore::from_rows(dup_id).is_none());
    let dup_name = vec![
        Task { id: 1, name: "a".to_string(), start_time: T_2001, end_time: None },
        Task { id: 2, name: "a".to_string(), start_time: T_2001, end_time: None },
    ];
    assert!(TaskStore::from_rows(dup_name).is_none());
    let bad_id = vec![Task { id: 0, name: "a".to_string(), start_time: T_2001, end_time: None }];
    assert!(TaskStore::from_rows(bad_id).is_none());
}

#[test]
fn rendered_time_is_never_the_open_marker() {
    assert!(utc_text_is_not_in_progress(0));
    assert!(utc_text_is_not_in_progress(T_2015));
    assert!(utc_text_is_not_in_progress(-1));
}
