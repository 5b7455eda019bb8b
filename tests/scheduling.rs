use task_scheduler::registry::{MergeOutcome, TaskRegistry};
use task_scheduler::scheduler::{Cycle, Scheduler};
use task_scheduler::status::TaskStatus;
use task_scheduler::task::Task;
use task_scheduler::watcher::{SourceError, WatchAction, Watcher};

fn pending(priority: u8, length: usize, elapsed: usize, name: &str) -> Task {
    Task::from_record(name.to_string(), priority, name.to_string(), length, TaskStatus::Pending, elapsed).unwrap()
}

fn keys(r: &TaskRegistry) -> Vec<(u8, usize, usize)> {
    (0..r.len()).map(|i| r.get(i).key()).collect()
}

#[test]
fn equal_definitions_merge_once_in_any_order() {
    let mut r1 = TaskRegistry::new();
    assert_eq!(r1.merge(pending(2, 30, 0, "a")), MergeOutcome::Inserted);
    assert_eq!(r1.merge(pending(2, 30, 0, "b")), MergeOutcome::DuplicateIgnored);
    assert_eq!(r1.merge(pending(2, 30, 0, "a")), MergeOutcome::DuplicateIgnored);
    assert_eq!(r1.len(), 1);
    assert_eq!(r1.get(0).id(), "a");

    let mut r2 = TaskRegistry::new();
    r2.merge_batch(vec![pending(2, 30, 0, "b"), pending(2, 30, 0, "a"), pending(2, 30, 0, "b")]);
    assert_eq!(r2.len(), 1);
    assert_eq!(r2.get(0).id(), "b");
}

#[test]
fn merged_registry_has_unique_keys() {
    let mut r = TaskRegistry::new();
    r.merge_batch(vec![pending(1, 5, 0, "a"), pending(1, 5, 1, "b"), pending(1, 5, 0, "c")]);
    r.merge_batch(vec![pending(1, 5, 1, "d"), pending(3, 5, 0, "e")]);
    assert_eq!(keys(&r), vec![(1, 5, 0), (1, 5, 1), (3, 5, 0)]);
    assert!(r.contains_equal(&pending(3, 5, 0, "z")));
    assert!(!r.contains_equal(&pending(3, 5, 2, "z")));
}

#[test]
fn priority_wins_over_length() {
    let mut s = Scheduler::new();
    s.merge(pending(1, 100, 0, "long"));
    s.merge(pending(2, 10, 0, "short"));
    assert_eq!(s.select_next(), Some(0));
    assert_eq!(s.run(1), Cycle::Progressed { index: 0, elapsed: 1 });
    assert_eq!(s.tasks().get(0).id(), "long");
    assert!(matches!(s.tasks().get(0).state(), TaskStatus::Running));
    assert!(matches!(s.tasks().get(1).state(), TaskStatus::Pending));
}

#[test]
fn selection_orders_by_length_then_progress() {
    let mut s = Scheduler::new();
    s.merge(pending(3, 20, 0, "a"));
    s.merge(pending(3, 10, 4, "b"));
    s.merge(pending(3, 10, 2, "c"));
    s.merge(pending(4, 1, 0, "d"));
    assert_eq!(s.select_next(), Some(2));
}

#[test]
fn empty_scheduler_idles() {
    let mut s = Scheduler::new();
    assert_eq!(s.select_next(), None);
    assert_eq!(s.run(10), Cycle::Idle);
    assert_eq!(s.tasks().len(), 0);
}

#[test]
fn only_pending_tasks_are_selected() {
    let mut s = Scheduler::new();
    s.merge(Task::from_record("h".to_string(), 1, "h".to_string(), 5, TaskStatus::Halted, 0).unwrap());
    s.merge(Task::from_record("f".to_string(), 1, "f".to_string(), 6, TaskStatus::Finished, 6).unwrap());
    assert_eq!(s.select_next(), None);
    assert_eq!(s.run(1), Cycle::Idle);
}

#[test]
fn running_task_advances_to_completion_without_overshoot() {
    let mut s = Scheduler::new();
    s.merge(pending(2, 10, 0, "a"));
    s.merge(pending(5, 3, 0, "b"));
    assert_eq!(s.run(4), Cycle::Progressed { index: 0, elapsed: 4 });
    assert_eq!(s.running_task(), Some(0));
    assert_eq!(s.run(4), Cycle::Progressed { index: 0, elapsed: 8 });
    assert_eq!(s.run(4), Cycle::Completed { index: 0 });
    assert_eq!(s.tasks().get(0).elapsed_length(), 10);
    assert!(matches!(s.tasks().get(0).state(), TaskStatus::Finished));
    assert_eq!(s.running_task(), None);
    assert_eq!(s.run(100), Cycle::Completed { index: 1 });
    assert_eq!(s.tasks().get(1).elapsed_length(), 3);
    assert_eq!(s.run(1), Cycle::Idle);
}

#[test]
fn progress_never_decreases_nor_exceeds_length() {
    let mut s = Scheduler::new();
    s.merge(pending(1, 7, 0, "a"));
    s.merge(pending(1, 9, 0, "b"));
    let mut last = vec![0usize, 0];
    for _ in 0..10 {
        s.run(3);
        for i in 0..2 {
            let t = s.tasks().get(i);
            assert!(t.elapsed_length() >= last[i]);
            assert!(t.elapsed_length() <= t.length());
            last[i] = t.elapsed_length();
        }
    }
    assert_eq!(last, vec![7, 9]);
}

#[test]
fn zero_length_task_finishes_in_one_cycle() {
    let mut s = Scheduler::new();
    s.merge(pending(4, 0, 0, "z"));
    assert_eq!(s.run(0), Cycle::Completed { index: 0 });
}

#[test]
fn zero_step_makes_no_progress() {
    let mut s = Scheduler::new();
    s.merge(pending(4, 2, 0, "z"));
    assert_eq!(s.run(0), Cycle::Progressed { index: 0, elapsed: 0 });
    assert_eq!(s.run(0), Cycle::Progressed { index: 0, elapsed: 0 });
}

#[test]
fn failure_marks_running_task_and_frees_worker() {
    let mut s = Scheduler::new();
    s.merge(pending(1, 10, 0, "a"));
    s.merge(pending(2, 10, 0, "b"));
    s.run(2);
    s.fail_running("out of memory".to_string());
    assert_eq!(s.running_task(), None);
    match s.tasks().get(0).state() {
        TaskStatus::Failed(reason) => assert_eq!(reason, "out of memory"),
        other => panic!("unexpected state {:?}", other),
    }
    assert_eq!(s.tasks().get(0).elapsed_length(), 2);
    assert_eq!(s.run(10), Cycle::Completed { index: 1 });
}

#[test]
fn merge_between_cycles_keeps_running_task() {
    let mut s = Scheduler::new();
    s.merge(pending(3, 10, 0, "a"));
    s.run(1);
    s.merge_batch(vec![pending(1, 1, 0, "urgent"), pending(3, 10, 1, "dup")]);
    assert_eq!(s.tasks().len(), 2);
    assert_eq!(s.run(1), Cycle::Progressed { index: 0, elapsed: 2 });
    assert_eq!(s.select_next(), Some(1));
}

#[test]
fn unchanged_timestamp_emits_nothing() {
    let w = Watcher::new(100);
    assert_eq!(w.poll(Ok(100)), WatchAction::Idle);
    assert_eq!(w.poll(Ok(100)), WatchAction::Idle);
    assert_eq!(w.poll(Ok(99)), WatchAction::Idle);
    assert_eq!(w.last_seen(), 100);
}

#[test]
fn parse_failure_emits_nothing_and_retries() {
    let mut w = Watcher::new(100);
    assert_eq!(w.poll(Ok(200)), WatchAction::Reload { stamp: 200 });
    assert!(w.complete(200, Err(SourceError::ParseFailure)).is_none());
    assert_eq!(w.last_seen(), 100);
    assert_eq!(w.poll(Ok(200)), WatchAction::Reload { stamp: 200 });
    let batch = w.complete(200, Ok(vec![pending(1, 1, 0, "a")])).unwrap();
    assert_eq!(batch.len(), 1);
    assert_eq!(w.last_seen(), 200);
    assert_eq!(w.poll(Ok(200)), WatchAction::Idle);
}

#[test]
fn unreadable_source_is_skipped() {
    let mut w = Watcher::new(5);
    assert_eq!(w.poll(Err(SourceError::IoFailure)), WatchAction::Idle);
    assert!(w.complete(9, Err(SourceError::IoFailure)).is_none());
    assert_eq!(w.last_seen(), 5);
    assert_eq!(w.poll(Ok(6)), WatchAction::Reload { stamp: 6 });
}

fn with_state(priority: u8, length: usize, elapsed: usize, name: &str, state: TaskStatus) -> Task {
    Task::from_record(name.to_string(), priority, name.to_string(), length, state, elapsed).unwrap()
}

fn running_count(s: &Scheduler) -> usize {
    (0..s.tasks().len()).filter(|&i| matches!(s.tasks().get(i).state(), TaskStatus::Running)).count()
}

#[test]
fn merged_running_task_is_driven_not_doubled() {
    let mut s = Scheduler::new();
    assert_eq!(s.merge(with_state(3, 10, 4, "r", TaskStatus::Running)), MergeOutcome::Inserted);
    assert_eq!(s.running_task(), Some(0));
    assert_eq!(s.merge(Task::new(1, 10, "p".to_string())), MergeOutcome::Inserted);
    assert_eq!(s.run(1), Cycle::Progressed { index: 0, elapsed: 5 });
    assert_eq!(running_count(&s), 1);
    assert!(matches!(s.tasks().get(1).state(), TaskStatus::Pending));
}

#[test]
fn running_record_is_inserted_and_driven_later() {
    let mut s = Scheduler::new();
    s.merge(pending(1, 10, 0, "p"));
    s.run(1);
    assert_eq!(s.merge(with_state(2, 5, 0, "r", TaskStatus::Running)), MergeOutcome::Inserted);
    s.merge_batch(vec![with_state(2, 6, 0, "r2", TaskStatus::Running), pending(2, 7, 0, "q")]);
    assert_eq!(s.tasks().len(), 4);
    assert_eq!(s.tasks().get(1).id(), "r");
    assert_eq!(s.tasks().get(2).id(), "r2");
    assert_eq!(s.running_task(), Some(0));
    assert_eq!(running_count(&s), 3);
    assert_eq!(s.run(9), Cycle::Completed { index: 0 });
    assert_eq!(s.run(1), Cycle::Progressed { index: 1, elapsed: 1 });
    assert!(matches!(s.tasks().get(3).state(), TaskStatus::Pending));
    assert_eq!(s.run(4), Cycle::Completed { index: 1 });
    assert_eq!(s.run(6), Cycle::Completed { index: 2 });
    assert!(matches!(s.tasks().get(3).state(), TaskStatus::Pending));
    assert_eq!(s.run(7), Cycle::Completed { index: 3 });
    assert_eq!(running_count(&s), 0);
}

#[test]
fn batch_with_running_records_drives_them_in_order() {
    let mut s = Scheduler::new();
    s.merge_batch(vec![
        with_state(2, 6, 0, "r1", TaskStatus::Running),
        with_state(2, 7, 0, "r2", TaskStatus::Running),
        pending(1, 1, 0, "p"),
    ]);
    assert_eq!(s.tasks().len(), 3);
    assert_eq!(s.running_task(), Some(0));
    assert_eq!(s.tasks().get(0).id(), "r1");
    assert_eq!(s.run(6), Cycle::Completed { index: 0 });
    assert_eq!(s.run(7), Cycle::Completed { index: 1 });
    assert_eq!(s.run(1), Cycle::Completed { index: 2 });
}

#[test]
fn running_duplicate_is_still_ignored() {
    let mut s = Scheduler::new();
    s.merge(pending(2, 5, 0, "p"));
    assert_eq!(s.merge(with_state(2, 5, 0, "r", TaskStatus::Running)), MergeOutcome::DuplicateIgnored);
    assert_eq!(s.tasks().len(), 1);
    assert_eq!(s.running_task(), None);
}

#[test]
fn stale_reload_emits_nothing() {
    let mut w = Watcher::new(300);
    assert!(w.complete(300, Ok(vec![pending(1, 1, 0, "a")])).is_none());
    assert!(w.complete(250, Ok(vec![pending(1, 1, 0, "a")])).is_none());
    assert_eq!(w.last_seen(), 300);
}
