use cmd_queue::error::{CmdqError, StorageError};
use cmd_queue::queue::{generate_task_id, InMemoryQueue, StoreOp};
use cmd_queue::{CommandRequest, CommandResponse, CommandFailed, CommandSuccess, Task, TaskRunResult, TaskState, Timestamp};

fn command(program: &str) -> CommandRequest {
    CommandRequest { path: "/tmp".to_string(), program: program.to_string(), args: vec![] }
}

fn at(secs: u64) -> Timestamp {
    Timestamp { secs, nanos: 0 }
}

fn ids(tasks: &[Task]) -> Vec<String> {
    tasks.iter().map(|t| t.id().clone()).collect()
}

fn queue_of(names: &[&str]) -> InMemoryQueue {
    let mut queue = InMemoryQueue::new(vec![]);
    for name in names {
        queue.push_cmd(&command(name), name.to_string(), Ok(())).unwrap();
    }
    queue
}

#[test]
fn a_new_task_has_no_tries_and_no_attempt() {
    let task = Task::new("abc".to_string(), command("true"));
    assert_eq!(task.id(), "abc");
    assert_eq!(task.command(), &command("true"));
    assert_eq!(task.tries(), 0);
    assert_eq!(task.last_attempt(), None);
    assert_eq!(task.duplicate(), task);
}

#[test]
fn a_hand_out_counts_one_try_and_a_failure_sets_the_time() {
    let mut task = Task::new("abc".to_string(), command("false"));
    task.record_dequeue();
    assert_eq!(task.tries(), 1);
    assert_eq!(task.last_attempt(), None);
    task.record_failure(at(7));
    assert_eq!(task.tries(), 1);
    assert_eq!(task.last_attempt(), Some(at(7)));
    task.record_dequeue();
    task.record_failure(at(9));
    assert_eq!(task.tries(), 2);
    assert_eq!(task.last_attempt(), Some(at(9)));
}

#[test]
fn the_count_of_tries_stops_at_the_largest_number() {
    let mut task = Task::from_parts("abc".to_string(), command("false"), usize::MAX, None);
    task.record_dequeue();
    assert_eq!(task.tries(), usize::MAX);
    assert_eq!(task.last_attempt(), None);
    let mut queue = InMemoryQueue::new(vec![task]);
    assert_eq!(queue.pop_next().unwrap().tries(), usize::MAX);
}

#[test]
fn a_generated_id_has_ten_hexadecimal_digits() {
    for _ in 0..50 {
        let id = generate_task_id();
        assert_eq!(id.chars().count(), 10);
        assert!(id.chars().all(|c| c.is_ascii_digit() || ('a'..='f').contains(&c)), "{}", id);
    }
}

#[test]
fn generated_ids_differ() {
    let a = generate_task_id();
    let b = generate_task_id();
    let c = generate_task_id();
    assert!(a != b || b != c);
}

#[test]
fn a_fresh_id_is_not_held() {
    let mut queue = queue_of(&["a", "b"]);
    let id = queue.fresh_task_id().unwrap();
    assert_eq!(id.len(), 10);
    assert!(!queue.holds(&id));
    assert_eq!(queue.queued_len(), 2);
}

#[test]
fn a_submitted_task_is_listed_as_queued_with_no_tries() {
    let mut queue = InMemoryQueue::new(vec![]);
    let cmd = CommandRequest {
        path: "/tmp".to_string(),
        program: "echo".to_string(),
        args: vec!["a".to_string(), "b c".to_string()],
    };
    let task = queue.push_cmd(&cmd, "id1".to_string(), Ok(())).unwrap();
    assert_eq!(task, Task::new("id1".to_string(), cmd.clone()));
    let listed = queue.list(&vec![TaskState::Queued]);
    assert_eq!(listed.len(), 1);
    assert_eq!(listed[0].command(), &cmd);
    assert_eq!(listed[0].tries(), 0);
    assert_eq!(listed[0].last_attempt(), None);
    assert_eq!(queue.query("id1"), Some((task, TaskState::Queued)));
}

#[test]
fn a_submission_that_was_not_persisted_is_not_queued() {
    let mut queue = queue_of(&["a"]);
    let r = queue.push_cmd(&command("true"), "b".to_string(), Err(StorageError::Write));
    assert_eq!(r, Err(CmdqError::Submission(StorageError::Write)));
    assert_eq!(queue.queued_len(), 1);
    assert!(!queue.holds("b"));
    assert_eq!(queue.query("b"), None);
    let r = queue.push_cmd(&command("true"), "c".to_string(), Err(StorageError::Load));
    assert_eq!(r, Err(CmdqError::Submission(StorageError::Load)));
    assert_eq!(ids(&queue.list(&vec![])), vec!["a"]);
}

#[test]
fn a_submission_under_a_held_id_is_refused() {
    let mut queue = queue_of(&["a", "b"]);
    assert_eq!(queue.push_cmd(&command("x"), "a".to_string(), Ok(())), Err(CmdqError::DuplicateId));
    queue.pop_next().unwrap();
    assert_eq!(queue.push_cmd(&command("x"), "a".to_string(), Ok(())), Err(CmdqError::DuplicateId));
    assert_eq!(ids(&queue.queued()), vec!["b"]);
    assert_eq!(ids(&queue.running()), vec!["a"]);
}

#[test]
fn pop_next_on_an_empty_queue_gives_nothing() {
    let mut queue = InMemoryQueue::new(vec![]);
    assert_eq!(queue.pop_next(), None);
    assert_eq!(queue.queued_len(), 0);
    assert_eq!(queue.running_len(), 0);
}

#[test]
fn pop_next_hands_out_the_earliest_task_and_it_runs() {
    let mut queue = queue_of(&["first", "second", "third"]);
    let task = queue.pop_next().unwrap();
    assert_eq!(task.id(), "first");
    assert_eq!(task.tries(), 1);
    assert_eq!(task.last_attempt(), None);
    assert_eq!(task.command(), &command("first"));
    assert_eq!(ids(&queue.queued()), vec!["second", "third"]);
    assert_eq!(ids(&queue.running()), vec!["first"]);
    assert_eq!(queue.query("first"), Some((task, TaskState::Running)));
    assert_eq!(queue.pop_next().unwrap().id(), "second");
    assert_eq!(queue.pop_next().unwrap().id(), "third");
    assert_eq!(queue.pop_next(), None);
    assert_eq!(queue.running_len(), 3);
    assert!(queue.running().iter().all(|t| t.tries() == 1));
}

#[test]
fn every_hand_out_counts_a_try() {
    let stored = Task::from_parts("a".to_string(), command("false"), 3, Some(at(10)));
    let mut queue = InMemoryQueue::new(vec![stored.clone()]);
    for round in 1..=5usize {
        let task = queue.pop_next().unwrap();
        assert_eq!(task.tries(), 3 + round);
        assert_eq!(queue.query("a"), Some((task, TaskState::Running)));
        let result = if round % 2 == 0 { TaskRunResult::Failed } else { TaskRunResult::Skipped };
        queue.update_at("a", result, at(100)).unwrap();
        assert_eq!(queue.query("a").unwrap().0.tries(), 3 + round);
    }
}

#[test]
fn each_id_is_in_one_state_only() {
    let mut queue = queue_of(&["a", "b", "c"]);
    queue.pop_next().unwrap();
    queue.pop_next().unwrap();
    queue.update_at("a", TaskRunResult::Failed, at(5)).unwrap();
    queue.update_at("b", TaskRunResult::Completed, at(6)).unwrap();
    let queued = ids(&queue.queued());
    let running = ids(&queue.running());
    for id in ["a", "b", "c"] {
        let in_queue = queued.iter().filter(|q| q.as_str() == id).count();
        let in_running = running.iter().filter(|q| q.as_str() == id).count();
        assert!(in_queue + in_running <= 1, "{}", id);
        assert_eq!(queue.holds(id), in_queue + in_running == 1);
    }
    assert_eq!(queued, vec!["c", "a"]);
    assert!(running.is_empty());
    assert!(!queue.holds("b"));
}

#[test]
fn a_completed_task_is_gone_from_everywhere() {
    let mut queue = queue_of(&["a", "b"]);
    queue.pop_next().unwrap();
    let op = queue.update_at("a", TaskRunResult::Completed, at(3)).unwrap();
    assert_eq!(op, StoreOp::Delete("a".to_string()));
    assert_eq!(queue.query("a"), None);
    assert!(!queue.holds("a"));
    assert_eq!(ids(&queue.list(&vec![])), vec!["b"]);
    assert_eq!(queue.running_len(), 0);
}

#[test]
fn a_failed_task_rejoins_the_line_at_its_tail() {
    let mut queue = queue_of(&["a", "b", "c"]);
    let task = queue.pop_next().unwrap();
    let queued_before = queue.list(&vec![TaskState::Queued]).len();
    let running_before = queue.list(&vec![TaskState::Running]).len();
    let op = queue.update_at("a", TaskRunResult::Failed, at(42)).unwrap();
    let expected = Task::from_parts("a".to_string(), task.command().clone(), 1, Some(at(42)));
    assert_eq!(op, StoreOp::Put(expected.clone()));
    assert_eq!(queue.list(&vec![TaskState::Queued]).len(), queued_before + 1);
    assert_eq!(queue.list(&vec![TaskState::Running]).len(), running_before - 1);
    assert_eq!(ids(&queue.queued()), vec!["b", "c", "a"]);
    assert_eq!(queue.query("a"), Some((expected, TaskState::Queued)));
}

#[test]
fn a_skipped_task_rejoins_the_line_as_it_ran() {
    let stored = Task::from_parts("a".to_string(), command("false"), 3, Some(at(10)));
    let mut queue = InMemoryQueue::new(vec![stored.clone()]);
    queue.push_cmd(&command("true"), "b".to_string(), Ok(())).unwrap();
    let handed = Task::from_parts("a".to_string(), command("false"), 4, Some(at(10)));
    assert_eq!(queue.pop_next(), Some(handed.clone()));
    let op = queue.update_at("a", TaskRunResult::Skipped, at(11)).unwrap();
    assert_eq!(op, StoreOp::Put(handed.clone()));
    assert_eq!(ids(&queue.queued()), vec!["b", "a"]);
    assert_eq!(queue.query("a"), Some((handed, TaskState::Queued)));
}

#[test]
fn an_update_for_a_task_that_does_not_run_is_refused() {
    let mut queue = queue_of(&["a", "b"]);
    queue.pop_next().unwrap();
    for result in [TaskRunResult::Completed, TaskRunResult::Failed, TaskRunResult::Skipped] {
        assert_eq!(queue.update_at("b", result, at(1)), Err(CmdqError::TaskNotFound));
        assert_eq!(queue.update_at("nobody", result, at(1)), Err(CmdqError::TaskNotFound));
        assert_eq!(queue.update("nobody", result), Err(CmdqError::TaskNotFound));
    }
    assert_eq!(ids(&queue.queued()), vec!["b"]);
    assert_eq!(ids(&queue.running()), vec!["a"]);
}

#[test]
fn update_stamps_a_failure_with_the_present_time() {
    let mut queue = queue_of(&["a"]);
    queue.pop_next().unwrap();
    let op = queue.update("a", TaskRunResult::Failed).unwrap();
    let (task, state) = queue.query("a").unwrap();
    assert_eq!(state, TaskState::Queued);
    assert_eq!(task.tries(), 1);
    let stamp = task.last_attempt().unwrap();
    assert!(stamp.secs > 1_600_000_000);
    assert!(stamp.nanos < 1_000_000_000);
    assert_eq!(op, StoreOp::Put(task));
}

#[test]
fn list_follows_the_filter() {
    let mut queue = queue_of(&["a", "b", "c", "d"]);
    queue.pop_next().unwrap();
    queue.pop_next().unwrap();
    assert_eq!(ids(&queue.list(&vec![TaskState::Queued])), vec!["c", "d"]);
    let mut running = ids(&queue.list(&vec![TaskState::Running]));
    running.sort();
    assert_eq!(running, vec!["a", "b"]);
    for filter in [vec![], vec![TaskState::Queued, TaskState::Running], vec![TaskState::Running, TaskState::Queued]] {
        let all = ids(&queue.list(&filter));
        assert_eq!(all.len(), 4);
        assert_eq!(&all[..2], ["c", "d"]);
        let mut rest = all[2..].to_vec();
        rest.sort();
        assert_eq!(rest, vec!["a", "b"]);
    }
    assert_eq!(queue.queued_len(), 2);
    assert_eq!(queue.running_len(), 2);
}

#[test]
fn listing_leaves_the_line_in_its_order() {
    let mut queue = queue_of(&["a", "b", "c"]);
    for _ in 0..3 {
        assert_eq!(ids(&queue.queued()), vec!["a", "b", "c"]);
        assert_eq!(ids(&queue.list(&vec![])), vec!["a", "b", "c"]);
        assert!(queue.query("b").is_some());
    }
    assert_eq!(queue.pop_next().unwrap().id(), "a");
}

#[test]
fn query_of_an_unknown_id_gives_nothing() {
    let mut queue = queue_of(&["a"]);
    assert_eq!(queue.query("zzz"), None);
    assert_eq!(queue.query(""), None);
    assert!(!queue.holds("zzz"));
}

/// The durable store as a test keeps it: the records in the order written.
fn apply(store: &mut Vec<Task>, op: StoreOp) {
    match op {
        StoreOp::Put(task) => {
            match store.iter().position(|t| t.id() == task.id()) {
                Some(i) => store[i] = task,
                None => store.push(task),
            }
        }
        StoreOp::Delete(id) => store.retain(|t| t.id() != &id),
    }
}

#[test]
fn a_restart_reloads_the_queued_tasks_and_not_those_in_flight() {
    let mut store: Vec<Task> = Vec::new();
    let mut queue = InMemoryQueue::new(vec![]);
    for name in ["a", "b", "c", "d"] {
        let task = queue.push_cmd(&command(name), name.to_string(), Ok(())).unwrap();
        apply(&mut store, StoreOp::Put(task));
    }
    let first = queue.pop_next().unwrap();
    apply(&mut store, StoreOp::Delete(first.id().clone()));
    let second = queue.pop_next().unwrap();
    apply(&mut store, StoreOp::Delete(second.id().clone()));
    let op = queue.update_at("a", TaskRunResult::Failed, at(9)).unwrap();
    apply(&mut store, op);

    let mut before = queue.queued();
    let mut restarted = InMemoryQueue::new(store.clone());
    let mut after = restarted.queued();
    assert_eq!(after.len(), 3);
    before.sort_by(|x, y| x.id().cmp(y.id()));
    after.sort_by(|x, y| x.id().cmp(y.id()));
    assert_eq!(before, after);
    assert_eq!(restarted.running_len(), 0);
    assert!(!restarted.holds("b"));
    assert_eq!(restarted.query("a").unwrap().0.tries(), 1);
}

#[test]
fn a_start_keeps_the_first_record_of_each_id() {
    let one = Task::from_parts("a".to_string(), command("one"), 0, None);
    let two = Task::from_parts("b".to_string(), command("two"), 2, Some(at(4)));
    let again = Task::from_parts("a".to_string(), command("three"), 5, None);
    let mut queue = InMemoryQueue::new(vec![one.clone(), two.clone(), again]);
    assert_eq!(queue.queued(), vec![one, two]);
    assert_eq!(queue.running(), vec![]);
}

#[test]
fn a_submission_is_answered_by_whether_it_was_taken() {
    assert_eq!(CommandResponse::for_submission(true), CommandResponse::Success(CommandSuccess {}));
    assert_eq!(CommandResponse::for_submission(false), CommandResponse::Failed(CommandFailed {}));
}

#[test]
fn queue_errors_have_messages() {
    let all = [
        CmdqError::Submission(StorageError::Load),
        CmdqError::Submission(StorageError::Write),
        CmdqError::DuplicateId,
        CmdqError::TaskNotFound,
    ];
    for e in all {
        assert!(!e.message().is_empty());
    }
    assert_ne!(CmdqError::DuplicateId.message(), CmdqError::TaskNotFound.message());
}

#[test]
fn a_point_in_time_is_before_a_later_one() {
    let start = Timestamp { secs: 100, nanos: 500 };
    assert!(Timestamp { secs: 101, nanos: 499 }.is_before(start, 1));
    assert!(!Timestamp { secs: 101, nanos: 500 }.is_before(start, 1));
    assert!(!start.is_before(start, 0));
    assert!(start.is_before(start, 1));
    assert!(Timestamp { secs: u64::MAX, nanos: 0 }.is_before(Timestamp { secs: u64::MAX, nanos: 1 }, u64::MAX));
}

#[test]
fn a_request_is_copied_whole() {
    let cmd = CommandRequest { path: "p".to_string(), program: "q".to_string(), args: vec!["r".to_string(), "".to_string()] };
    assert_eq!(cmd.duplicate(), cmd);
}

#[test]
fn submit_persists_the_task_and_then_queues_it() {
    let mut queue = queue_of(&["a"]);
    let mut store: Vec<Task> = Vec::new();
    let cmd = command("true");
    let task = queue.submit(&cmd, |task| {
        store.push(task);
        Ok(())
    })
    .unwrap();
    assert_eq!(store, vec![task.clone()]);
    assert_eq!(task.command(), &cmd);
    assert_eq!(task.tries(), 0);
    assert_eq!(task.last_attempt(), None);
    assert_eq!(task.id().len(), 10);
    assert_eq!(queue.queued(), vec![Task::new("a".to_string(), command("a")), task.clone()]);
    assert_eq!(queue.query(task.id()), Some((task, TaskState::Queued)));
}

#[test]
fn submit_queues_nothing_where_persisting_fails() {
    let mut queue = queue_of(&["a"]);
    let mut offered: Vec<Task> = Vec::new();
    let r = queue.submit(&command("true"), |task| {
        offered.push(task);
        Err(StorageError::Write)
    });
    assert_eq!(r, Err(CmdqError::Submission(StorageError::Write)));
    assert_eq!(offered.len(), 1);
    assert_eq!(ids(&queue.list(&vec![])), vec!["a"]);
    assert!(!queue.holds(offered[0].id()));
}

#[test]
fn submissions_get_ids_of_their_own() {
    let mut queue = InMemoryQueue::new(vec![]);
    let mut seen: Vec<String> = Vec::new();
    for _ in 0..200 {
        let task = queue.submit(&command("true"), |_| Ok(())).unwrap();
        assert!(!seen.contains(task.id()));
        seen.push(task.id().clone());
    }
    assert_eq!(queue.queued_len(), 200);
    assert_eq!(ids(&queue.queued()), seen);
}
