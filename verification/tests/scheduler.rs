use cmd_queue::constants::{DEFAULT_CONCURRENCY_LEVEL, POLL_INTERVAL_SECONDS};
use cmd_queue::error::CmdqError;
use cmd_queue::execution::scheduler::{
    run_result, run_task, ExecutionOutcome, SkipReason, TaskScheduler, TaskStep,
};
use cmd_queue::execution::{backoff, delay, DELAY_SECONDS, MAX_DELAY_SECONDS, MAX_RETRIES};
use cmd_queue::queue::{InMemoryQueue, StoreOp};
use cmd_queue::task::{TaskService, WorkerStep};
use cmd_queue::{CommandRequest, QueueState, Task, TaskRunResult, TaskState, Timestamp};

fn command(program: &str) -> CommandRequest {
    CommandRequest { path: "/tmp".to_string(), program: program.to_string(), args: vec![] }
}

fn at(secs: u64) -> Timestamp {
    Timestamp { secs, nanos: 0 }
}

fn tried(tries: usize, last: Option<Timestamp>) -> Task {
    Task::from_parts("t".to_string(), command("false"), tries, last)
}

fn queue_with(count: usize) -> InMemoryQueue {
    let mut queue = InMemoryQueue::new(vec![]);
    for i in 0..count {
        queue.push_cmd(&command("true"), format!("task{}", i), Ok(())).unwrap();
    }
    queue
}

#[test]
fn delay_is_the_power_of_two_up_to_the_cap() {
    assert_eq!(delay(0), 1);
    assert_eq!(delay(1), 2);
    assert_eq!(delay(2), 4);
    assert_eq!(delay(3), 8);
    assert_eq!(delay(5), 32);
    assert_eq!(delay(9), 512);
    assert_eq!(delay(10), 600);
    assert_eq!(delay(11), 600);
    assert_eq!(delay(64), 600);
    assert_eq!(delay(u32::MAX), 600);
}

#[test]
fn delay_grows_and_stays_under_the_cap() {
    let mut last = 0;
    for tries in 1..200u32 {
        let d = delay(tries);
        assert!(d >= last);
        assert!(d <= MAX_DELAY_SECONDS);
        last = d;
    }
}

#[test]
fn backoff_is_delay_for_every_number_of_tries() {
    for tries in 0..100usize {
        assert_eq!(backoff(tries), delay(tries as u32));
    }
    assert_eq!(backoff(usize::MAX), 600);
    assert_eq!(backoff(65), 600);
}

#[test]
fn the_policy_has_its_constants() {
    assert_eq!(DELAY_SECONDS, 2);
    assert_eq!(MAX_DELAY_SECONDS, 600);
    assert_eq!(MAX_RETRIES, 20);
    assert_eq!(DEFAULT_CONCURRENCY_LEVEL, 4);
    assert_eq!(POLL_INTERVAL_SECONDS, 10);
}

#[test]
fn a_task_on_its_first_attempt_is_executed_at_once() {
    assert_eq!(run_task(&tried(0, None), at(0)), TaskStep::Execute);
    assert_eq!(run_task(&tried(1, Some(at(100))), at(100)), TaskStep::Execute);
    assert_eq!(run_task(&tried(1, Some(at(100))), at(0)), TaskStep::Execute);
}

#[test]
fn a_task_on_its_second_attempt_waits_for_its_backoff() {
    let task = tried(2, Some(at(100)));
    assert_eq!(run_task(&task, at(100)), TaskStep::Skip(SkipReason::BackoffPending));
    assert_eq!(run_task(&task, at(103)), TaskStep::Skip(SkipReason::BackoffPending));
    assert_eq!(
        run_task(&task, Timestamp { secs: 103, nanos: 999_999_999 }),
        TaskStep::Skip(SkipReason::BackoffPending)
    );
    assert_eq!(run_task(&task, at(104)), TaskStep::Execute);
    assert_eq!(run_task(&task, at(1000)), TaskStep::Execute);
    let task = tried(10, Some(at(100)));
    assert_eq!(run_task(&task, at(699)), TaskStep::Skip(SkipReason::BackoffPending));
    assert_eq!(run_task(&task, at(700)), TaskStep::Execute);
}

#[test]
fn a_task_without_a_last_attempt_does_not_wait() {
    assert_eq!(run_task(&tried(5, None), at(0)), TaskStep::Execute);
}

#[test]
fn a_task_tried_too_often_is_never_executed_again() {
    let last = at(1_000);
    assert_eq!(run_task(&tried(MAX_RETRIES, Some(last)), at(10_000)), TaskStep::Execute);
    for tries in [MAX_RETRIES + 1, MAX_RETRIES + 2, 1_000, usize::MAX] {
        let task = tried(tries, Some(last));
        assert_eq!(run_task(&task, at(1_001)), TaskStep::Skip(SkipReason::BackoffPending));
        assert_eq!(run_task(&task, at(1_600)), TaskStep::Skip(SkipReason::RetriesExhausted));
        assert_eq!(run_task(&task, at(u64::MAX)), TaskStep::Skip(SkipReason::RetriesExhausted));
        assert_eq!(run_task(&tried(tries, None), at(0)), TaskStep::Skip(SkipReason::RetriesExhausted));
    }
}

#[test]
fn a_step_without_execution_reports_skipped() {
    assert_eq!(TaskStep::Skip(SkipReason::BackoffPending).report(), Some(TaskRunResult::Skipped));
    assert_eq!(TaskStep::Skip(SkipReason::RetriesExhausted).report(), Some(TaskRunResult::Skipped));
    assert_eq!(TaskStep::Execute.report(), None);
}

#[test]
fn an_execution_is_completed_only_on_success() {
    assert_eq!(run_result(ExecutionOutcome::Success), TaskRunResult::Completed);
    assert_eq!(run_result(ExecutionOutcome::Failure), TaskRunResult::Failed);
    assert_eq!(run_result(ExecutionOutcome::SpawnFailed), TaskRunResult::Failed);
}

#[test]
fn a_new_scheduler_has_idle_workers() {
    let scheduler = TaskScheduler::new(queue_with(3), 4);
    assert_eq!(scheduler.num_workers(), 4);
    assert_eq!(scheduler.num_running_tasks(), 0);
    assert_eq!(scheduler.queue().queued_len(), 3);
    assert_eq!(scheduler.queue().running_len(), 0);
}

#[test]
fn tasks_that_run_already_each_hold_a_worker() {
    let mut queue = queue_with(3);
    queue.pop_next().unwrap();
    queue.pop_next().unwrap();
    let mut scheduler = TaskScheduler::new(queue, 3);
    assert_eq!(scheduler.num_running_tasks(), 2);
    assert_eq!(scheduler.run_loop().len(), 1);
    assert_eq!(scheduler.num_running_tasks(), 3);
}

#[test]
fn no_more_tasks_run_than_there_are_workers() {
    let mut scheduler = TaskScheduler::new(queue_with(7), 3);
    let started = scheduler.run_loop();
    let ids: Vec<&str> = started.iter().map(|t| t.id().as_str()).collect();
    assert_eq!(ids, vec!["task0", "task1", "task2"]);
    assert!(started.iter().all(|t| t.tries() == 1));
    assert_eq!(scheduler.num_running_tasks(), 3);
    assert_eq!(scheduler.queue().running_len(), 3);
    assert_eq!(scheduler.queue().queued_len(), 4);

    assert!(scheduler.run_loop().is_empty());
    assert_eq!(scheduler.queue().running_len(), 3);

    scheduler.finish_task("task1", TaskRunResult::Completed, at(1)).unwrap();
    assert_eq!(scheduler.num_running_tasks(), 2);
    let started = scheduler.run_loop();
    assert_eq!(started.len(), 1);
    assert_eq!(started[0].id(), "task3");
    assert_eq!(scheduler.queue().running_len(), 3);
    assert!(scheduler.queue().running_len() <= scheduler.num_workers());
}

#[test]
fn the_running_set_stays_within_the_workers_over_many_polls() {
    let workers = 4;
    let mut scheduler = TaskScheduler::new(queue_with(25), workers);
    let mut now = 0;
    let mut done = 0;
    while scheduler.queue().queued_len() + scheduler.queue().running_len() > 0 {
        let started = scheduler.run_loop();
        assert!(scheduler.queue().running_len() <= workers);
        assert_eq!(scheduler.queue().running_len(), scheduler.num_running_tasks());
        for (i, task) in started.iter().enumerate() {
            now += 1;
            if i % 2 == 0 || task.tries() >= 3 {
                scheduler.finish_task(task.id(), TaskRunResult::Completed, at(now)).unwrap();
                done += 1;
            } else {
                scheduler.finish_task(task.id(), TaskRunResult::Failed, at(now)).unwrap();
            }
            assert!(scheduler.queue().running_len() <= workers);
            assert_eq!(scheduler.queue().running_len(), scheduler.num_running_tasks());
        }
    }
    assert_eq!(done, 25);
    assert_eq!(scheduler.num_running_tasks(), 0);
}

#[test]
fn a_poll_with_fewer_tasks_than_workers_takes_them_all() {
    let mut scheduler = TaskScheduler::new(queue_with(2), 5);
    assert_eq!(scheduler.run_loop().len(), 2);
    assert_eq!(scheduler.num_running_tasks(), 2);
    assert_eq!(scheduler.queue().queued_len(), 0);
    assert!(scheduler.run_loop().is_empty());
}

#[test]
fn a_scheduler_without_workers_starts_nothing() {
    let mut scheduler = TaskScheduler::new(queue_with(2), 0);
    assert!(scheduler.run_loop().is_empty());
    assert_eq!(scheduler.queue().queued_len(), 2);
}

#[test]
fn finishing_a_task_that_does_not_run_frees_no_worker() {
    let mut scheduler = TaskScheduler::new(queue_with(2), 1);
    scheduler.run_loop();
    for id in ["nobody", "task1"] {
        let r = scheduler.finish_task(id, TaskRunResult::Failed, at(1));
        assert_eq!(r, Err(CmdqError::TaskNotFound));
        assert_eq!(scheduler.num_running_tasks(), 1);
        assert_eq!(scheduler.queue().running_len(), 1);
    }
    assert!(scheduler.run_loop().is_empty());
    scheduler.finish_task("task0", TaskRunResult::Completed, at(2)).unwrap();
    assert_eq!(scheduler.num_running_tasks(), 0);
    assert_eq!(scheduler.run_loop().len(), 1);
}

#[test]
fn the_scheduler_takes_submissions_and_lists_its_tasks() {
    let mut scheduler = TaskScheduler::new(queue_with(1), 1);
    let mut store: Vec<Task> = Vec::new();
    let task = scheduler
        .submit(&command("echo"), |task| {
            store.push(task);
            Ok(())
        })
        .unwrap();
    assert_eq!(store, vec![task.clone()]);
    assert_eq!(scheduler.num_running_tasks(), 0);
    assert_eq!(scheduler.query(task.id()), Some((task.clone(), TaskState::Queued)));
    scheduler.run_loop();
    let listed = scheduler.list(&vec![]);
    assert_eq!(listed.len(), 2);
    assert_eq!(listed[0], task);
    assert_eq!(listed[1].id(), "task0");
    assert_eq!(scheduler.list(&vec![TaskState::Queued]), vec![task]);
    assert_eq!(scheduler.query("task0").unwrap().1, TaskState::Running);
    assert_eq!(scheduler.query("nobody"), None);
}

#[test]
fn a_command_that_succeeds_leaves_the_queue_within_one_poll() {
    let mut queue = InMemoryQueue::new(vec![]);
    let cmd = CommandRequest { path: "/tmp".to_string(), program: "true".to_string(), args: vec![] };
    queue.push_cmd(&cmd, "job".to_string(), Ok(())).unwrap();
    let mut scheduler = TaskScheduler::new(queue, 2);
    let started = scheduler.run_loop();
    assert_eq!(started, vec![Task::from_parts("job".to_string(), cmd.clone(), 1, None)]);
    assert_eq!(run_task(&started[0], at(50)), TaskStep::Execute);
    let result = run_result(ExecutionOutcome::Success);
    let op = scheduler.finish_task("job", result, at(51)).unwrap();
    assert_eq!(op, StoreOp::Delete("job".to_string()));
    assert_eq!(scheduler.query("job"), None);
    assert_eq!(scheduler.queue().queued_len() + scheduler.queue().running_len(), 0);
    assert_eq!(scheduler.num_running_tasks(), 0);
    assert!(scheduler.run_loop().is_empty());
}

#[test]
fn a_worker_of_the_service_takes_one_task_at_a_time() {
    let mut queue = InMemoryQueue::new(vec![]);
    let cmd = CommandRequest { path: "/tmp".to_string(), program: "true".to_string(), args: vec![] };
    queue.push_cmd(&cmd, "job".to_string(), Ok(())).unwrap();
    let service = TaskService::new();
    let step = service.run_next_task(&mut queue, at(50));
    assert_eq!(step.queue_state(), QueueState::NotEmpty);
    let task = match step {
        WorkerStep::Execute(task) => task,
        other => panic!("{:?}", other),
    };
    assert_eq!(task, Task::from_parts("job".to_string(), cmd, 1, None));
    assert_eq!(queue.query("job").unwrap().1, TaskState::Running);
    let op = service.finish_task(&mut queue, &task, ExecutionOutcome::Success, at(51)).unwrap();
    assert_eq!(op, StoreOp::Delete("job".to_string()));
    assert_eq!(queue.query("job"), None);
    let step = service.run_next_task(&mut queue, at(52));
    assert!(matches!(step, WorkerStep::Idle));
    assert_eq!(step.queue_state(), QueueState::Empty);
}

#[test]
fn a_command_that_fails_is_retried_with_growing_waits_and_then_given_up() {
    let mut queue = InMemoryQueue::new(vec![]);
    let cmd = CommandRequest { path: String::new(), program: "false".to_string(), args: vec![] };
    queue.push_cmd(&cmd, "job".to_string(), Ok(())).unwrap();
    let service = TaskService::new();
    let mut now: u64 = 1_000;
    let mut waits: Vec<u64> = Vec::new();
    for attempt in 1..=MAX_RETRIES {
        let task = match service.run_next_task(&mut queue, at(now)) {
            WorkerStep::Execute(task) => task,
            other => panic!("attempt {}: {:?}", attempt, other),
        };
        assert_eq!(task.tries(), attempt);
        let outcome = if attempt % 2 == 0 {
            ExecutionOutcome::SpawnFailed
        } else {
            ExecutionOutcome::Failure
        };
        let op = service.finish_task(&mut queue, &task, outcome, at(now)).unwrap();
        let (stored, state) = queue.query("job").unwrap();
        assert_eq!(state, TaskState::Queued);
        assert_eq!(stored.tries(), attempt);
        assert_eq!(stored.last_attempt(), Some(at(now)));
        assert_eq!(op, StoreOp::Put(stored));
        let wait = delay((attempt + 1) as u32);
        waits.push(wait);
        now += wait;
    }
    assert_eq!(&waits[..10], [4, 8, 16, 32, 64, 128, 256, 512, 600, 600]);
    for round in 1..=50usize {
        match service.run_next_task(&mut queue, at(now)) {
            WorkerStep::Skipped { task, store } => {
                assert_eq!(task.tries(), MAX_RETRIES + round);
                assert_eq!(run_task(&task, at(now)), TaskStep::Skip(SkipReason::RetriesExhausted));
                assert_eq!(store, StoreOp::Put(task.duplicate()));
                assert_eq!(queue.query("job"), Some((task, TaskState::Queued)));
            }
            other => panic!("{:?}", other),
        }
        now += 1_000;
    }
}

#[test]
fn a_task_handed_out_before_its_backoff_has_passed_is_skipped_and_counted() {
    let failed = Task::from_parts("job".to_string(), command("false"), 1, Some(at(100)));
    let mut queue = InMemoryQueue::new(vec![failed]);
    let service = TaskService::new();
    match service.run_next_task(&mut queue, at(103)) {
        WorkerStep::Skipped { task, store } => {
            assert_eq!(task.tries(), 2);
            assert_eq!(task.last_attempt(), Some(at(100)));
            assert_eq!(store, StoreOp::Put(task));
        }
        other => panic!("{:?}", other),
    }
    match service.run_next_task(&mut queue, at(107)) {
        WorkerStep::Skipped { task, .. } => assert_eq!(task.tries(), 3),
        other => panic!("{:?}", other),
    }
    match service.run_next_task(&mut queue, at(116)) {
        WorkerStep::Execute(task) => assert_eq!(task.tries(), 4),
        other => panic!("{:?}", other),
    }
}

#[test]
fn a_task_that_waits_is_overtaken_by_a_younger_one() {
    let waiting = Task::from_parts("old".to_string(), command("false"), 3, Some(at(100)));
    let mut queue = InMemoryQueue::new(vec![waiting.clone()]);
    queue.push_cmd(&command("true"), "young".to_string(), Ok(())).unwrap();
    let service = TaskService::new();
    let handed = Task::from_parts("old".to_string(), command("false"), 4, Some(at(100)));
    match service.run_next_task(&mut queue, at(101)) {
        WorkerStep::Skipped { task, store } => {
            assert_eq!(task, handed);
            assert_eq!(store, StoreOp::Put(handed.clone()));
        }
        other => panic!("{:?}", other),
    }
    let ids: Vec<String> = queue.queued().iter().map(|t| t.id().clone()).collect();
    assert_eq!(ids, vec!["young", "old"]);
    match service.run_next_task(&mut queue, at(101)) {
        WorkerStep::Execute(task) => assert_eq!(task.id(), "young"),
        other => panic!("{:?}", other),
    }
}
