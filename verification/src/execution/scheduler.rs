//! The scheduler's decisions: how many tasks may run at once, which tasks a
//! poll hands to workers, and what a worker does with the task it was handed.
//!
//! Starting processes, spawning workers and sleeping between polls are the
//! caller's part. A poll is one call of [`TaskScheduler::run_loop`]; the caller
//! starts a worker for each task returned and sleeps
//! [`crate::constants::POLL_INTERVAL_SECONDS`] before the next poll. A worker
//! asks [`run_task`] what to do, executes the command if told so, and ends with
//! [`TaskScheduler::finish_task`].
//!
//! A try is counted when a task is handed out, so a worker sees the number of
//! the attempt it is about to make: 1 at the first. A task that is skipped
//! has been handed out all the same.

use vstd::prelude::*;
use crate::{CommandRequest, Task, TaskRunResult, TaskState, TaskView, Timestamp};
use crate::error::{CmdqError, StorageError};
use crate::execution::{backoff, delay_spec, MAX_RETRIES};
use crate::queue::{
    admits, all_taken, is_task_id, lemma_pop_next, lemma_update, InMemoryQueue, QueueView,
    StoreOp, StoreOpView, TASK_ID_ATTEMPTS,
};

verus! {

/// Why a task is not executed now.
#[derive(Debug, Clone, Copy, PartialEq, Eq, Structural)]
pub enum SkipReason {
    /// The wait after the last failed attempt is not over.
    BackoffPending,
    /// The task has been tried too often. It is never executed again.
    RetriesExhausted,
}

/// What a worker does with the task it was handed.
#[derive(Debug, Clone, Copy, PartialEq, Eq, Structural)]
pub enum TaskStep {
    /// Start no process and report the task as skipped.
    Skip(SkipReason),
    /// Execute the command and report how it ended.
    Execute,
}

/// How an execution of a command ended.
#[derive(Debug, Clone, Copy, PartialEq, Eq, Structural)]
pub enum ExecutionOutcome {
    /// The process ran and exited with success.
    Success,
    /// The process ran and exited with a failure status.
    Failure,
    /// The process could not be started.
    SpawnFailed,
}

/// Whether a task that is handed out for the second time or later must
/// still wait at `now`: its backoff has not passed since its last attempt.
pub open spec fn backoff_pending(task: TaskView, now: Timestamp) -> bool {
    &&& task.tries > 1
    &&& task.last_attempt is Some
    &&& now.is_before_spec(task.last_attempt->0, delay_spec(task.tries) as u64)
}

/// Whether a task has been tried too often to be executed again.
pub open spec fn retries_exhausted(task: TaskView) -> bool {
    task.tries > MAX_RETRIES
}

/// What a worker does at `now` with a task it was handed.
pub open spec fn step_spec(task: TaskView, now: Timestamp) -> TaskStep {
    if backoff_pending(task, now) {
        TaskStep::Skip(SkipReason::BackoffPending)
    } else if retries_exhausted(task) {
        TaskStep::Skip(SkipReason::RetriesExhausted)
    } else {
        TaskStep::Execute
    }
}

/// A task that has been tried more often than [`MAX_RETRIES`] is executed at
/// no time.
pub proof fn lemma_exhausted_is_never_executed(task: TaskView, now: Timestamp)
    requires
        retries_exhausted(task),
    ensures
        step_spec(task, now) is Skip,
{
}

/// The first attempt never waits: a task that was never handed out before
/// is executed at once when it is handed out, whatever the time.
pub proof fn lemma_first_attempts_never_wait(task: TaskView, now: Timestamp)
    requires
        task.tries == 0,
    ensures
        step_spec(task.dequeued(), now) == TaskStep::Execute,
{
}

/// From the second attempt on a task waits: handed out again before its
/// backoff has passed since the failure, it is skipped.
pub proof fn lemma_later_attempts_wait(task: TaskView, failed: Timestamp, now: Timestamp)
    requires
        1 <= task.tries < usize::MAX,
        task.last_attempt == Some(failed),
        now.is_before_spec(failed, delay_spec(task.tries + 1) as u64),
    ensures
        step_spec(task.dequeued(), now) == TaskStep::Skip(SkipReason::BackoffPending),
{
}

/// What a worker does at `now` with a task it was handed. A task on its
/// second or a later attempt waits for its backoff; a task handed out more
/// often than [`MAX_RETRIES`] is skipped for good; any other task is executed.
pub fn run_task(task: &Task, now: Timestamp) -> (step: TaskStep)
    ensures
        step == step_spec(task@, now),
{
    let tries = task.tries();
    if tries > 1 {
        match task.last_attempt() {
            Some(last_attempt) => {
                if now.is_before(last_attempt, backoff(tries)) {
                    return TaskStep::Skip(SkipReason::BackoffPending);
                }
            },
            None => {},
        }
    }
    if tries > MAX_RETRIES {
        TaskStep::Skip(SkipReason::RetriesExhausted)
    } else {
        TaskStep::Execute
    }
}

/// The result to report for an execution that ended with `outcome`: completed
/// on success, failed on a failure status and where the process could not be
/// started.
pub fn run_result(outcome: ExecutionOutcome) -> (result: TaskRunResult)
    ensures
        outcome == ExecutionOutcome::Success ==> result == TaskRunResult::Completed,
        outcome != ExecutionOutcome::Success ==> result == TaskRunResult::Failed,
{
    match outcome {
        ExecutionOutcome::Success => TaskRunResult::Completed,
        ExecutionOutcome::Failure => TaskRunResult::Failed,
        ExecutionOutcome::SpawnFailed => TaskRunResult::Failed,
    }
}

impl TaskStep {
    /// The result to report without an execution: skipped for a task that is
    /// not executed, nothing for a task that is.
    pub fn report(self) -> (result: Option<TaskRunResult>)
        ensures
            self is Skip ==> result == Some(TaskRunResult::Skipped),
            self is Execute ==> result is None,
    {
        match self {
            TaskStep::Skip(_) => Some(TaskRunResult::Skipped),
            TaskStep::Execute => None,
        }
    }
}

/// The queue after the first `count` tasks of the line have been handed to
/// workers, one after the other.
pub open spec fn dispatched(queue: QueueView, count: nat) -> QueueView
    decreases count,
{
    if count == 0 {
        queue
    } else {
        dispatched(queue, (count - 1) as nat).pop_next()
    }
}

/// The tasks as they are handed to workers: each with one more try.
pub open spec fn handed_out(tasks: Seq<TaskView>) -> Seq<TaskView> {
    tasks.map_values(|task: TaskView| task.dequeued())
}

/// The scheduler: the queue together with the bounded pool of workers, as a
/// count of how many workers there are and how many are busy. Every running
/// task holds one worker, so no more tasks run than there are workers.
pub struct TaskScheduler {
    queue: InMemoryQueue,
    num_workers: usize,
    num_running_tasks: usize,
}

impl TaskScheduler {
    /// The queue that the scheduler holds.
    pub closed spec fn queue_view(&self) -> QueueView {
        self.queue@
    }

    /// The number of workers.
    pub closed spec fn workers(&self) -> nat {
        self.num_workers as nat
    }

    /// The number of busy workers.
    pub closed spec fn busy(&self) -> nat {
        self.num_running_tasks as nat
    }

    /// The invariant of the scheduler: the queue is well formed, each running
    /// task holds one worker, and no more workers are busy than there are.
    pub open spec fn wf(&self) -> bool {
        &&& self.queue_view().wf()
        &&& self.queue_view().running.dom().len() == self.busy()
        &&& self.busy() <= self.workers()
    }

    /// A scheduler for `queue` with `num_workers` workers. The tasks that run
    /// already each hold a worker, so there must be a worker for each of them.
    pub fn new(queue: InMemoryQueue, num_workers: usize) -> (scheduler: TaskScheduler)
        requires
            queue.wf(),
            queue@.running.dom().len() <= num_workers,
        ensures
            scheduler.wf(),
            scheduler.queue_view() == queue@,
            scheduler.workers() == num_workers,
            scheduler.busy() == queue@.running.dom().len(),
    {
        let num_running_tasks = queue.running_len();
        TaskScheduler { queue, num_workers, num_running_tasks }
    }

    pub fn num_workers(&self) -> (n: usize)
        ensures
            n == self.workers(),
    {
        self.num_workers
    }

    pub fn num_running_tasks(&self) -> (n: usize)
        ensures
            n == self.busy(),
    {
        self.num_running_tasks
    }

    /// The queue, to read.
    pub fn queue(&self) -> (queue: &InMemoryQueue)
        ensures
            queue@ == self.queue_view(),
    {
        &self.queue
    }

    /// Submits `command` to the queue, as [`InMemoryQueue::submit`] does it.
    /// No worker is taken or freed.
    pub fn submit<F: FnOnce(Task) -> Result<(), StorageError>>(
        &mut self,
        command: &CommandRequest,
        persist: F,
    ) -> (r: Result<Task, CmdqError>)
        requires
            old(self).wf(),
            forall|task: Task| call_requires(persist, (task,)),
        ensures
            final(self).wf(),
            final(self).workers() == old(self).workers(),
            final(self).busy() == old(self).busy(),
            match r {
                Ok(task) => {
                    &&& is_task_id(task@.id)
                    &&& !old(self).queue_view().holds(task@.id)
                    &&& task@ == TaskView::submitted(task@.id, command@)
                    &&& final(self).queue_view() == old(self).queue_view().submit(task@)
                    &&& final(self).queue_view().persisted() == old(self).queue_view().persisted().insert(task@.id, task@)
                    &&& exists|stored: Task, outcome: Result<(), StorageError>|
                        {
                            &&& stored@ == task@
                            &&& outcome is Ok
                            &&& call_ensures(persist, (stored,), outcome)
                        }
                },
                Err(e) => {
                    &&& final(self).queue_view() == old(self).queue_view()
                    &&& e is DuplicateId || e is Submission
                    &&& e is DuplicateId ==> exists|drawn: Seq<Seq<char>>|
                        drawn.len() == TASK_ID_ATTEMPTS && #[trigger] all_taken(
                            old(self).queue_view(),
                            drawn,
                        )
                    &&& e matches CmdqError::Submission(cause) ==> exists|
                        stored: Task,
                        outcome: Result<(), StorageError>,
                    |
                        {
                            &&& is_task_id(stored@.id)
                            &&& !old(self).queue_view().holds(stored@.id)
                            &&& stored@ == TaskView::submitted(stored@.id, command@)
                            &&& outcome is Err
                            &&& outcome->Err_0 == cause
                            &&& call_ensures(persist, (stored,), outcome)
                        }
                },
            },
    {
        self.queue.submit(command, persist)
    }

    /// A snapshot of the tasks in the states that `filter` admits, as
    /// [`InMemoryQueue::list`] gives it.
    pub fn list(&mut self, filter: &Vec<TaskState>) -> (tasks: Vec<Task>)
        requires
            old(self).wf(),
        ensures
            final(self).wf(),
            final(self).queue_view() == old(self).queue_view(),
            final(self).workers() == old(self).workers(),
            final(self).busy() == old(self).busy(),
            ({
                let queue = old(self).queue_view();
                let waiting = if admits(filter@, TaskState::Queued) {
                    queue.queued
                } else {
                    Seq::empty()
                };
                &&& waiting.len() <= tasks.len()
                &&& tasks.deep_view().take(waiting.len() as int) == waiting
                &&& admits(filter@, TaskState::Running) ==> queue.lists_running(
                    tasks.deep_view().skip(waiting.len() as int),
                )
                &&& !admits(filter@, TaskState::Running) ==> tasks.len() == waiting.len()
            }),
    {
        self.queue.list(filter)
    }

    /// The task with the id and its state, if the queue holds one.
    pub fn query(&mut self, id: &str) -> (found: Option<(Task, TaskState)>)
        requires
            old(self).wf(),
        ensures
            final(self).wf(),
            final(self).queue_view() == old(self).queue_view(),
            final(self).workers() == old(self).workers(),
            final(self).busy() == old(self).busy(),
            found is Some <==> old(self).queue_view().holds(id@),
            found matches Some(pair) ==> Some(pair.0@) == old(self).queue_view().task_of(id@)
                && Some(pair.1) == old(self).queue_view().state_of(id@),
    {
        self.queue.query(id)
    }

    /// One poll: while a worker is idle and a task waits, the head of the line
    /// is handed out and a worker is counted busy. The tasks handed out are
    /// returned as they run, in the order in which they left the line; the
    /// caller starts a worker for each.
    pub fn run_loop(&mut self) -> (tasks: Vec<Task>)
        requires
            old(self).wf(),
        ensures
            final(self).wf(),
            final(self).workers() == old(self).workers(),
            final(self).busy() == old(self).busy() + tasks.len(),
            tasks.len() == old(self).queue_view().queued.len() || final(self).busy() == final(self).workers(),
            tasks.len() <= old(self).queue_view().queued.len(),
            tasks.deep_view() == handed_out(
                old(self).queue_view().queued.take(tasks.len() as int),
            ),
            final(self).queue_view() == dispatched(old(self).queue_view(), tasks.len() as nat),
    {
        let mut tasks: Vec<Task> = Vec::new();
        let mut waiting = true;
        let ghost line = self.queue@.queued;
        proof {
            assert(tasks.deep_view() =~= handed_out(line.take(0)));
            assert(line.skip(0) =~= line);
        }
        while waiting && self.num_running_tasks < self.num_workers
            invariant
                self.wf(),
                line == old(self).queue_view().queued,
                self.workers() == old(self).workers(),
                self.busy() == old(self).busy() + tasks.len(),
                tasks.len() <= line.len(),
                !waiting ==> tasks.len() == line.len(),
                self.queue_view().queued == line.skip(tasks.len() as int),
                tasks.deep_view() == handed_out(line.take(tasks.len() as int)),
                self.queue_view() == dispatched(old(self).queue_view(), tasks.len() as nat),
            decreases
                    self.num_workers - self.num_running_tasks + (if waiting {
                        1nat
                    } else {
                        0nat
                    }),
        {
            let ghost before = self.queue@;
            let ghost taken = tasks.deep_view();
            match self.queue.pop_next() {
                Some(task) => {
                    proof {
                        lemma_pop_next(before);
                        assert(before.queued.drop_first() =~= line.skip(tasks.len() + 1));
                        assert(before.queued[0] == line[tasks.len() as int]);
                        assert(taken.push(task@) =~= handed_out(line.take(tasks.len() + 1)));
                    }
                    self.num_running_tasks = self.num_running_tasks + 1;
                    tasks.push(task);
                    proof {
                        assert(tasks.deep_view() =~= taken.push(task@));
                    }
                },
                None => {
                    waiting = false;
                },
            }
        }
        tasks
    }

    /// The end of a worker's run: `result` is reported to the queue for the
    /// running task with the id, as [`InMemoryQueue::update_at`] does it, and
    /// the worker that held the task is counted idle again. Where no running
    /// task has the id, no worker held it, and nothing changes.
    pub fn finish_task(&mut self, id: &str, result: TaskRunResult, now: Timestamp) -> (r: Result<
        StoreOp,
        CmdqError,
    >)
        requires
            old(self).wf(),
        ensures
            final(self).wf(),
            final(self).workers() == old(self).workers(),
            final(self).queue_view() == old(self).queue_view().update(id@, result, now),
            r is Ok <==> old(self).queue_view().is_running(id@),
            r is Ok ==> final(self).busy() == old(self).busy() - 1,
            r is Err ==> final(self).busy() == old(self).busy(),
            r is Err ==> r->Err_0 == CmdqError::TaskNotFound,
            r is Ok ==> r->Ok_0@ == (match result {
                TaskRunResult::Completed => StoreOpView::Delete(id@),
                TaskRunResult::Failed => StoreOpView::Put(
                    old(self).queue_view().running[id@].failed_at(now),
                ),
                TaskRunResult::Skipped => StoreOpView::Put(old(self).queue_view().running[id@]),
            }),
            r is Ok ==> final(self).queue_view().persisted() == r->Ok_0@.apply(
                old(self).queue_view().persisted(),
            ),
    {
        proof {
            lemma_update(self.queue@, id@, result, now);
        }
        let r = self.queue.update_at(id, result, now);
        if r.is_ok() {
            self.num_running_tasks = self.num_running_tasks - 1;
        }
        r
    }
}

/// With N workers the running set never holds more than N tasks: the
/// scheduler's invariant, which [`TaskScheduler::new`] sets up and every
/// function of the scheduler keeps, bounds it.
pub proof fn lemma_running_within_workers(scheduler: &TaskScheduler)
    requires
        scheduler.wf(),
    ensures
        scheduler.queue_view().running.dom().len() <= scheduler.workers(),
{
}

} // verus!
