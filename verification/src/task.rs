//! One step of a long-lived worker: take the next task, decide what to do with
//! it, and report how it ended.
//!
//! A worker holds one task at most: the running set grows by one task where
//! [`TaskService::run_next_task`] returns a task to execute, and by none
//! otherwise, and it shrinks by that task where [`TaskService::finish_task`]
//! reports it. So a pool of N workers that each call the two in turn runs N
//! tasks at most. A queue is driven either by such a pool or by a
//! [`crate::execution::scheduler::TaskScheduler`], which holds the bound in
//! its invariant.

use vstd::prelude::*;
use crate::{QueueState, Task, TaskRunResult, Timestamp};
use crate::error::CmdqError;
use crate::execution::scheduler::{run_result, run_task, step_spec, ExecutionOutcome, TaskStep};
use crate::queue::{lemma_pop_next, lemma_update, InMemoryQueue, StoreOp, StoreOpView};

verus! {

/// What a worker found when it asked for the next task.
#[derive(Debug)]
pub enum WorkerStep {
    /// No task waits.
    Idle,
    /// The task at the head of the line is not to be executed now. It has
    /// rejoined the line at its tail; the durable store follows with `store`.
    Skipped { task: Task, store: StoreOp },
    /// The task at the head of the line is to be executed. It runs now.
    Execute(Task),
}

impl WorkerStep {
    /// Whether the worker found a task.
    pub fn queue_state(&self) -> (state: QueueState)
        ensures
            self is Idle ==> state == QueueState::Empty,
            !(self is Idle) ==> state == QueueState::NotEmpty,
    {
        match self {
            WorkerStep::Idle => QueueState::Empty,
            _ => QueueState::NotEmpty,
        }
    }
}

/// The steps of a worker on a queue.
#[derive(Debug, Clone, Copy)]
pub struct TaskService {}

impl TaskService {
    pub fn new() -> TaskService {
        TaskService {  }
    }

    /// Takes the head of the line for a worker. Where no task waits the
    /// worker stays idle. The task is counted one more try. A task that must
    /// wait for its backoff, or that was handed out too often, is reported as
    /// skipped at once and rejoins the line at its tail. Any other task is returned for execution and stays in the
    /// running set until [`TaskService::finish_task`] reports how it ended.
    pub fn run_next_task(&self, queue: &mut InMemoryQueue, now: Timestamp) -> (step: WorkerStep)
        requires
            old(queue).wf(),
        ensures
            final(queue).wf(),
            final(queue)@.running.dom().len() == old(queue)@.running.dom().len() + (if step
                is Execute {
                1int
            } else {
                0int
            }),
            match step {
                WorkerStep::Idle => old(queue)@.queued.len() == 0 && final(queue)@ == old(queue)@,
                WorkerStep::Skipped { task, store } => {
                    &&& old(queue)@.queued.len() > 0
                    &&& task@ == old(queue)@.queued[0].dequeued()
                    &&& step_spec(task@, now) is Skip
                    &&& final(queue)@ == old(queue)@.pop_next().update(
                        task@.id,
                        TaskRunResult::Skipped,
                        now,
                    )
                    &&& store@ == StoreOpView::Put(task@)
                },
                WorkerStep::Execute(task) => {
                    &&& old(queue)@.queued.len() > 0
                    &&& task@ == old(queue)@.queued[0].dequeued()
                    &&& step_spec(task@, now) is Execute
                    &&& final(queue)@ == old(queue)@.pop_next()
                },
            },
    {
        match queue.pop_next() {
            None => WorkerStep::Idle,
            Some(task) => {
                proof {
                    lemma_pop_next(old(queue)@);
                }
                match run_task(&task, now) {
                    TaskStep::Execute => WorkerStep::Execute(task),
                    TaskStep::Skip(_) => {
                        proof {
                            lemma_update(queue@, task@.id, TaskRunResult::Skipped, now);
                        }
                        match queue.update_at(task.id().as_str(), TaskRunResult::Skipped, now) {
                            Ok(store) => WorkerStep::Skipped { task, store },
                            Err(_) => {
                                proof {
                                    assert(old(queue)@.pop_next().is_running(task@.id));
                                }
                                WorkerStep::Idle
                            },
                        }
                    },
                }
            },
        }
    }

    /// Reports how the execution of a task that [`TaskService::run_next_task`]
    /// returned has ended: see [`InMemoryQueue::update_at`].
    pub fn finish_task(
        &self,
        queue: &mut InMemoryQueue,
        task: &Task,
        outcome: ExecutionOutcome,
        now: Timestamp,
    ) -> (r: Result<StoreOp, CmdqError>)
        requires
            old(queue).wf(),
        ensures
            final(queue).wf(),
            final(queue)@ == old(queue)@.update(
                task@.id,
                if outcome == ExecutionOutcome::Success {
                    TaskRunResult::Completed
                } else {
                    TaskRunResult::Failed
                },
                now,
            ),
            r is Ok <==> old(queue)@.is_running(task@.id),
            r is Ok ==> final(queue)@.running.dom().len() + 1 == old(queue)@.running.dom().len(),
            r is Err ==> r->Err_0 == CmdqError::TaskNotFound,
            r is Ok ==> final(queue)@.persisted() == r->Ok_0@.apply(old(queue)@.persisted()),
    {
        let result = run_result(outcome);
        proof {
            lemma_update(queue@, task@.id, result, now);
        }
        queue.update_at(task.id().as_str(), result, now)
    }
}

} // verus!
