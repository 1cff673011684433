//! A local command queue: commands are submitted, queued in order, handed to a
//! bounded number of workers and retried with a growing delay when they fail.
//!
//! This file holds the data model. The queue itself is in [`queue`], the retry
//! policy in [`execution`], the scheduling decisions in [`execution::scheduler`]
//! and [`task`].

use vstd::prelude::*;

pub mod cli_util;
pub mod client;
pub mod constants;
pub mod error;
pub mod execution;
pub mod paths;
pub mod photos;
pub mod queue;
pub mod raw_pics;
pub mod task;
pub mod text;
pub mod text_crypt;
pub mod web;
pub mod ytdlp;

verus! {

/// A command to run: the working directory, the executable and its arguments.
#[derive(Debug, Clone, Default, PartialEq, Eq, PartialOrd, Ord)]
pub struct CommandRequest {
    pub path: String,
    pub program: String,
    pub args: Vec<String>,
}

/// What a [`CommandRequest`] is in contracts.
pub ghost struct CommandRequestView {
    pub path: Seq<char>,
    pub program: Seq<char>,
    pub args: Seq<Seq<char>>,
}

impl View for CommandRequest {
    type V = CommandRequestView;

    open spec fn view(&self) -> CommandRequestView {
        CommandRequestView {
            path: self.path@,
            program: self.program@,
            args: self.args.deep_view(),
        }
    }
}

impl DeepView for CommandRequest {
    type V = CommandRequestView;

    open spec fn deep_view(&self) -> CommandRequestView {
        self@
    }
}

impl CommandRequest {
    /// A copy of this request.
    pub fn duplicate(&self) -> (r: CommandRequest)
        ensures
            r@ == self@,
    {
        let r = CommandRequest {
            path: self.path.clone(),
            program: self.program.clone(),
            args: text::clone_strings(&self.args),
        };
        r
    }
}

/// A point in time: whole seconds since the Unix epoch and the nanoseconds
/// within the second.
#[derive(Debug, Clone, Copy, PartialEq, Eq, Structural)]
pub struct Timestamp {
    pub secs: u64,
    pub nanos: u32,
}

pub const NANOS_PER_SEC: u64 = 1_000_000_000;

impl Timestamp {
    /// The nanoseconds between the epoch and this point in time.
    pub open spec fn total_nanos(self) -> int {
        self.secs * NANOS_PER_SEC + self.nanos
    }

    /// Whether this point in time lies strictly before `seconds` seconds after
    /// `start`.
    pub open spec fn is_before_spec(self, start: Timestamp, seconds: u64) -> bool {
        self.total_nanos() < start.total_nanos() + seconds * NANOS_PER_SEC
    }

    #[verifier::when_used_as_spec(is_before_spec)]
    pub fn is_before(self, start: Timestamp, seconds: u64) -> (r: bool)
        ensures
            r == self.is_before_spec(start, seconds),
    {
        let here: u128 = self.secs as u128 * 1_000_000_000 + self.nanos as u128;
        let from: u128 = start.secs as u128 * 1_000_000_000 + start.nanos as u128;
        let span: u128 = seconds as u128 * 1_000_000_000;
        here < from + span
    }
}

/// One unit of queued work: a command with its attempt bookkeeping.
#[derive(Debug, Clone, Default, PartialEq, Eq)]
pub struct Task {
    id: String,
    command: CommandRequest,
    tries: usize,
    last_attempt: Option<Timestamp>,
}

/// What a [`Task`] is in contracts.
pub ghost struct TaskView {
    pub id: Seq<char>,
    pub command: CommandRequestView,
    pub tries: nat,
    pub last_attempt: Option<Timestamp>,
}

impl View for Task {
    type V = TaskView;

    closed spec fn view(&self) -> TaskView {
        TaskView {
            id: self.id@,
            command: self.command@,
            tries: self.tries as nat,
            last_attempt: self.last_attempt,
        }
    }
}

impl DeepView for Task {
    type V = TaskView;

    open spec fn deep_view(&self) -> TaskView {
        self@
    }
}

impl TaskView {
    /// The task that a submission of `command` under `id` creates.
    pub open spec fn submitted(id: Seq<char>, command: CommandRequestView) -> TaskView {
        TaskView { id, command, tries: 0, last_attempt: None }
    }

    /// The task as it is handed to a worker: with one more try. The count of
    /// tries stops at the largest number the machine holds.
    pub open spec fn dequeued(self) -> TaskView {
        TaskView {
            tries: if self.tries < usize::MAX {
                self.tries + 1
            } else {
                self.tries
            },
            ..self
        }
    }

    /// The task after its attempt has failed at `now`: `now` is its last
    /// attempt. The try was counted when the task was handed out.
    pub open spec fn failed_at(self, now: Timestamp) -> TaskView {
        TaskView { last_attempt: Some(now), ..self }
    }
}

impl Task {
    /// The task that a submission of `command` under `id` creates: no tries, no
    /// attempt yet.
    pub fn new(id: String, command: CommandRequest) -> (t: Task)
        ensures
            t@ == TaskView::submitted(id@, command@),
    {
        Task { id, command, tries: 0, last_attempt: None }
    }

    /// A task with every field given, as a stored record holds it.
    pub fn from_parts(
        id: String,
        command: CommandRequest,
        tries: usize,
        last_attempt: Option<Timestamp>,
    ) -> (t: Task)
        ensures
            t@ == (TaskView { id: id@, command: command@, tries: tries as nat, last_attempt }),
    {
        Task { id, command, tries, last_attempt }
    }

    pub fn id(&self) -> (r: &String)
        ensures
            r@ == self@.id,
    {
        &self.id
    }

    pub fn command(&self) -> (r: &CommandRequest)
        ensures
            r@ == self@.command,
    {
        &self.command
    }

    pub fn tries(&self) -> (r: usize)
        ensures
            r as nat == self@.tries,
    {
        self.tries
    }

    pub fn last_attempt(&self) -> (r: Option<Timestamp>)
        ensures
            r == self@.last_attempt,
    {
        self.last_attempt
    }

    /// The same task again, as a value of its own.
    pub fn duplicate(&self) -> (r: Task)
        ensures
            r@ == self@,
    {
        Task {
            id: self.id.clone(),
            command: self.command.duplicate(),
            tries: self.tries,
            last_attempt: self.last_attempt,
        }
    }

    /// Books the hand-out to a worker: one more try.
    pub fn record_dequeue(&mut self)
        ensures
            final(self)@ == old(self)@.dequeued(),
    {
        if self.tries < usize::MAX {
            self.tries = self.tries + 1;
        }
    }

    /// Books the failure of the attempt at `now`.
    pub fn record_failure(&mut self, now: Timestamp)
        ensures
            final(self)@ == old(self)@.failed_at(now),
    {
        self.last_attempt = Some(now);
    }
}

/// The outcome of one execution attempt, reported to the queue.
#[derive(Debug, Clone, Copy, PartialEq, Eq, Structural)]
pub enum TaskRunResult {
    Completed,
    Failed,
    Skipped,
}

/// Where a task currently is. It is derived from the collection that holds the
/// task and stored nowhere.
#[derive(Debug, Clone, Copy, PartialEq, Eq, PartialOrd, Ord, Structural)]
pub enum TaskState {
    Running,
    Queued,
}

/// Whether a worker found a task to take.
#[derive(Debug, Clone, Copy, PartialEq, Eq, Structural)]
pub enum QueueState {
    NotEmpty,
    Empty,
}

/// The answer to a submission.
#[derive(Debug, Clone, Copy, PartialEq, Eq, Structural)]
pub enum CommandResponse {
    Success(CommandSuccess),
    Failed(CommandFailed),
}

#[derive(Debug, Clone, Copy, PartialEq, Eq, Structural)]
pub struct CommandSuccess {}

#[derive(Debug, Clone, Copy, PartialEq, Eq, Structural)]
pub struct CommandFailed {}

impl CommandResponse {
    /// The answer to a submission that `accepted` says was taken or not.
    pub fn for_submission(accepted: bool) -> (r: CommandResponse)
        ensures
            accepted ==> r == CommandResponse::Success(CommandSuccess {}),
            !accepted ==> r == CommandResponse::Failed(CommandFailed {}),
    {
        if accepted {
            CommandResponse::Success(CommandSuccess {})
        } else {
            CommandResponse::Failed(CommandFailed {})
        }
    }
}

} // verus!
