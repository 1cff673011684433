//! Tasks as rows of a table: what a listing shows of each task.

use crate::text::{join, join_spec};
use crate::{CommandRequest, CommandRequestView, Task, TaskView, Timestamp, NANOS_PER_SEC};
use vstd::prelude::*;

verus! {

/// What `humantime::format_duration` writes for a span of `secs` seconds and
/// `nanos` nanoseconds.
pub uninterp spec fn humantime_duration(secs: u64, nanos: u32) -> Seq<char>;

/// `humantime::format_duration` of a span given in seconds and nanoseconds
/// below one second, as a string.
#[verifier::external_body]
pub(crate) fn format_duration(secs: u64, nanos: u32) -> (text: String)
    requires
        nanos < NANOS_PER_SEC,
    ensures
        text@ == humantime_duration(secs, nanos),
{
    humantime::format_duration(std::time::Duration::new(secs, nanos)).to_string()
}

/// A span of time: whole seconds and the nanoseconds below one second.
#[derive(Debug, Clone, Copy, PartialEq, Eq, Structural)]
pub struct Elapsed {
    pub secs: u64,
    pub nanos: u32,
}

/// The time from `last` to `now`, or nothing where `now` is the earlier.
pub open spec fn elapsed_spec(last: Timestamp, now: Timestamp) -> Option<Elapsed> {
    if now.total_nanos() < last.total_nanos() {
        None
    } else if now.nanos >= last.nanos {
        Some(Elapsed { secs: (now.secs - last.secs) as u64, nanos: (now.nanos - last.nanos) as u32 })
    } else {
        Some(
            Elapsed {
                secs: (now.secs - last.secs - 1) as u64,
                nanos: (now.nanos + NANOS_PER_SEC - last.nanos) as u32,
            },
        )
    }
}

/// The time from `last` to `now`, or nothing where `now` is the earlier. Both
/// hold less than a second of nanoseconds.
pub fn elapsed(last: Timestamp, now: Timestamp) -> (r: Option<Elapsed>)
    requires
        last.nanos < NANOS_PER_SEC,
        now.nanos < NANOS_PER_SEC,
    ensures
        r == elapsed_spec(last, now),
        r matches Some(e) ==> e.nanos < NANOS_PER_SEC && e.secs * NANOS_PER_SEC + e.nanos
            == now.total_nanos() - last.total_nanos(),
{
    if now.secs < last.secs || (now.secs == last.secs && now.nanos < last.nanos) {
        assert(now.total_nanos() < last.total_nanos()) by (nonlinear_arith)
            requires
                now.secs < last.secs || (now.secs == last.secs && now.nanos < last.nanos),
                last.nanos < NANOS_PER_SEC,
                now.nanos < NANOS_PER_SEC,
                NANOS_PER_SEC == 1_000_000_000,
        ;
        return None;
    }
    assert(now.total_nanos() >= last.total_nanos()) by (nonlinear_arith)
        requires
            !(now.secs < last.secs || (now.secs == last.secs && now.nanos < last.nanos)),
            last.nanos < NANOS_PER_SEC,
            now.nanos < NANOS_PER_SEC,
            NANOS_PER_SEC == 1_000_000_000,
    ;
    if now.nanos >= last.nanos {
        Some(Elapsed { secs: now.secs - last.secs, nanos: now.nanos - last.nanos })
    } else {
        Some(
            Elapsed {
                secs: now.secs - last.secs - 1,
                nanos: now.nanos + 1_000_000_000u32 - last.nanos,
            },
        )
    }
}

/// What a listing shows for the last attempt of a task: how long ago it was,
/// or `None` where there was none or the clock has gone back.
pub open spec fn last_attempt_spec(last: Option<Timestamp>, now: Timestamp) -> Seq<char> {
    match last {
        Some(last) => match elapsed_spec(last, now) {
            Some(e) => humantime_duration(e.secs, e.nanos) + " ago"@,
            None => "None"@,
        },
        None => "None"@,
    }
}

/// What a listing shows for the last attempt of a task.
pub fn last_attempt_text(last: Option<Timestamp>, now: Timestamp) -> (r: String)
    requires
        now.nanos < NANOS_PER_SEC,
        last matches Some(t) ==> t.nanos < NANOS_PER_SEC,
    ensures
        r@ == last_attempt_spec(last, now),
{
    match last {
        Some(last) => match elapsed(last, now) {
            Some(e) => {
                let mut text = format_duration(e.secs, e.nanos);
                text.append(" ago");
                text
            },
            None => "None".to_string(),
        },
        None => "None".to_string(),
    }
}

/// A command as one line: the program, a space, and the arguments with a
/// space between each two.
pub open spec fn command_line_spec(command: CommandRequestView) -> Seq<char> {
    command.program + " "@ + join_spec(command.args, " "@)
}

/// A command as one line.
pub fn command_line(command: &CommandRequest) -> (r: String)
    ensures
        r@ == command_line_spec(command@),
{
    let mut line = command.program.clone();
    line.append(" ");
    let args = join(&command.args, " ");
    line.append(args.as_str());
    line
}

/// One row of a listing of tasks.
#[derive(Debug, Clone, PartialEq, Eq)]
pub struct TaskRow {
    pub id: String,
    pub destination: String,
    pub command: String,
    pub tries: usize,
    pub last_attempt: String,
}

/// What a [`TaskRow`] is in contracts.
pub ghost struct TaskRowView {
    pub id: Seq<char>,
    pub destination: Seq<char>,
    pub command: Seq<char>,
    pub tries: nat,
    pub last_attempt: Seq<char>,
}

impl View for TaskRow {
    type V = TaskRowView;

    open spec fn view(&self) -> TaskRowView {
        TaskRowView {
            id: self.id@,
            destination: self.destination@,
            command: self.command@,
            tries: self.tries as nat,
            last_attempt: self.last_attempt@,
        }
    }
}

/// The row that a listing at `now` shows for a task.
pub open spec fn row_spec(task: TaskView, now: Timestamp) -> TaskRowView {
    TaskRowView {
        id: task.id,
        destination: task.command.path,
        command: command_line_spec(task.command),
        tries: task.tries,
        last_attempt: last_attempt_spec(task.last_attempt, now),
    }
}

impl TaskRow {
    /// The row that a listing at `now` shows for a task.
    pub fn from(task: &Task, now: Timestamp) -> (row: TaskRow)
        requires
            now.nanos < NANOS_PER_SEC,
            task@.last_attempt matches Some(t) ==> t.nanos < NANOS_PER_SEC,
        ensures
            row@ == row_spec(task@, now),
    {
        TaskRow {
            id: task.id().clone(),
            destination: task.command().path.clone(),
            command: command_line(task.command()),
            tries: task.tries(),
            last_attempt: last_attempt_text(task.last_attempt(), now),
        }
    }
}

/// The rows that a listing at `now` shows for the tasks, in their order.
pub fn rows_of(tasks: &Vec<Task>, now: Timestamp) -> (rows: Vec<TaskRow>)
    requires
        now.nanos < NANOS_PER_SEC,
        forall|i: int|
            0 <= i < tasks.len() ==> ((#[trigger] tasks[i])@.last_attempt matches Some(t)
                ==> t.nanos < NANOS_PER_SEC),
    ensures
        rows.len() == tasks.len(),
        forall|i: int| 0 <= i < tasks.len() ==> (#[trigger] rows[i])@ == row_spec(tasks[i]@, now),
{
    let mut rows: Vec<TaskRow> = Vec::new();
    let mut i: usize = 0;
    while i < tasks.len()
        invariant
            i <= tasks.len(),
            rows.len() == i,
            now.nanos < NANOS_PER_SEC,
            forall|i: int|
                0 <= i < tasks.len() ==> ((#[trigger] tasks[i])@.last_attempt matches Some(t)
                    ==> t.nanos < NANOS_PER_SEC),
            forall|j: int| 0 <= j < i ==> (#[trigger] rows[j])@ == row_spec(tasks[j]@, now),
        decreases tasks.len() - i,
    {
        rows.push(TaskRow::from(&tasks[i], now));
        i = i + 1;
    }
    rows
}

} // verus!
