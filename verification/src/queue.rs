//! The queue of tasks: a first-in-first-out line of waiting tasks and the set
//! of tasks that workers hold.
//!
//! The queue does no input or output. What must be durable is told to the
//! caller as a [`StoreOp`], and the outcome of persisting a submission is
//! handed to [`InMemoryQueue::push_cmd`] as a value.

use vstd::prelude::*;
use crossbeam::queue::SegQueue;
use dashmap::DashMap;
use crate::{CommandRequest, CommandRequestView, Task, TaskRunResult, TaskState, TaskView, Timestamp};
use crate::error::{CmdqError, StorageError};

verus! {

/// `crossbeam::queue::SegQueue`, the unbounded first-in-first-out queue that
/// holds the line. Nothing is claimed of it here; what it holds is named by
/// [`line_tasks`].
#[verifier::external_type_specification]
#[verifier::external_body]
#[verifier::reject_recursive_types(T)]
pub struct ExSegQueue<T>(crossbeam::queue::SegQueue<T>);

/// `dashmap::DashMap`, the concurrent hash map that holds the running tasks.
/// Nothing is claimed of it here; what it holds is named by [`held_tasks`].
#[verifier::external_type_specification]
#[verifier::external_body]
#[verifier::reject_recursive_types(K)]
#[verifier::reject_recursive_types(V)]
#[verifier::reject_recursive_types(S)]
pub struct ExDashMap<K, V, S>(dashmap::DashMap<K, V, S>);

/// The tasks that a `SegQueue` holds, the head first: the tasks pushed and
/// not yet popped, in the order of their pushes.
pub uninterp spec fn line_tasks(line: SegQueue<Task>) -> Seq<TaskView>;

/// The tasks that a `DashMap` holds, each under its key.
pub uninterp spec fn held_tasks(held: DashMap<String, Task>) -> Map<Seq<char>, TaskView>;

/// `SegQueue::new`: the new line holds nothing.
#[verifier::external_body]
fn line_new() -> (line: SegQueue<Task>)
    ensures
        line_tasks(line) == Seq::<TaskView>::empty(),
{
    SegQueue::new()
}

/// `SegQueue::push`: the task is added behind all that the line held.
#[verifier::external_body]
fn line_push(line: &mut SegQueue<Task>, task: Task)
    ensures
        line_tasks(*final(line)) == line_tasks(*old(line)).push(task@),
{
    line.push(task)
}

/// `SegQueue::pop`: the head leaves the line and is returned; an empty line
/// gives nothing and stays empty.
#[verifier::external_body]
fn line_pop(line: &mut SegQueue<Task>) -> (head: Option<Task>)
    ensures
        head is Some <==> line_tasks(*old(line)).len() > 0,
        head is Some ==> head->0@ == line_tasks(*old(line))[0],
        head is Some ==> line_tasks(*final(line)) == line_tasks(*old(line)).drop_first(),
        head is None ==> line_tasks(*final(line)) == line_tasks(*old(line)),
{
    line.pop()
}

/// `SegQueue::len`: the number of tasks in the line.
#[verifier::external_body]
fn line_len(line: &SegQueue<Task>) -> (n: usize)
    ensures
        n == line_tasks(*line).len(),
{
    line.len()
}

/// `DashMap::new`: the new set holds nothing.
#[verifier::external_body]
fn held_new() -> (held: DashMap<String, Task>)
    ensures
        held_tasks(held) == (Map::<Seq<char>, TaskView>::empty()),
{
    DashMap::new()
}

/// `DashMap::insert`: the task stands under the key afterwards, in place of
/// what stood there, which is returned.
#[verifier::external_body]
fn held_insert(held: &mut DashMap<String, Task>, key: String, task: Task) -> (before: Option<Task>)
    ensures
        held_tasks(*final(held)) == held_tasks(*old(held)).insert(key@, task@),
        before is Some <==> held_tasks(*old(held)).dom().contains(key@),
        before is Some ==> before->0@ == held_tasks(*old(held))[key@],
{
    held.insert(key, task)
}

/// `DashMap::remove`: the entry under the key leaves the set and its task is
/// returned; without such an entry the set stays as it was.
#[verifier::external_body]
fn held_remove(held: &mut DashMap<String, Task>, key: &str) -> (removed: Option<Task>)
    ensures
        held_tasks(*final(held)) == held_tasks(*old(held)).remove(key@),
        removed is Some <==> held_tasks(*old(held)).dom().contains(key@),
        removed is Some ==> removed->0@ == held_tasks(*old(held))[key@],
{
    held.remove(key).map(|entry| entry.1)
}

/// `DashMap::get`: a copy of the task under the key, if there is one.
#[verifier::external_body]
fn held_get(held: &DashMap<String, Task>, key: &str) -> (found: Option<Task>)
    ensures
        found is Some <==> held_tasks(*held).dom().contains(key@),
        found is Some ==> found->0@ == held_tasks(*held)[key@],
{
    held.get(key).map(|entry| entry.value().duplicate())
}

/// `DashMap::iter`: every entry once, as a copy of its key and its task, in an
/// order that the set does not fix.
#[verifier::external_body]
fn held_entries(held: &DashMap<String, Task>) -> (entries: Vec<(String, Task)>)
    ensures
        entries.len() == held_tasks(*held).dom().len(),
        forall|i: int|
            0 <= i < entries.len() ==> held_tasks(*held).dom().contains(#[trigger] entries[i].0@)
                && held_tasks(*held)[entries[i].0@] == entries[i].1@,
        forall|i: int, j: int|
            0 <= i < j < entries.len() ==> #[trigger] entries[i].0@ != #[trigger] entries[j].0@,
{
    held.iter().map(|entry| (entry.key().clone(), entry.value().duplicate())).collect()
}

/// `DashMap::len`: the number of entries.
#[verifier::external_body]
fn held_len(held: &DashMap<String, Task>) -> (n: usize)
    ensures
        n == held_tasks(*held).dom().len(),
{
    held.len()
}

/// `nanoid::format` with the random source `nanoid::rngs::default`: a string of
/// `size` characters, each of them one of `alphabet`.
#[verifier::external_body]
fn random_id(alphabet: &Vec<char>, size: usize) -> (id: String)
    requires
        0 < alphabet.len() <= 255,
        forall|i: int| 0 <= i < alphabet.len() ==> (alphabet[i] as u32) < 128,
        0 < size <= 4096,
    ensures
        id@.len() == size,
        forall|i: int| 0 <= i < id@.len() ==> alphabet@.contains(#[trigger] id@[i]),
{
    nanoid::format(nanoid::rngs::default, alphabet.as_slice(), size)
}

/// `SystemTime::now`, as the time since the Unix epoch; the epoch itself where
/// the clock stands before it.
#[verifier::external_body]
fn current_time() -> (now: Timestamp)
    ensures
        now.nanos < 1_000_000_000,
{
    let since_epoch = std::time::SystemTime::now()
        .duration_since(std::time::UNIX_EPOCH)
        .unwrap_or_default();
    Timestamp { secs: since_epoch.as_secs(), nanos: since_epoch.subsec_nanos() }
}

/// The number of characters of a task id.
pub const TASK_ID_LEN: usize = 10;

/// How many random ids are drawn at most to find one that no task holds.
pub const TASK_ID_ATTEMPTS: usize = 16;

/// Whether `c` may stand in a task id: a digit or one of `a` to `f`.
pub open spec fn is_task_id_char(c: char) -> bool {
    ('0' <= c && c <= '9') || ('a' <= c && c <= 'f')
}

/// Whether `id` has the form of a generated task id.
pub open spec fn is_task_id(id: Seq<char>) -> bool {
    &&& id.len() == TASK_ID_LEN
    &&& forall|i: int| 0 <= i < id.len() ==> is_task_id_char(#[trigger] id[i])
}

/// A random task id.
pub fn generate_task_id() -> (id: String)
    ensures
        is_task_id(id@),
{
    let alphabet: Vec<char> = vec![
        '1', '2', '3', '4', '5', '6', '7', '8', '9', '0', 'a', 'b', 'c', 'd', 'e', 'f',
    ];
    assert(forall|i: int| 0 <= i < alphabet.len() ==> is_task_id_char(#[trigger] alphabet[i]));
    let id = random_id(&alphabet, TASK_ID_LEN);
    assert forall|i: int| 0 <= i < id@.len() implies is_task_id_char(#[trigger] id@[i]) by {
        assert(alphabet@.contains(id@[i]));
    }
    id
}

/// What the durable store must do to follow a change of the queue. The store
/// holds the queued tasks, each under its id, and no running task.
#[derive(Debug, Clone, PartialEq, Eq)]
pub enum StoreOp {
    /// Write the task under its id, in place of what stands there.
    Put(Task),
    /// Delete what stands under the id.
    Delete(String),
}

/// What a [`StoreOp`] is in contracts.
pub ghost enum StoreOpView {
    Put(TaskView),
    Delete(Seq<char>),
}

impl View for StoreOp {
    type V = StoreOpView;

    open spec fn view(&self) -> StoreOpView {
        match self {
            StoreOp::Put(task) => StoreOpView::Put(task@),
            StoreOp::Delete(id) => StoreOpView::Delete(id@),
        }
    }
}

impl StoreOpView {
    /// The records of a store after this operation.
    pub open spec fn apply(self, records: Map<Seq<char>, TaskView>) -> Map<Seq<char>, TaskView> {
        match self {
            StoreOpView::Put(task) => records.insert(task.id, task),
            StoreOpView::Delete(id) => records.remove(id),
        }
    }
}

/// What an [`InMemoryQueue`] is in contracts: the waiting tasks, the head first,
/// and the running tasks, each under its id.
pub ghost struct QueueView {
    pub queued: Seq<TaskView>,
    pub running: Map<Seq<char>, TaskView>,
}

impl QueueView {
    pub open spec fn is_queued(self, id: Seq<char>) -> bool {
        exists|i: int| 0 <= i < self.queued.len() && (#[trigger] self.queued[i]).id == id
    }

    pub open spec fn is_running(self, id: Seq<char>) -> bool {
        self.running.dom().contains(id)
    }

    /// Whether a queued or a running task has the id.
    pub open spec fn holds(self, id: Seq<char>) -> bool {
        self.is_queued(id) || self.is_running(id)
    }

    /// No id occurs twice: not in the line, not in the running set, not in both.
    /// Every running task stands under its own id.
    pub open spec fn wf(self) -> bool {
        &&& self.running.dom().finite()
        &&& forall|k: Seq<char>| self.running.dom().contains(k) ==> (#[trigger] self.running[k]).id == k
        &&& forall|i: int, j: int|
            0 <= i < j < self.queued.len() ==> (#[trigger] self.queued[i]).id != (
            #[trigger] self.queued[j]).id
        &&& forall|i: int|
            0 <= i < self.queued.len() ==> !self.running.dom().contains((#[trigger] self.queued[i]).id)
    }

    /// The place in the line of the task with the id.
    pub open spec fn position(self, id: Seq<char>) -> int {
        choose|i: int| 0 <= i < self.queued.len() && (#[trigger] self.queued[i]).id == id
    }

    /// The state of the task with the id, if the queue holds one.
    pub open spec fn state_of(self, id: Seq<char>) -> Option<TaskState> {
        if self.is_queued(id) {
            Some(TaskState::Queued)
        } else if self.is_running(id) {
            Some(TaskState::Running)
        } else {
            None
        }
    }

    /// The task with the id, if the queue holds one.
    pub open spec fn task_of(self, id: Seq<char>) -> Option<TaskView> {
        if self.is_queued(id) {
            Some(self.queued[self.position(id)])
        } else if self.is_running(id) {
            Some(self.running[id])
        } else {
            None
        }
    }

    /// The queue after `task` has joined the line at its tail.
    pub open spec fn submit(self, task: TaskView) -> QueueView {
        QueueView { queued: self.queued.push(task), running: self.running }
    }

    /// The queue after the head of the line has been handed to a worker: the
    /// head leaves the line and runs, with one more try.
    pub open spec fn pop_next(self) -> QueueView {
        if self.queued.len() == 0 {
            self
        } else {
            QueueView {
                queued: self.queued.drop_first(),
                running: self.running.insert(self.queued[0].id, self.queued[0].dequeued()),
            }
        }
    }

    /// The queue after `result` has been reported at `now` for the running task
    /// with the id. Without such a task nothing changes.
    pub open spec fn update(self, id: Seq<char>, result: TaskRunResult, now: Timestamp) -> QueueView {
        if !self.is_running(id) {
            self
        } else {
            let task = self.running[id];
            let rest = self.running.remove(id);
            match result {
                TaskRunResult::Completed => QueueView { queued: self.queued, running: rest },
                TaskRunResult::Failed => QueueView {
                    queued: self.queued.push(task.failed_at(now)),
                    running: rest,
                },
                TaskRunResult::Skipped => QueueView { queued: self.queued.push(task), running: rest },
            }
        }
    }

    /// What the durable store holds for this queue: the queued tasks, each
    /// under its id.
    pub open spec fn persisted(self) -> Map<Seq<char>, TaskView> {
        Map::new(|id: Seq<char>| self.is_queued(id), |id: Seq<char>| self.queued[self.position(id)])
    }

    /// Whether `tasks` lists the running tasks, each of them once.
    pub open spec fn lists_running(self, tasks: Seq<TaskView>) -> bool {
        &&& tasks.len() == self.running.dom().len()
        &&& forall|i: int|
            0 <= i < tasks.len() ==> self.running.dom().contains((#[trigger] tasks[i]).id)
                && self.running[tasks[i].id] == tasks[i]
        &&& forall|i: int, j: int|
            0 <= i < j < tasks.len() ==> (#[trigger] tasks[i]).id != (#[trigger] tasks[j]).id
    }
}

/// The tasks of `records` without those whose id an earlier one has.
pub open spec fn first_of_each_id(records: Seq<TaskView>) -> Seq<TaskView>
    decreases records.len(),
{
    if records.len() == 0 {
        Seq::empty()
    } else {
        let before = first_of_each_id(records.drop_last());
        if exists|i: int| 0 <= i < before.len() && (#[trigger] before[i]).id == records.last().id {
            before
        } else {
            before.push(records.last())
        }
    }
}

/// Whether the states `filter` admit `state`. An empty filter admits every
/// state.
pub open spec fn admits(filter: Seq<TaskState>, state: TaskState) -> bool {
    filter.len() == 0 || filter.contains(state)
}

/// The queue: the line of waiting tasks and the set of running tasks.
pub struct InMemoryQueue {
    queue: SegQueue<Task>,
    running: DashMap<String, Task>,
}

impl View for InMemoryQueue {
    type V = QueueView;

    closed spec fn view(&self) -> QueueView {
        QueueView { queued: line_tasks(self.queue), running: held_tasks(self.running) }
    }
}

fn admits_state(filter: &Vec<TaskState>, state: TaskState) -> (r: bool)
    ensures
        r == admits(filter@, state),
{
    if filter.len() == 0 {
        return true;
    }
    let mut i: usize = 0;
    while i < filter.len()
        invariant
            i <= filter.len(),
            forall|j: int| 0 <= j < i ==> filter[j] != state,
        decreases filter.len() - i,
    {
        if filter[i] == state {
            return true;
        }
        i = i + 1;
    }
    false
}

/// The place in `tasks` of the task with the id.
fn find_task(tasks: &Vec<Task>, id: &String) -> (r: Option<usize>)
    ensures
        r is Some ==> r->0 < tasks.len() && tasks[r->0 as int]@.id == id@,
        r is None ==> forall|i: int| 0 <= i < tasks.len() ==> tasks[i]@.id != id@,
{
    let mut i: usize = 0;
    while i < tasks.len()
        invariant
            i <= tasks.len(),
            forall|j: int| 0 <= j < i ==> tasks[j]@.id != id@,
        decreases tasks.len() - i,
    {
        if *tasks[i].id() == *id {
            return Some(i);
        }
        i = i + 1;
    }
    None
}

impl InMemoryQueue {
    /// The invariant of the queue: see [`QueueView::wf`].
    pub open spec fn wf(&self) -> bool {
        self@.wf()
    }

    /// The queue after a start: the stored records wait in the line, in the
    /// order given, and nothing runs. A record whose id an earlier record has
    /// is left out.
    pub fn new(persisted: Vec<Task>) -> (q: InMemoryQueue)
        ensures
            q.wf(),
            q@.running == Map::<Seq<char>, TaskView>::empty(),
            q@.queued == first_of_each_id(persisted.deep_view()),
    {
        let mut queue = line_new();
        let mut loaded: Vec<Task> = Vec::new();
        let mut i: usize = 0;
        while i < persisted.len()
            invariant
                i <= persisted.len(),
                loaded.deep_view() == first_of_each_id(persisted.deep_view().take(i as int)),
                line_tasks(queue) == loaded.deep_view(),
                forall|a: int, b: int|
                    0 <= a < b < loaded.len() ==> (#[trigger] loaded[a])@.id != (#[trigger] loaded[b])@.id,
            decreases persisted.len() - i,
        {
            let task = persisted[i].duplicate();
            let ghost records = persisted.deep_view();
            let ghost before = first_of_each_id(records.take(i as int));
            proof {
                assert(records.take(i + 1).drop_last() =~= records.take(i as int));
                assert(records.take(i + 1).last() == task@);
            }
            let found = find_task(&loaded, task.id());
            if found.is_none() {
                proof {
                    assert forall|k: int| 0 <= k < before.len() implies (#[trigger] before[k]).id
                        != task@.id by {
                        assert(before[k] == loaded[k]@);
                    }
                    assert(loaded.deep_view().push(task@) =~= first_of_each_id(records.take(i + 1)));
                }
                line_push(&mut queue, task.duplicate());
                let ghost prior = loaded.deep_view();
                loaded.push(task);
                proof {
                    assert(loaded.deep_view() =~= prior.push(task@));
                }
            } else {
                proof {
                    let k = found->0 as int;
                    assert(before[k] == loaded[k]@);
                    assert(before[k].id == records.take(i + 1).last().id);
                }
            }
            i = i + 1;
        }
        proof {
            assert(persisted.deep_view().take(persisted.len() as int) =~= persisted.deep_view());
        }
        let q = InMemoryQueue { queue, running: held_new() };
        proof {
            assert forall|a: int, b: int| 0 <= a < b < q@.queued.len() implies (
            #[trigger] q@.queued[a]).id != (#[trigger] q@.queued[b]).id by {
                assert(q@.queued[a] == loaded[a]@);
                assert(q@.queued[b] == loaded[b]@);
            }
        }
        q
    }

    /// The number of waiting tasks.
    pub fn queued_len(&self) -> (n: usize)
        ensures
            n == self@.queued.len(),
    {
        line_len(&self.queue)
    }

    /// The number of running tasks.
    pub fn running_len(&self) -> (n: usize)
        ensures
            n == self@.running.dom().len(),
    {
        held_len(&self.running)
    }

    /// The waiting tasks, the head first. The line can only be read by taking
    /// each task out and putting it back, so the queue is borrowed for change;
    /// it is the same afterwards.
    pub fn queued(&mut self) -> (tasks: Vec<Task>)
        ensures
            final(self)@ == old(self)@,
            tasks.deep_view() == old(self)@.queued,
    {
        let ghost line = line_tasks(self.queue);
        let n = line_len(&self.queue);
        let mut tasks: Vec<Task> = Vec::new();
        let mut i: usize = 0;
        while i < n
            invariant
                i <= n,
                n == line.len(),
                self.running == old(self).running,
                line_tasks(self.queue) == line.subrange(i as int, n as int) + line.subrange(
                    0,
                    i as int,
                ),
                tasks.deep_view() == line.subrange(0, i as int),
            decreases n - i,
        {
            let ghost now = line_tasks(self.queue);
            let head = line_pop(&mut self.queue);
            assert(now.len() == n);
            assert(now[0] == line[i as int]);
            match head {
                Some(task) => {
                    let ghost prior = tasks.deep_view();
                    tasks.push(task.duplicate());
                    line_push(&mut self.queue, task);
                    proof {
                        assert(tasks.deep_view() =~= prior.push(line[i as int]));
                        assert(tasks.deep_view() =~= line.subrange(0, i + 1));
                        assert(now.drop_first().push(line[i as int]) =~= line.subrange(
                            i + 1,
                            n as int,
                        ) + line.subrange(0, i + 1));
                    }
                },
                None => {},
            }
            i = i + 1;
        }
        proof {
            assert(line.subrange(n as int, n as int) + line.subrange(0, n as int) =~= line);
            assert(line.subrange(0, n as int) =~= line);
        }
        tasks
    }

    /// The running tasks, each once, in no fixed order.
    pub fn running(&self) -> (tasks: Vec<Task>)
        requires
            self.wf(),
        ensures
            self@.lists_running(tasks.deep_view()),
    {
        let mut entries = held_entries(&self.running);
        let ghost listed = entries.deep_view();
        let ghost held = held_tasks(self.running);
        let n = entries.len();
        let mut tasks: Vec<Task> = Vec::new();
        let mut i: usize = 0;
        while i < n
            invariant
                i <= n,
                n == entries.len(),
                tasks.len() == i,
                forall|j: int| 0 <= j < i ==> (#[trigger] tasks[j])@ == entries[j].1@,
            decreases n - i,
        {
            tasks.push(entries[i].1.duplicate());
            i = i + 1;
        }
        proof {
            let listing = tasks.deep_view();
            assert forall|j: int| 0 <= j < listing.len() implies held.dom().contains(
                (#[trigger] listing[j]).id,
            ) && held[listing[j].id] == listing[j] by {
                assert(listing[j] == tasks[j]@);
                assert(held.dom().contains(entries[j].0@));
                assert(held[entries[j].0@].id == entries[j].0@);
            }
            assert forall|a: int, b: int| 0 <= a < b < listing.len() implies (
            #[trigger] listing[a]).id != (#[trigger] listing[b]).id by {
                assert(listing[a] == tasks[a]@);
                assert(listing[b] == tasks[b]@);
                assert(held.dom().contains(entries[a].0@));
                assert(held.dom().contains(entries[b].0@));
                assert(held[entries[a].0@].id == entries[a].0@);
                assert(held[entries[b].0@].id == entries[b].0@);
                assert(entries[a].0@ != entries[b].0@);
            }
        }
        tasks
    }

    /// A snapshot of the tasks in the states that `filter` admits: first the
    /// waiting tasks, the head first, then the running tasks in no fixed
    /// order. An empty filter admits every state.
    pub fn list(&mut self, filter: &Vec<TaskState>) -> (tasks: Vec<Task>)
        requires
            old(self).wf(),
        ensures
            final(self)@ == old(self)@,
            ({
                let waiting = if admits(filter@, TaskState::Queued) {
                    old(self)@.queued
                } else {
                    Seq::empty()
                };
                &&& waiting.len() <= tasks.len()
                &&& tasks.deep_view().take(waiting.len() as int) == waiting
                &&& admits(filter@, TaskState::Running) ==> old(self)@.lists_running(
                    tasks.deep_view().skip(waiting.len() as int),
                )
                &&& !admits(filter@, TaskState::Running) ==> tasks.len() == waiting.len()
            }),
    {
        let mut tasks: Vec<Task> = if admits_state(filter, TaskState::Queued) {
            self.queued()
        } else {
            Vec::new()
        };
        let ghost waiting = tasks.deep_view();
        if admits_state(filter, TaskState::Running) {
            let mut running = self.running();
            let ghost listing = running.deep_view();
            tasks.append(&mut running);
            proof {
                assert(tasks.deep_view() =~= waiting + listing);
                assert(tasks.deep_view().take(waiting.len() as int) =~= waiting);
                assert(tasks.deep_view().skip(waiting.len() as int) =~= listing);
            }
        } else {
            proof {
                assert(tasks.deep_view().take(waiting.len() as int) =~= waiting);
            }
        }
        tasks
    }

    /// The task with the id and its state, if the queue holds one.
    pub fn query(&mut self, id: &str) -> (found: Option<(Task, TaskState)>)
        requires
            old(self).wf(),
        ensures
            final(self)@ == old(self)@,
            found is Some <==> old(self)@.holds(id@),
            found matches Some(pair) ==> Some(pair.0@) == old(self)@.task_of(id@) && Some(pair.1)
                == old(self)@.state_of(id@),
    {
        let key = id.to_owned();
        let waiting = self.queued();
        let at = find_task(&waiting, &key);
        match at {
            Some(i) => {
                proof {
                    let q = self@;
                    assert(q.queued[i as int] == waiting[i as int]@);
                    assert(q.is_queued(id@));
                    let p = q.position(id@);
                    assert(p == i) by {
                        if p < i {
                            assert(q.queued[p].id != q.queued[i as int].id);
                        } else if p > i {
                            assert(q.queued[i as int].id != q.queued[p].id);
                        }
                    }
                }
                Some((waiting[i].duplicate(), TaskState::Queued))
            },
            None => {
                proof {
                    let q = self@;
                    assert forall|k: int| 0 <= k < q.queued.len() implies (#[trigger] q.queued[k]).id
                        != id@ by {
                        assert(q.queued[k] == waiting[k]@);
                    }
                }
                match held_get(&self.running, id) {
                    Some(task) => Some((task, TaskState::Running)),
                    None => None,
                }
            },
        }
    }

    /// Whether a queued or a running task has the id.
    pub fn holds(&mut self, id: &str) -> (r: bool)
        requires
            old(self).wf(),
        ensures
            final(self)@ == old(self)@,
            r == old(self)@.holds(id@),
    {
        self.query(id).is_some()
    }

    /// A random id that no queued or running task has, or nothing where
    /// [`TASK_ID_ATTEMPTS`] ids in a row were taken.
    pub fn fresh_task_id(&mut self) -> (id: Option<String>)
        requires
            old(self).wf(),
        ensures
            final(self)@ == old(self)@,
            id is Some ==> is_task_id(id->0@) && !old(self)@.holds(id->0@),
            id is None ==> exists|drawn: Seq<Seq<char>>|
                drawn.len() == TASK_ID_ATTEMPTS && #[trigger] all_taken(old(self)@, drawn),
    {
        let mut attempt: usize = 0;
        let ghost drawn: Seq<Seq<char>> = Seq::empty();
        while attempt < TASK_ID_ATTEMPTS
            invariant
                attempt <= TASK_ID_ATTEMPTS,
                self.wf(),
                self@ == old(self)@,
                drawn.len() == attempt,
                all_taken(old(self)@, drawn),
            decreases TASK_ID_ATTEMPTS - attempt,
        {
            let id = generate_task_id();
            if !self.holds(id.as_str()) {
                return Some(id);
            }
            proof {
                drawn = drawn.push(id@);
            }
            attempt = attempt + 1;
        }
        None
    }

    /// Takes the submission of `command` under `id`, after the caller has
    /// tried to persist the task that [`Task::new`] makes of the two, with the
    /// outcome `persisted`. Where persisting failed, or a task has the id
    /// already, the queue stays as it was. Otherwise the task joins the line at
    /// its tail.
    pub fn push_cmd(
        &mut self,
        command: &CommandRequest,
        id: String,
        persisted: Result<(), StorageError>,
    ) -> (r: Result<Task, CmdqError>)
        requires
            old(self).wf(),
        ensures
            final(self).wf(),
            match r {
                Ok(task) => {
                    &&& persisted is Ok
                    &&& !old(self)@.holds(id@)
                    &&& task@ == TaskView::submitted(id@, command@)
                    &&& final(self)@ == old(self)@.submit(task@)
                    &&& final(self)@.persisted() == old(self)@.persisted().insert(id@, task@)
                },
                Err(e) => {
                    &&& final(self)@ == old(self)@
                    &&& persisted is Err ==> e == CmdqError::Submission(persisted->Err_0)
                    &&& persisted is Ok ==> e == CmdqError::DuplicateId && old(self)@.holds(id@)
                },
            },
    {
        match persisted {
            Err(e) => Err(CmdqError::Submission(e)),
            Ok(_) => {
                if self.holds(id.as_str()) {
                    Err(CmdqError::DuplicateId)
                } else {
                    let task = Task::new(id, command.duplicate());
                    line_push(&mut self.queue, task.duplicate());
                    proof {
                        lemma_submit(old(self)@, task@);
                    }
                    Ok(task)
                }
            },
        }
    }

    /// Submits `command`: a fresh id is drawn, the task that [`Task::new`]
    /// makes of the id and the command is handed to `persist`, and only where
    /// that succeeds the task joins the line at its tail. Where `persist`
    /// fails the queue stays as it was and the failure is returned. Where no
    /// fresh id could be drawn, because each of the [`TASK_ID_ATTEMPTS`] ids
    /// drawn was taken, nothing is persisted and the submission is refused
    /// with [`CmdqError::DuplicateId`].
    pub fn submit<F: FnOnce(Task) -> Result<(), StorageError>>(
        &mut self,
        command: &CommandRequest,
        persist: F,
    ) -> (r: Result<Task, CmdqError>)
        requires
            old(self).wf(),
            forall|task: Task| call_requires(persist, (task,)),
        ensures
            final(self).wf(),
            match r {
                Ok(task) => {
                    &&& is_task_id(task@.id)
                    &&& !old(self)@.holds(task@.id)
                    &&& task@ == TaskView::submitted(task@.id, command@)
                    &&& final(self)@ == old(self)@.submit(task@)
                    &&& final(self)@.persisted() == old(self)@.persisted().insert(task@.id, task@)
                    &&& exists|stored: Task, outcome: Result<(), StorageError>|
                        {
                            &&& stored@ == task@
                            &&& outcome is Ok
                            &&& call_ensures(persist, (stored,), outcome)
                        }
                },
                Err(e) => {
                    &&& final(self)@ == old(self)@
                    &&& e is DuplicateId || e is Submission
                    &&& e is DuplicateId ==> exists|drawn: Seq<Seq<char>>|
                        drawn.len() == TASK_ID_ATTEMPTS && #[trigger] all_taken(old(self)@, drawn)
                    &&& e matches CmdqError::Submission(cause) ==> exists|
                        stored: Task,
                        outcome: Result<(), StorageError>,
                    |
                        {
                            &&& is_task_id(stored@.id)
                            &&& !old(self)@.holds(stored@.id)
                            &&& stored@ == TaskView::submitted(stored@.id, command@)
                            &&& outcome is Err
                            &&& outcome->Err_0 == cause
                            &&& call_ensures(persist, (stored,), outcome)
                        }
                },
            },
    {
        match self.fresh_task_id() {
            None => Err(CmdqError::DuplicateId),
            Some(id) => {
                let stored = Task::new(id.clone(), command.duplicate());
                let ghost handed = stored;
                let persisted = persist(stored);
                let r = self.push_cmd(command, id, persisted);
                proof {
                    assert(call_ensures(persist, (handed,), persisted));
                    assert(handed@ == TaskView::submitted(id@, command@));
                }
                r
            },
        }
    }

    /// Hands the head of the line to a worker: the task leaves the line, is
    /// counted one more try, joins the running set and is returned as it runs.
    /// An empty line gives nothing. The durable store holds no running task, so
    /// the caller deletes the record of the returned task.
    pub fn pop_next(&mut self) -> (next: Option<Task>)
        requires
            old(self).wf(),
        ensures
            final(self).wf(),
            final(self)@ == old(self)@.pop_next(),
            next is Some <==> old(self)@.queued.len() > 0,
            next is Some ==> next->0@ == old(self)@.queued[0].dequeued(),
            next is Some ==> final(self)@.running[next->0@.id] == next->0@,
            next is Some ==> final(self)@.persisted() == old(self)@.persisted().remove(next->0@.id),
    {
        match line_pop(&mut self.queue) {
            Some(head) => {
                let mut task = head;
                task.record_dequeue();
                let key = task.id().clone();
                held_insert(&mut self.running, key, task.duplicate());
                proof {
                    lemma_pop_next(old(self)@);
                }
                Some(task)
            },
            None => None,
        }
    }

    /// Reports `result` for the running task with the id, at the present time:
    /// see [`InMemoryQueue::update_at`].
    pub fn update(&mut self, id: &str, result: TaskRunResult) -> (r: Result<StoreOp, CmdqError>)
        requires
            old(self).wf(),
        ensures
            final(self).wf(),
            r is Ok <==> old(self)@.is_running(id@),
            r is Err ==> r->Err_0 == CmdqError::TaskNotFound && final(self)@ == old(self)@,
            r is Ok ==> exists|now: Timestamp| final(self)@ == old(self)@.update(id@, result, now),
            r is Ok ==> final(self)@.persisted() == r->Ok_0@.apply(old(self)@.persisted()),
    {
        let now = current_time();
        self.update_at(id, result, now)
    }

    /// Reports `result` for the running task with the id, at the time `now`.
    /// The task leaves the running set. Completed, it is gone. Failed, it
    /// rejoins the line at its tail with `now` as its last attempt. Skipped,
    /// it rejoins the line at its tail as it ran. Neither counts a try: that
    /// was done when the task was handed out. The
    /// operation returned is what the durable store must do. Where no running
    /// task has the id, the queue stays as it was.
    pub fn update_at(&mut self, id: &str, result: TaskRunResult, now: Timestamp) -> (r: Result<
        StoreOp,
        CmdqError,
    >)
        requires
            old(self).wf(),
        ensures
            final(self).wf(),
            final(self)@ == old(self)@.update(id@, result, now),
            r is Ok <==> old(self)@.is_running(id@),
            r is Err ==> r->Err_0 == CmdqError::TaskNotFound,
            r is Ok ==> r->Ok_0@ == (match result {
                TaskRunResult::Completed => StoreOpView::Delete(id@),
                TaskRunResult::Failed => StoreOpView::Put(old(self)@.running[id@].failed_at(now)),
                TaskRunResult::Skipped => StoreOpView::Put(old(self)@.running[id@]),
            }),
            r is Ok ==> final(self)@.persisted() == r->Ok_0@.apply(old(self)@.persisted()),
    {
        let removed = held_remove(&mut self.running, id);
        proof {
            lemma_update(old(self)@, id@, result, now);
        }
        match removed {
            None => {
                proof {
                    assert(held_tasks(old(self).running).remove(id@) =~= held_tasks(
                        old(self).running,
                    ));
                }
                Err(CmdqError::TaskNotFound)
            },
            Some(task) => {
                match result {
                    TaskRunResult::Completed => Ok(StoreOp::Delete(id.to_owned())),
                    TaskRunResult::Failed => {
                        let mut task = task;
                        task.record_failure(now);
                        line_push(&mut self.queue, task.duplicate());
                        Ok(StoreOp::Put(task))
                    },
                    TaskRunResult::Skipped => {
                        line_push(&mut self.queue, task.duplicate());
                        Ok(StoreOp::Put(task))
                    },
                }
            },
        }
    }
}

/// A task that joins the line under an id that the queue does not hold leaves
/// the queue well formed, and its record is the one that the store gains.
pub proof fn lemma_submit(q: QueueView, task: TaskView)
    requires
        q.wf(),
        !q.holds(task.id),
    ensures
        q.submit(task).wf(),
        q.submit(task).persisted() == q.persisted().insert(task.id, task),
{
    let after = q.submit(task);
    assert forall|i: int, j: int| 0 <= i < j < after.queued.len() implies (
    #[trigger] after.queued[i]).id != (#[trigger] after.queued[j]).id by {
        if j == q.queued.len() {
            assert(q.queued[i].id != task.id);
        } else {
            assert(q.queued[i].id != q.queued[j].id);
        }
    }
    assert forall|i: int| 0 <= i < after.queued.len() implies !after.running.dom().contains(
        (#[trigger] after.queued[i]).id,
    ) by {
        if i < q.queued.len() {
            assert(after.queued[i] == q.queued[i]);
        }
    }
    assert(after.wf());
    lemma_persisted_insert(q, task);
}

proof fn lemma_position(q: QueueView, i: int)
    requires
        q.wf(),
        0 <= i < q.queued.len(),
    ensures
        q.is_queued(q.queued[i].id),
        q.position(q.queued[i].id) == i,
{
    let id = q.queued[i].id;
    let p = q.position(id);
    if p < i {
        assert(q.queued[p].id != q.queued[i].id);
    } else if p > i {
        assert(q.queued[i].id != q.queued[p].id);
    }
}

proof fn lemma_persisted_insert(q: QueueView, task: TaskView)
    requires
        q.wf(),
        q.submit(task).wf(),
        !q.holds(task.id),
    ensures
        q.submit(task).persisted() == q.persisted().insert(task.id, task),
{
    let after = q.submit(task);
    let n = q.queued.len() as int;
    assert(after.queued[n] == task);
    assert forall|id: Seq<char>| after.is_queued(id) <==> (q.is_queued(id) || id == task.id) by {
        if after.is_queued(id) {
            let i = after.position(id);
            if i < n {
                assert(q.queued[i] == after.queued[i]);
            }
        }
        if q.is_queued(id) {
            let i = q.position(id);
            assert(after.queued[i] == q.queued[i]);
        }
    }
    assert forall|id: Seq<char>| after.is_queued(id) implies #[trigger] after.persisted()[id]
        == q.persisted().insert(task.id, task)[id] by {
        let i = after.position(id);
        if i < n {
            assert(after.queued[i] == q.queued[i]);
            assert(q.is_queued(id));
            let p = q.position(id);
            if p != i {
                if p < i {
                    assert(q.queued[p].id != q.queued[i].id);
                } else {
                    assert(q.queued[i].id != q.queued[p].id);
                }
            }
        }
    }
    assert(after.persisted() =~= q.persisted().insert(task.id, task));
}

/// Handing out the head of the line leaves the queue well formed, and the
/// record of the head is the one that the store loses.
pub proof fn lemma_pop_next(q: QueueView)
    requires
        q.wf(),
        q.queued.len() > 0,
    ensures
        q.pop_next().wf(),
        q.pop_next().persisted() == q.persisted().remove(q.queued[0].id),
        q.pop_next().running.dom().len() == q.running.dom().len() + 1,
{
    let after = q.pop_next();
    let head = q.queued[0];
    assert(after.running.dom() =~= q.running.dom().insert(head.id));
    assert forall|k: Seq<char>| after.running.dom().contains(k) implies (
    #[trigger] after.running[k]).id == k by {
        if k != head.id {
            assert(q.running.dom().contains(k));
        }
    }
    assert forall|i: int, j: int| 0 <= i < j < after.queued.len() implies (
    #[trigger] after.queued[i]).id != (#[trigger] after.queued[j]).id by {
        assert(q.queued[i + 1].id != q.queued[j + 1].id);
    }
    assert forall|i: int| 0 <= i < after.queued.len() implies !after.running.dom().contains(
        (#[trigger] after.queued[i]).id,
    ) by {
        assert(after.queued[i] == q.queued[i + 1]);
        assert(q.queued[0].id != q.queued[i + 1].id);
    }
    assert forall|id: Seq<char>| after.is_queued(id) <==> (q.is_queued(id) && id != head.id) by {
        if after.is_queued(id) {
            let i = after.position(id);
            assert(after.queued[i] == q.queued[i + 1]);
            assert(q.queued[0].id != q.queued[i + 1].id);
        }
        if q.is_queued(id) && id != head.id {
            let i = q.position(id);
            assert(after.queued[i - 1] == q.queued[i]);
        }
    }
    assert forall|id: Seq<char>| after.is_queued(id) implies #[trigger] after.persisted()[id]
        == q.persisted()[id] by {
        let i = after.position(id);
        assert(after.queued[i] == q.queued[i + 1]);
        lemma_position(q, i + 1);
    }
    assert(after.persisted() =~= q.persisted().remove(head.id));
}

/// A report for a running task leaves the queue well formed, and the store
/// follows: it keeps what it had where the task completed, and gains the
/// record of the task that rejoined the line otherwise.
pub proof fn lemma_update(q: QueueView, id: Seq<char>, result: TaskRunResult, now: Timestamp)
    requires
        q.wf(),
    ensures
        q.update(id, result, now).wf(),
        q.is_running(id) ==> q.update(id, result, now).persisted() == (match result {
            TaskRunResult::Completed => q.persisted().remove(id),
            TaskRunResult::Failed => q.persisted().insert(id, q.running[id].failed_at(now)),
            TaskRunResult::Skipped => q.persisted().insert(id, q.running[id]),
        }),
        q.is_running(id) ==> q.update(id, result, now).running.dom().len() + 1
            == q.running.dom().len(),
{
    if q.is_running(id) {
        let task = q.running[id];
        let rest = QueueView { queued: q.queued, running: q.running.remove(id) };
        assert(rest.running.dom() =~= q.running.dom().remove(id));
        assert(rest.wf());
        assert(!rest.is_queued(id)) by {
            if rest.is_queued(id) {
                let i = rest.position(id);
                assert(!q.running.dom().contains(q.queued[i].id));
            }
        }
        assert(rest.persisted() =~= q.persisted());
        match result {
            TaskRunResult::Completed => {
                assert(q.persisted().remove(id) =~= q.persisted());
            },
            TaskRunResult::Failed => {
                lemma_submit(rest, task.failed_at(now));
            },
            TaskRunResult::Skipped => {
                lemma_submit(rest, task);
            },
        }
    }
}

/// A task is in one state at most: never both queued and running. The queue
/// tells a state for an id exactly where it holds a task with the id.
pub proof fn lemma_one_state(q: QueueView, id: Seq<char>)
    requires
        q.wf(),
    ensures
        !(q.is_queued(id) && q.is_running(id)),
        q.state_of(id) is Some <==> q.holds(id),
        q.task_of(id) is Some <==> q.holds(id),
        q.holds(id) ==> q.task_of(id)->0.id == id,
{
    if q.is_queued(id) {
        let i = q.position(id);
        assert(!q.running.dom().contains(q.queued[i].id));
    }
}

/// A task stays in the queue until it is reported completed: a submission and
/// a hand-out keep every task, and a report keeps every task but the one
/// reported completed, which the queue holds no longer.
pub proof fn lemma_held_until_completed(
    q: QueueView,
    id: Seq<char>,
    task: TaskView,
    reported: Seq<char>,
    result: TaskRunResult,
    now: Timestamp,
)
    requires
        q.wf(),
        q.holds(id),
    ensures
        q.submit(task).holds(id),
        q.pop_next().holds(id),
        (reported != id || result != TaskRunResult::Completed || !q.is_running(id)) ==> q.update(
            reported,
            result,
            now,
        ).holds(id),
        q.is_running(id) ==> !q.update(id, TaskRunResult::Completed, now).holds(id),
{
    let submitted = q.submit(task);
    let popped = q.pop_next();
    let updated = q.update(reported, result, now);
    if q.is_queued(id) {
        let i = q.position(id);
        assert(submitted.queued[i] == q.queued[i]);
        if i > 0 {
            assert(popped.queued[i - 1] == q.queued[i]);
        }
        if q.is_running(reported) {
            assert(updated.queued[i] == q.queued[i]);
        }
    } else {
        if q.is_running(reported) && reported == id {
            if result != TaskRunResult::Completed {
                assert(updated.queued[q.queued.len() as int].id == id);
            }
        }
    }
    if q.is_running(id) {
        lemma_completed_is_gone(q, id, now);
    }
}

/// A task submitted under an id that the queue does not hold waits at the tail
/// of the line afterwards, with the command it was submitted with and no
/// tries.
pub proof fn lemma_submitted_is_listed(q: QueueView, id: Seq<char>, command: CommandRequestView)
    requires
        q.wf(),
        !q.holds(id),
    ensures
        ({
            let after = q.submit(TaskView::submitted(id, command));
            &&& after.wf()
            &&& after.queued.len() == q.queued.len() + 1
            &&& after.queued.last().id == id
            &&& after.queued.last().command == command
            &&& after.queued.last().tries == 0
            &&& after.state_of(id) == Some(TaskState::Queued)
            &&& after.task_of(id) == Some(TaskView::submitted(id, command))
            &&& after.running == q.running
        }),
{
    let task = TaskView::submitted(id, command);
    let after = q.submit(task);
    lemma_submit(q, task);
    assert(after.queued[q.queued.len() as int] == task);
    lemma_position(after, q.queued.len() as int);
}

/// Handing out works first in, first out: an empty line changes nothing, and
/// otherwise the task that has waited longest leaves the line and runs, with
/// one more try.
pub proof fn lemma_pop_next_moves_head(q: QueueView)
    requires
        q.wf(),
    ensures
        q.queued.len() == 0 ==> q.pop_next() == q,
        q.queued.len() > 0 ==> ({
            let head = q.queued[0];
            let after = q.pop_next();
            &&& after.wf()
            &&& after.queued == q.queued.skip(1)
            &&& !after.is_queued(head.id)
            &&& after.state_of(head.id) == Some(TaskState::Running)
            &&& after.task_of(head.id) == Some(head.dequeued())
            &&& after.running.dom().len() == q.running.dom().len() + 1
        }),
{
    if q.queued.len() > 0 {
        let head = q.queued[0];
        let after = q.pop_next();
        lemma_pop_next(q);
        assert(q.queued.drop_first() =~= q.queued.skip(1));
        lemma_one_state(after, head.id);
    }
}

/// A task reported completed is gone from the line, from the running set and
/// from the durable store, and a query for its id finds nothing.
pub proof fn lemma_completed_is_gone(q: QueueView, id: Seq<char>, now: Timestamp)
    requires
        q.wf(),
        q.is_running(id),
    ensures
        ({
            let after = q.update(id, TaskRunResult::Completed, now);
            &&& after.wf()
            &&& !after.is_queued(id)
            &&& !after.is_running(id)
            &&& after.task_of(id) is None
            &&& after.state_of(id) is None
            &&& !after.persisted().dom().contains(id)
            &&& after.queued == q.queued
        }),
{
    let after = q.update(id, TaskRunResult::Completed, now);
    lemma_update(q, id, TaskRunResult::Completed, now);
    if after.is_queued(id) {
        let i = after.position(id);
        assert(!q.running.dom().contains(q.queued[i].id));
    }
}

/// A task reported failed rejoins the line at its tail with its failure
/// booked: the line grows by one task and the running set shrinks by one.
pub proof fn lemma_failed_is_requeued(q: QueueView, id: Seq<char>, now: Timestamp)
    requires
        q.wf(),
        q.is_running(id),
    ensures
        ({
            let after = q.update(id, TaskRunResult::Failed, now);
            &&& after.wf()
            &&& after.queued == q.queued.push(q.running[id].failed_at(now))
            &&& after.queued.len() == q.queued.len() + 1
            &&& after.queued.last().id == id
            &&& after.queued.last().tries == q.running[id].tries
            &&& after.queued.last().last_attempt == Some(now)
            &&& after.running.dom().len() + 1 == q.running.dom().len()
            &&& after.state_of(id) == Some(TaskState::Queued)
        }),
{
    let after = q.update(id, TaskRunResult::Failed, now);
    lemma_update(q, id, TaskRunResult::Failed, now);
    assert(after.queued[q.queued.len() as int].id == id);
}

/// A try is counted once for each hand-out, and nowhere else: a task that is
/// handed out and then reported failed or skipped rejoins the line with one
/// try more than it had, and a submission starts at none.
pub proof fn lemma_tries_count_hand_outs(q: QueueView, result: TaskRunResult, now: Timestamp)
    requires
        q.wf(),
        q.queued.len() > 0,
        result != TaskRunResult::Completed,
    ensures
        ({
            let head = q.queued[0];
            let after = q.pop_next().update(head.id, result, now);
            &&& q.pop_next().running[head.id].tries == head.dequeued().tries
            &&& head.tries < usize::MAX ==> head.dequeued().tries == head.tries + 1
            &&& after.wf()
            &&& after.queued.last().id == head.id
            &&& after.queued.last().tries == head.dequeued().tries
            &&& after.queued.last().command == head.command
            &&& result == TaskRunResult::Failed ==> after.queued.last().last_attempt == Some(now)
            &&& result == TaskRunResult::Skipped ==> after.queued.last().last_attempt
                == head.last_attempt
        }),
{
    let head = q.queued[0];
    let popped = q.pop_next();
    lemma_pop_next(q);
    lemma_update(popped, head.id, result, now);
}

/// A task reported skipped rejoins the line at its tail as it ran.
pub proof fn lemma_skipped_is_requeued(q: QueueView, id: Seq<char>, now: Timestamp)
    requires
        q.wf(),
        q.is_running(id),
    ensures
        ({
            let after = q.update(id, TaskRunResult::Skipped, now);
            &&& after.wf()
            &&& after.queued == q.queued.push(q.running[id])
            &&& after.running.dom().len() + 1 == q.running.dom().len()
            &&& after.state_of(id) == Some(TaskState::Queued)
        }),
{
    let after = q.update(id, TaskRunResult::Skipped, now);
    lemma_update(q, id, TaskRunResult::Skipped, now);
    assert(after.queued[q.queued.len() as int].id == id);
}

/// Whether `records` lists what a store holds: every record of the store once,
/// and nothing else.
pub open spec fn lists_store(records: Seq<TaskView>, store: Map<Seq<char>, TaskView>) -> bool {
    &&& forall|i: int|
        0 <= i < records.len() ==> store.dom().contains((#[trigger] records[i]).id)
            && store[records[i].id] == records[i]
    &&& forall|i: int, j: int|
        0 <= i < j < records.len() ==> (#[trigger] records[i]).id != (#[trigger] records[j]).id
    &&& forall|id: Seq<char>|
        store.dom().contains(id) ==> exists|i: int|
            0 <= i < records.len() && (#[trigger] records[i]).id == id
}

/// The queue that [`InMemoryQueue::new`] makes of stored records.
pub open spec fn restarted(records: Seq<TaskView>) -> QueueView {
    QueueView { queued: first_of_each_id(records), running: Map::empty() }
}

/// Records with ids that differ are all loaded, in their order.
pub proof fn lemma_first_of_each_id_keeps_distinct(records: Seq<TaskView>)
    requires
        forall|i: int, j: int|
            0 <= i < j < records.len() ==> (#[trigger] records[i]).id != (#[trigger] records[j]).id,
    ensures
        first_of_each_id(records) == records,
    decreases records.len(),
{
    if records.len() > 0 {
        let init = records.drop_last();
        assert forall|i: int, j: int| 0 <= i < j < init.len() implies (#[trigger] init[i]).id != (
        #[trigger] init[j]).id by {
            assert(init[i] == records[i]);
            assert(init[j] == records[j]);
        }
        lemma_first_of_each_id_keeps_distinct(init);
        assert forall|i: int| 0 <= i < init.len() implies (#[trigger] init[i]).id
            != records.last().id by {
            assert(init[i] == records[i]);
            assert(records[i].id != records[records.len() - 1].id);
        }
        assert(init.push(records.last()) =~= records);
    } else {
        assert(records =~= Seq::empty());
    }
}

/// A restart recovers the queued tasks and nothing else: from any listing of
/// the store of a queue, the new queue holds as many waiting tasks as the old
/// one, every task that waited waits again as the same task, and no task that
/// ran is held.
pub proof fn lemma_restart_recovers_queued(q: QueueView, records: Seq<TaskView>)
    requires
        q.wf(),
        lists_store(records, q.persisted()),
    ensures
        restarted(records).wf(),
        restarted(records).queued == records,
        restarted(records).queued.len() == q.queued.len(),
        restarted(records).running.dom().len() == 0,
        forall|id: Seq<char>|
            q.is_queued(id) ==> restarted(records).is_queued(id) && #[trigger] restarted(
                records,
            ).task_of(id) == q.task_of(id),
        forall|id: Seq<char>| q.is_running(id) ==> !(#[trigger] restarted(records).holds(id)),
{
    let after = restarted(records);
    lemma_first_of_each_id_keeps_distinct(records);
    let store = q.persisted();
    let stored_ids = records.map_values(|t: TaskView| t.id);
    let queued_ids = q.queued.map_values(|t: TaskView| t.id);
    assert(stored_ids.no_duplicates());
    assert(queued_ids.no_duplicates());
    assert(stored_ids.to_set() =~= queued_ids.to_set()) by {
        assert forall|id: Seq<char>| stored_ids.to_set().contains(id) implies queued_ids.to_set().contains(
            id,
        ) by {
            let i = choose|i: int| 0 <= i < stored_ids.len() && stored_ids[i] == id;
            assert(store.dom().contains(records[i].id));
            let p = q.position(id);
            assert(queued_ids[p] == id);
        }
        assert forall|id: Seq<char>| queued_ids.to_set().contains(id) implies stored_ids.to_set().contains(
            id,
        ) by {
            let p = choose|p: int| 0 <= p < queued_ids.len() && queued_ids[p] == id;
            assert(q.queued[p].id == id);
            assert(store.dom().contains(id));
            let i = choose|i: int| 0 <= i < records.len() && (#[trigger] records[i]).id == id;
            assert(stored_ids[i] == id);
        }
    }
    stored_ids.unique_seq_to_set();
    queued_ids.unique_seq_to_set();
    assert forall|id: Seq<char>| q.is_queued(id) implies after.is_queued(id) && #[trigger] after.task_of(
        id,
    ) == q.task_of(id) by {
        assert(store.dom().contains(id));
        let i = choose|i: int| 0 <= i < records.len() && (#[trigger] records[i]).id == id;
        assert(after.queued[i].id == id);
        lemma_position(after, i);
    }
    assert forall|id: Seq<char>| q.is_running(id) implies !(#[trigger] after.holds(id)) by {
        if after.is_queued(id) {
            let i = after.position(id);
            assert(store.dom().contains(records[i].id));
            lemma_one_state(q, id);
        }
    }
}

/// Whether each of the ids drawn has the form of a task id and is the id of
/// a queued or a running task.
pub open spec fn all_taken(q: QueueView, drawn: Seq<Seq<char>>) -> bool {
    forall|i: int| 0 <= i < drawn.len() ==> is_task_id(#[trigger] drawn[i]) && q.holds(drawn[i])
}

} // verus!
