//! Task registry: concurrency control and task lifecycle.
//!
//! A pure data structure. Callers own task execution; the registry tracks
//! state and queues the notifications that its transitions owe to watchers
//! as [`Effect`]s, which the caller delivers.

use vstd::prelude::*;
use crate::text::{clone_opt, opt_view, owned, str_eq};
use crate::clock::now_unix;

verus! {

/// Lifecycle status of a task.
#[derive(Clone, Copy, Debug, PartialEq, Eq, Structural)]
pub enum TaskStatus {
    /// Waiting for a concurrency slot.
    Queued,
    /// Running.
    InProgress,
    /// Waiting for a user reply.
    Blocked,
    /// Finished successfully.
    Finished,
    /// Failed or killed.
    Failed,
}

/// The wire name of a status.
pub open spec fn status_name(s: TaskStatus) -> Seq<char> {
    match s {
        TaskStatus::Queued => "queued"@,
        TaskStatus::InProgress => "in_progress"@,
        TaskStatus::Blocked => "blocked"@,
        TaskStatus::Finished => "finished"@,
        TaskStatus::Failed => "failed"@,
    }
}

/// The status named by `s`, if any.
pub open spec fn status_of_name(s: Seq<char>) -> Option<TaskStatus> {
    if s == "queued"@ {
        Some(TaskStatus::Queued)
    } else if s == "in_progress"@ {
        Some(TaskStatus::InProgress)
    } else if s == "blocked"@ {
        Some(TaskStatus::Blocked)
    } else if s == "finished"@ {
        Some(TaskStatus::Finished)
    } else if s == "failed"@ {
        Some(TaskStatus::Failed)
    } else {
        None
    }
}

impl TaskStatus {
    /// The wire name of this status (`queued`, `in_progress`, ...).
    pub fn as_str(&self) -> (r: &'static str)
        ensures
            r@ == status_name(*self),
    {
        match self {
            TaskStatus::Queued => "queued",
            TaskStatus::InProgress => "in_progress",
            TaskStatus::Blocked => "blocked",
            TaskStatus::Finished => "finished",
            TaskStatus::Failed => "failed",
        }
    }
}

/// Parse a status filter string.
pub fn parse_task_status(s: &str) -> (r: Option<TaskStatus>)
    ensures
        r == status_of_name(s@),
{
    if str_eq(s, "queued") {
        Some(TaskStatus::Queued)
    } else if str_eq(s, "in_progress") {
        Some(TaskStatus::InProgress)
    } else if str_eq(s, "blocked") {
        Some(TaskStatus::Blocked)
    } else if str_eq(s, "finished") {
        Some(TaskStatus::Finished)
    } else if str_eq(s, "failed") {
        Some(TaskStatus::Failed)
    } else {
        None
    }
}

/// Every status is parsed back from its own wire name.
pub proof fn law_status_name_roundtrip(s: TaskStatus)
    ensures
        status_of_name(status_name(s)) == Some(s),
{
    reveal_strlit("queued");
    reveal_strlit("in_progress");
    reveal_strlit("blocked");
    reveal_strlit("finished");
    reveal_strlit("failed");
    assert("queued"@.len() == 6 && "in_progress"@.len() == 11 && "blocked"@.len() == 7);
    assert("finished"@.len() == 8 && "failed"@.len() == 6);
    assert("queued"@[0] != "failed"@[0]);
}

/// A task tracked by the registry.
pub struct Task {
    /// Identifier given by the registry.
    pub id: u64,
    /// The task that started this one, if any.
    pub parent_id: Option<u64>,
    /// Chat session executing the task, if any.
    pub session_id: Option<u64>,
    /// Agent the task is delegated to.
    pub agent: String,
    /// Current status.
    pub status: TaskStatus,
    /// Agent (or user) that created the task.
    pub created_by: String,
    /// Instruction given to the agent.
    pub description: String,
    /// Final response, once finished.
    pub result: Option<String>,
    /// Failure message, once failed.
    pub error: Option<String>,
    /// Question awaiting a user reply, while blocked.
    pub blocked_on: Option<String>,
    /// Prompt tokens spent so far.
    pub prompt_tokens: u64,
    /// Completion tokens spent so far.
    pub completion_tokens: u64,
    /// Creation time, in seconds since the Unix epoch.
    pub created_at: u64,
}

/// A snapshot of a task for subscribers.
pub struct TaskInfo {
    pub id: u64,
    pub parent_id: Option<u64>,
    pub agent: String,
    pub status: TaskStatus,
    pub description: String,
    pub result: Option<String>,
    pub error: Option<String>,
    pub created_by: String,
    pub prompt_tokens: u64,
    pub completion_tokens: u64,
    /// Seconds since the task was created.
    pub alive_secs: u64,
    /// The pending question, while blocked.
    pub blocked_on: Option<String>,
}

/// A task lifecycle event broadcast to subscribers.
pub enum TaskEvent {
    /// A task was created.
    Created(TaskInfo),
    /// A task changed status.
    StatusChanged { task_id: u64, status: TaskStatus, blocked_on: Option<String> },
    /// A task finished or failed.
    Completed { task_id: u64, status: TaskStatus, result: Option<String>, error: Option<String> },
}

/// A notification the registry owes to the outside world, in the order owed.
pub enum Effect {
    /// Broadcast an event to all subscribers.
    Broadcast(TaskEvent),
    /// Publish a task's new status to its status watchers.
    Status { task_id: u64, status: TaskStatus },
    /// Deliver a user reply to a task blocked on a question.
    Reply { task_id: u64, response: String },
}

/// `info` is the snapshot of `t` taken at time `now`.
pub open spec fn info_of(info: TaskInfo, t: Task, now: u64) -> bool {
    &&& info.id == t.id
    &&& info.parent_id == t.parent_id
    &&& info.agent@ == t.agent@
    &&& info.status == t.status
    &&& info.description@ == t.description@
    &&& opt_view(info.result) == opt_view(t.result)
    &&& opt_view(info.error) == opt_view(t.error)
    &&& info.created_by@ == t.created_by@
    &&& info.prompt_tokens == t.prompt_tokens
    &&& info.completion_tokens == t.completion_tokens
    &&& info.alive_secs == (if now >= t.created_at { (now - t.created_at) as u64 } else { 0u64 })
    &&& opt_view(info.blocked_on) == opt_view(t.blocked_on)
}

/// Build the snapshot of `task` at the current time.
pub fn task_info(task: &Task) -> (info: TaskInfo)
    ensures
        exists|now: u64| info_of(info, *task, now),
{
    task_info_at(task, now_unix())
}

/// Build the snapshot of `task` at time `now`.
pub fn task_info_at(task: &Task, now: u64) -> (info: TaskInfo)
    ensures
        info_of(info, *task, now),
{
    TaskInfo {
        id: task.id,
        parent_id: task.parent_id,
        agent: task.agent.clone(),
        status: task.status,
        description: task.description.clone(),
        result: clone_opt(&task.result),
        error: clone_opt(&task.error),
        created_by: task.created_by.clone(),
        prompt_tokens: task.prompt_tokens,
        completion_tokens: task.completion_tokens,
        alive_secs: now.saturating_sub(task.created_at),
        blocked_on: clone_opt(&task.blocked_on),
    }
}

// ── The ordered task sequence ──────────────────────────────────────────

/// Task ids strictly increase along the sequence.
pub open spec fn ids_increasing(s: Seq<Task>) -> bool {
    forall|i: int, j: int| 0 <= i < j < s.len() ==> s[i].id < s[j].id
}

/// Some task in `s` has id `id`.
pub open spec fn contains_id(s: Seq<Task>, id: u64) -> bool {
    exists|i: int| 0 <= i < s.len() && s[i].id == id
}

/// The position of the task with id `id` in `s` (-1 if none).
pub open spec fn pos_of(s: Seq<Task>, id: u64) -> int {
    if contains_id(s, id) {
        choose|i: int| 0 <= i < s.len() && s[i].id == id
    } else {
        -1
    }
}

/// The task with id `id`, if any.
pub open spec fn task_of(s: Seq<Task>, id: u64) -> Option<Task> {
    if contains_id(s, id) {
        Some(s[pos_of(s, id)])
    } else {
        None
    }
}

/// With increasing ids, the task with a given id sits at one position only.
pub proof fn lemma_pos_of(s: Seq<Task>, id: u64, i: int)
    requires
        ids_increasing(s),
        0 <= i < s.len(),
        s[i].id == id,
    ensures
        contains_id(s, id),
        pos_of(s, id) == i,
        task_of(s, id) == Some(s[i]),
{
    let j = pos_of(s, id);
    assert(0 <= j < s.len() && s[j].id == id);
    if j < i {
        assert(s[j].id < s[i].id);
    } else if i < j {
        assert(s[i].id < s[j].id);
    }
}

/// Replace the task with id `id` by `t` (no change if absent).
pub open spec fn replace_task(s: Seq<Task>, id: u64, t: Task) -> Seq<Task> {
    if contains_id(s, id) {
        s.update(pos_of(s, id), t)
    } else {
        s
    }
}

/// `s` with the status of task `id` set to `st`.
pub open spec fn with_status(s: Seq<Task>, id: u64, st: TaskStatus) -> Seq<Task> {
    match task_of(s, id) {
        Some(t) => replace_task(s, id, Task { status: st, ..t }),
        None => s,
    }
}

/// Number of tasks in `s` with status `st`.
pub open spec fn count_status(s: Seq<Task>, st: TaskStatus) -> nat
    decreases s.len(),
{
    if s.len() == 0 {
        0
    } else {
        count_status(s.drop_last(), st) + (if s.last().status == st { 1nat } else { 0nat })
    }
}

/// `effs` are the two notifications owed when task `t` takes its current status:
/// its status watchers, then a `StatusChanged` broadcast.
pub open spec fn status_notifications(effs: Seq<Effect>, t: Task) -> bool {
    &&& effs.len() == 2
    &&& effs[0] == (Effect::Status { task_id: t.id, status: t.status })
    &&& match effs[1] {
        Effect::Broadcast(TaskEvent::StatusChanged { task_id, status, blocked_on }) =>
            task_id == t.id && status == t.status && opt_view(blocked_on) == opt_view(t.blocked_on),
        _ => false,
    }
}

/// `after` extends `before` by exactly the elements satisfying `tail`.
pub open spec fn appended(before: Seq<Effect>, after: Seq<Effect>, n: nat) -> bool {
    after.len() == before.len() + n && after.subrange(0, before.len() as int) == before
}

/// `s` with task `t` taken out of position `i` and put back modified.
proof fn lemma_remove_insert(s: Seq<Task>, i: int, t: Task)
    requires
        0 <= i < s.len(),
    ensures
        s.remove(i).insert(i, t) == s.update(i, t),
{
    assert(s.remove(i).insert(i, t) =~= s.update(i, t));
}

/// The status count of a sequence after one task's status changes.
pub proof fn lemma_count_update(s: Seq<Task>, i: int, t: Task, st: TaskStatus)
    requires
        0 <= i < s.len(),
    ensures
        count_status(s.update(i, t), st) + (if s[i].status == st { 1int } else { 0int })
            == count_status(s, st) + (if t.status == st { 1int } else { 0int }),
    decreases s.len(),
{
    if i == s.len() - 1 {
        assert(s.update(i, t).drop_last() =~= s.drop_last());
    } else {
        lemma_count_update(s.drop_last(), i, t, st);
        assert(s.update(i, t).drop_last() =~= s.drop_last().update(i, t));
    }
}


/// Whether task `t` passes the `list` filters.
pub open spec fn passes_filter(
    t: Task,
    agent: Option<Seq<char>>,
    status: Option<TaskStatus>,
    parent_id: Option<Option<u64>>,
) -> bool {
    &&& (match agent { Some(a) => t.agent@ == a, None => true })
    &&& (match status { Some(s) => t.status == s, None => true })
    &&& (match parent_id { Some(p) => t.parent_id == p, None => true })
}

/// The most recent tasks of `s` that pass the filters, newest first, at most `limit`.
pub open spec fn select_recent(
    s: Seq<Task>,
    agent: Option<Seq<char>>,
    status: Option<TaskStatus>,
    parent_id: Option<Option<u64>>,
    limit: nat,
) -> Seq<Task>
    decreases s.len(),
{
    if s.len() == 0 || limit == 0 {
        Seq::empty()
    } else if passes_filter(s.last(), agent, status, parent_id) {
        seq![s.last()] + select_recent(s.drop_last(), agent, status, parent_id, (limit - 1) as nat)
    } else {
        select_recent(s.drop_last(), agent, status, parent_id, limit)
    }
}

/// The tasks of `s` whose parent is `parent`, in creation order.
pub open spec fn children_of(s: Seq<Task>, parent: u64) -> Seq<Task>
    decreases s.len(),
{
    if s.len() == 0 {
        Seq::empty()
    } else if s.last().parent_id == Some(parent) {
        children_of(s.drop_last(), parent).push(s.last())
    } else {
        children_of(s.drop_last(), parent)
    }
}

/// `i` is the first position in `s` holding a task with status `st`.
pub open spec fn first_with_status(s: Seq<Task>, st: TaskStatus, i: int) -> bool {
    &&& 0 <= i < s.len()
    &&& s[i].status == st
    &&& forall|j: int| 0 <= j < i ==> s[j].status != st
}

/// `s` after completing task `id` with `result` and `error`.
pub open spec fn completed(s: Seq<Task>, id: u64, result: Option<String>, error: Option<String>) -> Seq<Task> {
    match task_of(s, id) {
        Some(t) => replace_task(
            s,
            id,
            Task { result, error, status: completion_status(error), ..t },
        ),
        None => s,
    }
}

/// The status a completion with `error` ends in.
pub open spec fn completion_status(error: Option<String>) -> TaskStatus {
    if error is Some {
        TaskStatus::Failed
    } else {
        TaskStatus::Finished
    }
}

/// `s` after task `id` blocks on `question`.
pub open spec fn blocked(s: Seq<Task>, id: u64, question: String) -> Seq<Task> {
    match task_of(s, id) {
        Some(t) => replace_task(s, id, Task { blocked_on: Some(question), status: TaskStatus::Blocked, ..t }),
        None => s,
    }
}

/// `s` after the blocked task `id` is approved.
pub open spec fn approved(s: Seq<Task>, id: u64) -> Seq<Task> {
    match task_of(s, id) {
        Some(t) => replace_task(s, id, Task { blocked_on: None, status: TaskStatus::InProgress, ..t }),
        None => s,
    }
}

/// Whether task `id` exists and is blocked.
pub open spec fn is_blocked(s: Seq<Task>, id: u64) -> bool {
    match task_of(s, id) {
        Some(t) => t.status == TaskStatus::Blocked,
        None => false,
    }
}

/// The error message a killed task carries.
pub open spec fn killed_message() -> Seq<char> {
    "killed by user"@
}


/// `e` broadcasts that task `id` completed with `status`, `result` and `error`.
pub open spec fn completion_event(
    e: Effect,
    id: u64,
    status: TaskStatus,
    result: Option<Seq<char>>,
    error: Option<Seq<char>>,
) -> bool {
    match e {
        Effect::Broadcast(TaskEvent::Completed { task_id, status: st, result: r, error: er }) =>
            task_id == id && st == status && opt_view(r) == result && opt_view(er) == error,
        _ => false,
    }
}

/// The effects appended after position `n`.
pub open spec fn tail_from(effs: Seq<Effect>, n: int) -> Seq<Effect> {
    effs.subrange(n, effs.len() as int)
}

/// In-memory task registry with concurrency control.
pub struct TaskRegistry {
    tasks: Vec<Task>,
    next_id: u64,
    max_concurrent: usize,
    viewable_window: usize,
    effects: Vec<Effect>,
}

impl TaskRegistry {
    /// The tasks, in creation order (increasing id).
    pub closed spec fn tasks(&self) -> Seq<Task> {
        self.tasks@
    }

    /// The id the next created task receives.
    pub closed spec fn next_id(&self) -> u64 {
        self.next_id
    }

    /// Notifications owed and not yet taken.
    pub closed spec fn effects(&self) -> Seq<Effect> {
        self.effects@
    }

    /// The registry's invariant: ids increase in creation order and all lie
    /// below the next id to hand out.
    pub open spec fn wf(&self) -> bool {
        &&& ids_increasing(self.tasks())
        &&& forall|i: int| 0 <= i < self.tasks().len() ==> self.tasks()[i].id < self.next_id()
        &&& self.next_id() >= 1
    }

    /// Number of in-progress tasks.
    pub open spec fn active(&self) -> nat {
        count_status(self.tasks(), TaskStatus::InProgress)
    }

    /// Maximum number of concurrently in-progress tasks.
    pub closed spec fn limit(&self) -> usize {
        self.max_concurrent
    }

    /// Maximum number of tasks returned by `list`.
    pub closed spec fn window(&self) -> usize {
        self.viewable_window
    }

    /// `self` and `other` have the same limits.
    pub open spec fn same_config(&self, other: &Self) -> bool {
        &&& self.limit() == other.limit()
        &&& self.window() == other.window()
    }

    /// Maximum number of concurrently in-progress tasks.
    pub fn max_concurrent(&self) -> (r: usize)
        ensures
            r == self.limit(),
    {
        self.max_concurrent
    }

    /// Maximum number of tasks returned by `list`.
    pub fn viewable_window(&self) -> (r: usize)
        ensures
            r == self.window(),
    {
        self.viewable_window
    }

    /// Create a new registry with the given limits.
    pub fn new(max_concurrent: usize, viewable_window: usize) -> (r: Self)
        ensures
            r.wf(),
            r.tasks() == Seq::<Task>::empty(),
            r.next_id() == 1,
            r.effects() == Seq::<Effect>::empty(),
            r.limit() == max_concurrent,
            r.window() == viewable_window,
    {
        TaskRegistry {
            tasks: Vec::new(),
            next_id: 1,
            max_concurrent,
            viewable_window,
            effects: Vec::new(),
        }
    }

    /// Position of the task with id `id`.
    fn find(&self, id: u64) -> (r: Option<usize>)
        requires
            self.wf(),
        ensures
            match r {
                Some(i) => i < self.tasks().len() && self.tasks()[i as int].id == id
                    && pos_of(self.tasks(), id) == i as int && contains_id(self.tasks(), id),
                None => !contains_id(self.tasks(), id),
            },
    {
        let mut i: usize = 0;
        while i < self.tasks.len()
            invariant
                i <= self.tasks@.len(),
                ids_increasing(self.tasks@),
                forall|j: int| 0 <= j < i ==> self.tasks@[j].id != id,
            decreases self.tasks@.len() - i,
        {
            if self.tasks[i].id == id {
                proof {
                    lemma_pos_of(self.tasks@, id, i as int);
                }
                return Some(i);
            }
            i = i + 1;
        }
        None
    }

    /// Take all notifications owed so far, oldest first.
    pub fn take_effects(&mut self) -> (r: Vec<Effect>)
        ensures
            r@ == old(self).effects(),
            final(self).effects() == Seq::<Effect>::empty(),
            final(self).tasks() == old(self).tasks(),
            final(self).next_id() == old(self).next_id(),
            final(self).same_config(old(self)),
    {
        let mut out: Vec<Effect> = Vec::new();
        std::mem::swap(&mut out, &mut self.effects);
        out
    }

    /// Create a task and insert it into the registry. Returns the task id.
    pub fn create(
        &mut self,
        agent: String,
        description: String,
        created_by: String,
        parent_id: Option<u64>,
        status: TaskStatus,
    ) -> (id: u64)
        requires
            old(self).wf(),
            old(self).next_id() < u64::MAX,
        ensures
            final(self).wf(),
            id == old(self).next_id(),
            !contains_id(old(self).tasks(), id),
            final(self).next_id() == id + 1,
            final(self).same_config(old(self)),
            final(self).tasks().len() == old(self).tasks().len() + 1,
            final(self).tasks().drop_last() == old(self).tasks(),
            ({
                let t = final(self).tasks().last();
                &&& t.id == id
                &&& t.parent_id == parent_id
                &&& t.session_id == None::<u64>
                &&& t.agent@ == agent@
                &&& t.status == status
                &&& t.created_by@ == created_by@
                &&& t.description@ == description@
                &&& t.result == None::<String>
                &&& t.error == None::<String>
                &&& t.blocked_on == None::<String>
                &&& t.prompt_tokens == 0
                &&& t.completion_tokens == 0
                &&& appended(old(self).effects(), final(self).effects(), 1)
                &&& match final(self).effects().last() {
                    Effect::Broadcast(TaskEvent::Created(info)) => info_of(info, t, t.created_at),
                    _ => false,
                }
            }),
    {
        let id = self.next_id;
        self.next_id = self.next_id + 1;
        let task = Task {
            id,
            parent_id,
            session_id: None,
            agent,
            status,
            created_by,
            description,
            result: None,
            error: None,
            blocked_on: None,
            prompt_tokens: 0,
            completion_tokens: 0,
            created_at: now_unix(),
        };
        let info = task_info_at(&task, task.created_at);
        let ghost old_tasks = self.tasks@;
        self.tasks.push(task);
        self.effects.push(Effect::Broadcast(TaskEvent::Created(info)));
        proof {
            assert(self.tasks@.drop_last() =~= old_tasks);
            assert(self.effects@.subrange(0, old(self).effects@.len() as int) =~= old(self).effects@);
            if contains_id(old_tasks, id) {
                let k = choose|k: int| 0 <= k < old_tasks.len() && old_tasks[k].id == id;
                assert(old_tasks[k].id < id);
            }
        }
        id
    }

    /// The task with id `id`, if any.
    pub fn get(&self, id: u64) -> (r: Option<&Task>)
        requires
            self.wf(),
        ensures
            match r {
                Some(t) => task_of(self.tasks(), id) == Some(*t),
                None => task_of(self.tasks(), id) == None::<Task>,
            },
    {
        match self.find(id) {
            Some(i) => Some(&self.tasks[i]),
            None => None,
        }
    }

    /// Remove a task from the registry.
    pub fn remove(&mut self, id: u64) -> (r: Option<Task>)
        requires
            old(self).wf(),
        ensures
            final(self).wf(),
            r == task_of(old(self).tasks(), id),
            match r {
                Some(_) => final(self).tasks() == old(self).tasks().remove(pos_of(old(self).tasks(), id)),
                None => final(self).tasks() == old(self).tasks(),
            },
            final(self).next_id() == old(self).next_id(),
            final(self).same_config(old(self)),
            final(self).effects() == old(self).effects(),
    {
        match self.find(id) {
            Some(i) => {
                let ghost old_tasks = self.tasks@;
                let t = self.tasks.remove(i);
                proof {
                    lemma_pos_of(old_tasks, id, i as int);
                    assert forall|a: int, b: int| 0 <= a < b < self.tasks@.len() implies
                        self.tasks@[a].id < self.tasks@[b].id by {
                        if a >= i {
                            assert(self.tasks@[a] == old_tasks[a + 1]);
                        } else {
                            assert(self.tasks@[a] == old_tasks[a]);
                        }
                        if b >= i {
                            assert(self.tasks@[b] == old_tasks[b + 1]);
                        } else {
                            assert(self.tasks@[b] == old_tasks[b]);
                        }
                    }
                    assert forall|a: int| 0 <= a < self.tasks@.len() implies self.tasks@[a].id < self.next_id by {
                        if a >= i {
                            assert(self.tasks@[a] == old_tasks[a + 1]);
                        } else {
                            assert(self.tasks@[a] == old_tasks[a]);
                        }
                    }
                }
                Some(t)
            },
            None => None,
        }
    }

    /// List tasks, most recent first, up to `viewable_window` entries.
    pub fn list(
        &self,
        agent: Option<&str>,
        status: Option<TaskStatus>,
        parent_id: Option<Option<u64>>,
    ) -> (r: Vec<&Task>)
        ensures
            r@.map_values(|t: &Task| *t) == select_recent(
                self.tasks(),
                match agent { Some(a) => Some(a@), None => None },
                status,
                parent_id,
                self.window() as nat,
            ),
    {
        let ghost ag = match agent { Some(a) => Some(a@), None => None::<Seq<char>> };
        let mut out: Vec<&Task> = Vec::new();
        let mut i: usize = self.tasks.len();
        let mut left: usize = self.viewable_window;
        proof {
            assert(self.tasks@.subrange(0, i as int) =~= self.tasks@);
            assert(out@.map_values(|t: &Task| *t) =~= Seq::<Task>::empty());
            assert(Seq::<Task>::empty() + select_recent(self.tasks@, ag, status, parent_id, left as nat)
                =~= select_recent(self.tasks@, ag, status, parent_id, left as nat));
        }
        while i > 0 && left > 0
            invariant
                i <= self.tasks@.len(),
                left <= self.viewable_window,
                ag == match agent { Some(a) => Some(a@), None => None::<Seq<char>> },
                out@.map_values(|t: &Task| *t) + select_recent(
                    self.tasks@.subrange(0, i as int), ag, status, parent_id, left as nat,
                ) == select_recent(self.tasks@, ag, status, parent_id, self.viewable_window as nat),
            decreases i,
        {
            let t = &self.tasks[i - 1];
            let ok_agent = match agent {
                Some(a) => str_eq(t.agent.as_str(), a),
                None => true,
            };
            let ok_status = match status {
                Some(st) => t.status == st,
                None => true,
            };
            let ok_parent = match parent_id {
                Some(p) => t.parent_id == p,
                None => true,
            };
            let ghost pre = self.tasks@.subrange(0, i as int);
            proof {
                assert(pre.drop_last() =~= self.tasks@.subrange(0, i - 1));
                assert(pre.last() == *t);
            }
            if ok_agent && ok_status && ok_parent {
                let ghost before = out@.map_values(|t: &Task| *t);
                out.push(t);
                left = left - 1;
                proof {
                    assert(out@.map_values(|t: &Task| *t) =~= before.push(*t));
                    assert(before.push(*t) + select_recent(self.tasks@.subrange(0, i - 1), ag, status, parent_id, left as nat)
                        =~= before + (seq![*t] + select_recent(self.tasks@.subrange(0, i - 1), ag, status, parent_id, left as nat)));
                }
            }
            i = i - 1;
        }
        proof {
            let pre = self.tasks@.subrange(0, i as int);
            assert(select_recent(pre, ag, status, parent_id, left as nat) == Seq::<Task>::empty());
            assert(out@.map_values(|t: &Task| *t) =~= out@.map_values(|t: &Task| *t) + Seq::<Task>::empty());
            assert(self.tasks@.subrange(0, self.tasks@.len() as int) =~= self.tasks@);
        }
        out
    }

    /// Count of currently in-progress tasks (blocked ones excluded).
    pub fn active_count(&self) -> (r: usize)
        ensures
            r == self.active(),
    {
        let mut n: usize = 0;
        let mut i: usize = 0;
        while i < self.tasks.len()
            invariant
                i <= self.tasks@.len(),
                n == count_status(self.tasks@.subrange(0, i as int), TaskStatus::InProgress),
                n <= i,
            decreases self.tasks@.len() - i,
        {
            proof {
                assert(self.tasks@.subrange(0, i + 1).drop_last() =~= self.tasks@.subrange(0, i as int));
            }
            if self.tasks[i].status == TaskStatus::InProgress {
                n = n + 1;
            }
            i = i + 1;
        }
        proof {
            assert(self.tasks@.subrange(0, i as int) =~= self.tasks@);
        }
        n
    }

    /// Whether a new task can be dispatched immediately.
    pub fn has_slot(&self) -> (r: bool)
        ensures
            r == (self.active() < self.limit()),
    {
        self.active_count() < self.max_concurrent
    }


    /// Mark a task as finished (or failed, when `error` is given) and
    /// broadcast its completion.
    pub fn complete(&mut self, task_id: u64, result: Option<String>, error: Option<String>)
        requires
            old(self).wf(),
        ensures
            final(self).wf(),
            final(self).tasks() == completed(old(self).tasks(), task_id, result, error),
            final(self).next_id() == old(self).next_id(),
            final(self).same_config(old(self)),
            contains_id(old(self).tasks(), task_id) ==> {
                &&& appended(old(self).effects(), final(self).effects(), 3)
                &&& status_notifications(
                    tail_from(final(self).effects(), old(self).effects().len() as int).take(2),
                    task_of(final(self).tasks(), task_id).unwrap(),
                )
            },
            !contains_id(old(self).tasks(), task_id) ==> appended(old(self).effects(), final(self).effects(), 1),
            completion_event(
                final(self).effects().last(),
                task_id,
                completion_status(error),
                opt_view(result),
                opt_view(error),
            ),
    {
        let status = if error.is_some() {
            TaskStatus::Failed
        } else {
            TaskStatus::Finished
        };
        let ev_result = clone_opt(&result);
        let ev_error = clone_opt(&error);
        let ghost g_result = result;
        let ghost g_error = error;
        match self.find(task_id) {
            Some(i) => {
                let ghost old_tasks = self.tasks@;
                let mut t = self.tasks.remove(i);
                t.result = result;
                t.error = error;
                self.tasks.insert(i, t);
                proof {
                    lemma_remove_insert(old_tasks, i as int, self.tasks@[i as int]);
                    lemma_pos_of(self.tasks@, task_id, i as int);
                    lemma_pos_of(old_tasks, task_id, i as int);
                }
                let ghost mid = self.effects@.len();
                self.set_status(task_id, status);
                proof {
                    lemma_pos_of(self.tasks@, task_id, i as int);
                    assert(self.tasks@ =~= completed(old_tasks, task_id, g_result, g_error));
                }
            },
            None => {},
        }
        let ghost before = self.effects@;
        self.effects.push(
            Effect::Broadcast(TaskEvent::Completed { task_id, status, result: ev_result, error: ev_error }),
        );
        proof {
            let n = old(self).effects@.len() as int;
            assert(self.effects@.drop_last() =~= before);
            assert(self.effects@.subrange(0, n) =~= old(self).effects@) by {
                assert(before.subrange(0, n) =~= old(self).effects@);
            }
            if contains_id(old(self).tasks@, task_id) {
                assert(tail_from(self.effects@, n).take(2) =~= tail_from(before, n));
            }
        }
    }

    /// If a slot is free, start the oldest queued task and return its id,
    /// agent and description.
    pub fn promote_next(&mut self) -> (r: Option<(u64, String, String)>)
        requires
            old(self).wf(),
        ensures
            final(self).wf(),
            final(self).next_id() == old(self).next_id(),
            final(self).same_config(old(self)),
            match r {
                None => {
                    &&& final(self).tasks() == old(self).tasks()
                    &&& final(self).effects() == old(self).effects()
                    &&& (old(self).active() >= old(self).limit()
                        || forall|i: int| 0 <= i < old(self).tasks().len()
                            ==> old(self).tasks()[i].status != TaskStatus::Queued)
                },
                Some((id, agent, description)) => {
                    &&& old(self).active() < old(self).limit()
                    &&& exists|i: int| first_with_status(old(self).tasks(), TaskStatus::Queued, i)
                        && old(self).tasks()[i].id == id
                        && old(self).tasks()[i].agent@ == agent@
                        && old(self).tasks()[i].description@ == description@
                    &&& final(self).tasks() == with_status(old(self).tasks(), id, TaskStatus::InProgress)
                    &&& final(self).active() == old(self).active() + 1
                    &&& appended(old(self).effects(), final(self).effects(), 2)
                    &&& status_notifications(
                        tail_from(final(self).effects(), old(self).effects().len() as int),
                        task_of(final(self).tasks(), id).unwrap(),
                    )
                },
            },
    {
        if !self.has_slot() {
            return None;
        }
        let mut i: usize = 0;
        while i < self.tasks.len()
            invariant
                i <= self.tasks@.len(),
                self.tasks@ == old(self).tasks@,
                self.next_id == old(self).next_id,
                self.effects@ == old(self).effects@,
                self.max_concurrent == old(self).max_concurrent,
                self.viewable_window == old(self).viewable_window,
                old(self).wf(),
                old(self).active() < old(self).limit(),
                forall|j: int| 0 <= j < i ==> self.tasks@[j].status != TaskStatus::Queued,
            decreases self.tasks@.len() - i,
        {
            if self.tasks[i].status == TaskStatus::Queued {
                let id = self.tasks[i].id;
                let agent = self.tasks[i].agent.clone();
                let description = self.tasks[i].description.clone();
                proof {
                    lemma_pos_of(self.tasks@, id, i as int);
                    lemma_count_update(
                        self.tasks@,
                        i as int,
                        Task { status: TaskStatus::InProgress, ..self.tasks@[i as int] },
                        TaskStatus::InProgress,
                    );
                    assert(first_with_status(old(self).tasks@, TaskStatus::Queued, i as int));
                }
                self.set_status(id, TaskStatus::InProgress);
                return Some((id, agent, description));
            }
            i = i + 1;
        }
        None
    }

    /// Block a task on a question for the user. Returns whether the task exists.
    pub fn block(&mut self, task_id: u64, question: String) -> (r: bool)
        requires
            old(self).wf(),
        ensures
            final(self).wf(),
            r == contains_id(old(self).tasks(), task_id),
            final(self).tasks() == blocked(old(self).tasks(), task_id, question),
            final(self).next_id() == old(self).next_id(),
            final(self).same_config(old(self)),
            r ==> appended(old(self).effects(), final(self).effects(), 2) && status_notifications(
                tail_from(final(self).effects(), old(self).effects().len() as int),
                task_of(final(self).tasks(), task_id).unwrap(),
            ),
            !r ==> final(self).effects() == old(self).effects(),
    {
        let ghost g_question = question;
        match self.find(task_id) {
            Some(i) => {
                let ghost old_tasks = self.tasks@;
                let mut t = self.tasks.remove(i);
                t.blocked_on = Some(question);
                self.tasks.insert(i, t);
                proof {
                    lemma_remove_insert(old_tasks, i as int, self.tasks@[i as int]);
                    lemma_pos_of(self.tasks@, task_id, i as int);
                    lemma_pos_of(old_tasks, task_id, i as int);
                }
                self.set_status(task_id, TaskStatus::Blocked);
                proof {
                    lemma_pos_of(self.tasks@, task_id, i as int);
                    assert(self.tasks@ =~= blocked(old_tasks, task_id, g_question));
                }
                true
            },
            None => false,
        }
    }

    /// Approve a blocked task: deliver the user's response and resume it.
    /// Returns false, changing nothing, unless the task exists and is blocked.
    pub fn approve(&mut self, task_id: u64, response: String) -> (r: bool)
        requires
            old(self).wf(),
        ensures
            final(self).wf(),
            r == is_blocked(old(self).tasks(), task_id),
            final(self).next_id() == old(self).next_id(),
            final(self).same_config(old(self)),
            !r ==> final(self).tasks() == old(self).tasks() && final(self).effects() == old(self).effects(),
            r ==> {
                let had_question = task_of(old(self).tasks(), task_id).unwrap().blocked_on is Some;
                let n = old(self).effects().len() as int;
                let tail = tail_from(final(self).effects(), n);
                &&& final(self).tasks() == approved(old(self).tasks(), task_id)
                &&& had_question ==> {
                    &&& appended(old(self).effects(), final(self).effects(), 3)
                    &&& match tail[0] {
                        Effect::Reply { task_id: t, response: resp } => t == task_id && resp@ == response@,
                        _ => false,
                    }
                    &&& status_notifications(tail.drop_first(), task_of(final(self).tasks(), task_id).unwrap())
                }
                &&& !had_question ==> {
                    &&& appended(old(self).effects(), final(self).effects(), 2)
                    &&& status_notifications(tail, task_of(final(self).tasks(), task_id).unwrap())
                }
            },
    {
        let i = match self.find(task_id) {
            Some(i) => i,
            None => return false,
        };
        if self.tasks[i].status != TaskStatus::Blocked {
            proof {
                lemma_pos_of(self.tasks@, task_id, i as int);
            }
            return false;
        }
        let ghost old_tasks = self.tasks@;
        let mut t = self.tasks.remove(i);
        let had = t.blocked_on.is_some();
        t.blocked_on = None;
        self.tasks.insert(i, t);
        proof {
            lemma_remove_insert(old_tasks, i as int, self.tasks@[i as int]);
            lemma_pos_of(self.tasks@, task_id, i as int);
            lemma_pos_of(old_tasks, task_id, i as int);
        }
        if had {
            self.effects.push(Effect::Reply { task_id, response });
        }
        let ghost mid = self.effects@;
        self.set_status(task_id, TaskStatus::InProgress);
        proof {
            lemma_pos_of(self.tasks@, task_id, i as int);
            assert(self.tasks@ =~= approved(old_tasks, task_id));
            let n = old(self).effects@.len() as int;
            assert(mid.subrange(0, n) =~= old(self).effects@);
            assert(self.effects@.subrange(0, mid.len() as int) == mid);
            assert(self.effects@.subrange(0, n) =~= old(self).effects@);
            let tail = tail_from(self.effects@, n);
            if had {
                assert(tail[0] == mid[n]);
                assert(tail.drop_first() =~= tail_from(self.effects@, mid.len() as int));
            } else {
                assert(tail =~= tail_from(self.effects@, mid.len() as int));
            }
        }
        true
    }

    /// Kill a task: it fails with the message "killed by user".
    /// Returns whether the task exists.
    pub fn kill(&mut self, task_id: u64) -> (r: bool)
        requires
            old(self).wf(),
        ensures
            final(self).wf(),
            r == contains_id(old(self).tasks(), task_id),
            final(self).next_id() == old(self).next_id(),
            final(self).same_config(old(self)),
            !r ==> final(self).tasks() == old(self).tasks() && final(self).effects() == old(self).effects(),
            r ==> {
                let t = task_of(final(self).tasks(), task_id).unwrap();
                &&& t.status == TaskStatus::Failed
                &&& opt_view(t.error) == Some(killed_message())
                &&& final(self).tasks() == replace_task(
                    old(self).tasks(),
                    task_id,
                    Task { error: t.error, status: TaskStatus::Failed, ..task_of(old(self).tasks(), task_id).unwrap() },
                )
                &&& appended(old(self).effects(), final(self).effects(), 2)
                &&& status_notifications(tail_from(final(self).effects(), old(self).effects().len() as int), t)
            },
    {
        let i = match self.find(task_id) {
            Some(i) => i,
            None => return false,
        };
        let ghost old_tasks = self.tasks@;
        let mut t = self.tasks.remove(i);
        t.error = Some(owned("killed by user"));
        self.tasks.insert(i, t);
        proof {
            lemma_remove_insert(old_tasks, i as int, self.tasks@[i as int]);
            lemma_pos_of(self.tasks@, task_id, i as int);
            lemma_pos_of(old_tasks, task_id, i as int);
        }
        self.set_status(task_id, TaskStatus::Failed);
        proof {
            lemma_pos_of(self.tasks@, task_id, i as int);
            let tk = self.tasks@[i as int];
            assert(self.tasks@ =~= replace_task(old_tasks, task_id,
                Task { error: tk.error, status: TaskStatus::Failed, ..old_tasks[i as int] }));
        }
        true
    }

    /// All child tasks of `parent_id`, in creation order.
    pub fn children(&self, parent_id: u64) -> (r: Vec<&Task>)
        ensures
            r@.map_values(|t: &Task| *t) == children_of(self.tasks(), parent_id),
    {
        let mut out: Vec<&Task> = Vec::new();
        let mut i: usize = 0;
        while i < self.tasks.len()
            invariant
                i <= self.tasks@.len(),
                out@.map_values(|t: &Task| *t) == children_of(self.tasks@.subrange(0, i as int), parent_id),
            decreases self.tasks@.len() - i,
        {
            let ghost before = out@.map_values(|t: &Task| *t);
            proof {
                assert(self.tasks@.subrange(0, i + 1).drop_last() =~= self.tasks@.subrange(0, i as int));
            }
            if self.tasks[i].parent_id == Some(parent_id) {
                out.push(&self.tasks[i]);
                proof {
                    assert(out@.map_values(|t: &Task| *t) =~= before.push(self.tasks@[i as int]));
                }
            }
            i = i + 1;
        }
        proof {
            assert(self.tasks@.subrange(0, i as int) =~= self.tasks@);
        }
        out
    }

    /// The id of the oldest task running in session `session_id`.
    pub fn find_by_session(&self, session_id: u64) -> (r: Option<u64>)
        ensures
            match r {
                Some(id) => exists|i: int| 0 <= i < self.tasks().len()
                    && self.tasks()[i].session_id == Some(session_id)
                    && self.tasks()[i].id == id
                    && forall|j: int| 0 <= j < i ==> self.tasks()[j].session_id != Some(session_id),
                None => forall|i: int| 0 <= i < self.tasks().len()
                    ==> self.tasks()[i].session_id != Some(session_id),
            },
    {
        let mut i: usize = 0;
        while i < self.tasks.len()
            invariant
                i <= self.tasks@.len(),
                forall|j: int| 0 <= j < i ==> self.tasks@[j].session_id != Some(session_id),
            decreases self.tasks@.len() - i,
        {
            if self.tasks[i].session_id == Some(session_id) {
                return Some(self.tasks[i].id);
            }
            i = i + 1;
        }
        None
    }

    /// Record the session running task `task_id`. Returns whether the task exists.
    pub fn set_session(&mut self, task_id: u64, session_id: u64) -> (r: bool)
        requires
            old(self).wf(),
        ensures
            final(self).wf(),
            r == contains_id(old(self).tasks(), task_id),
            final(self).tasks() == match task_of(old(self).tasks(), task_id) {
                Some(t) => replace_task(old(self).tasks(), task_id, Task { session_id: Some(session_id), ..t }),
                None => old(self).tasks(),
            },
            final(self).next_id() == old(self).next_id(),
            final(self).same_config(old(self)),
            final(self).effects() == old(self).effects(),
    {
        match self.find(task_id) {
            Some(i) => {
                let ghost old_tasks = self.tasks@;
                let mut t = self.tasks.remove(i);
                t.session_id = Some(session_id);
                self.tasks.insert(i, t);
                proof {
                    lemma_remove_insert(old_tasks, i as int, self.tasks@[i as int]);
                    lemma_pos_of(old_tasks, task_id, i as int);
                }
                true
            },
            None => false,
        }
    }

    /// Add token usage to a task.
    pub fn add_tokens(&mut self, task_id: u64, prompt: u64, completion: u64)
        requires
            old(self).wf(),
            match task_of(old(self).tasks(), task_id) {
                Some(t) => t.prompt_tokens + prompt <= u64::MAX && t.completion_tokens + completion <= u64::MAX,
                None => true,
            },
        ensures
            final(self).wf(),
            final(self).tasks() == match task_of(old(self).tasks(), task_id) {
                Some(t) => replace_task(
                    old(self).tasks(),
                    task_id,
                    Task {
                        prompt_tokens: (t.prompt_tokens + prompt) as u64,
                        completion_tokens: (t.completion_tokens + completion) as u64,
                        ..t
                    },
                ),
                None => old(self).tasks(),
            },
            final(self).next_id() == old(self).next_id(),
            final(self).same_config(old(self)),
            final(self).effects() == old(self).effects(),
    {
        match self.find(task_id) {
            Some(i) => {
                let ghost old_tasks = self.tasks@;
                proof {
                    lemma_pos_of(old_tasks, task_id, i as int);
                }
                let mut t = self.tasks.remove(i);
                t.prompt_tokens = t.prompt_tokens + prompt;
                t.completion_tokens = t.completion_tokens + completion;
                self.tasks.insert(i, t);
                proof {
                    lemma_remove_insert(old_tasks, i as int, self.tasks@[i as int]);
                }
            },
            None => {},
        }
    }

    /// Update a task's status and notify its watchers and all subscribers.
    ///
    /// This is the single path for all status transitions.
    pub fn set_status(&mut self, id: u64, status: TaskStatus)
        requires
            old(self).wf(),
        ensures
            final(self).wf(),
            final(self).tasks() == with_status(old(self).tasks(), id, status),
            final(self).next_id() == old(self).next_id(),
            final(self).same_config(old(self)),
            contains_id(old(self).tasks(), id) ==> {
                &&& appended(old(self).effects(), final(self).effects(), 2)
                &&& status_notifications(
                    final(self).effects().subrange(old(self).effects().len() as int, final(self).effects().len() as int),
                    task_of(final(self).tasks(), id).unwrap(),
                )
            },
            !contains_id(old(self).tasks(), id) ==> final(self).effects() == old(self).effects(),
    {
        match self.find(id) {
            Some(i) => {
                let ghost old_tasks = self.tasks@;
                let mut t = self.tasks.remove(i);
                t.status = status;
                let blocked = clone_opt(&t.blocked_on);
                self.tasks.insert(i, t);
                proof {
                    lemma_remove_insert(old_tasks, i as int, self.tasks@[i as int]);
                    lemma_pos_of(self.tasks@, id, i as int);
                }
                self.effects.push(Effect::Status { task_id: id, status });
                self.effects.push(
                    Effect::Broadcast(TaskEvent::StatusChanged { task_id: id, status, blocked_on: blocked }),
                );
                proof {
                    let n = old(self).effects@.len() as int;
                    assert(self.effects@.subrange(0, n) =~= old(self).effects@);
                    let tail = self.effects@.subrange(n, self.effects@.len() as int);
                    assert(tail[0] == self.effects@[n]);
                    assert(tail[1] == self.effects@[n + 1]);
                }
            },
            None => {},
        }
    }
}

} // verus!

verus! {

/// Promoting a queued task while a slot is free raises the number of
/// running tasks by exactly one, so it never exceeds the limit.
pub proof fn law_promotion_respects_limit(s: Seq<Task>, id: u64, limit: nat)
    requires
        ids_increasing(s),
        count_status(s, TaskStatus::InProgress) < limit,
        task_of(s, id) matches Some(t) && t.status == TaskStatus::Queued,
    ensures
        count_status(with_status(s, id, TaskStatus::InProgress), TaskStatus::InProgress)
            == count_status(s, TaskStatus::InProgress) + 1,
        count_status(with_status(s, id, TaskStatus::InProgress), TaskStatus::InProgress) <= limit,
{
    let i = pos_of(s, id);
    let t = s[i];
    lemma_count_update(s, i, Task { status: TaskStatus::InProgress, ..t }, TaskStatus::InProgress);
}

/// A task that blocks on a question is blocked; approving it then resumes it
/// with no pending question, every other field as before blocking.
pub proof fn law_block_then_approve(s: Seq<Task>, id: u64, question: String)
    requires
        ids_increasing(s),
        contains_id(s, id),
    ensures
        is_blocked(blocked(s, id, question), id),
        approved(blocked(s, id, question), id) == replace_task(
            s,
            id,
            Task { blocked_on: None, status: TaskStatus::InProgress, ..task_of(s, id).unwrap() },
        ),
{
    let i = pos_of(s, id);
    lemma_pos_of(s, id, i);
    let b = blocked(s, id, question);
    assert(b[i].id == id);
    lemma_pos_of(b, id, i);
    assert(approved(b, id) =~= replace_task(
        s,
        id,
        Task { blocked_on: None, status: TaskStatus::InProgress, ..task_of(s, id).unwrap() },
    ));
}

/// What `list` returns: at most `limit` tasks of the registry, each passing
/// the filters, newest first.
pub proof fn law_list_recent_first(
    s: Seq<Task>,
    agent: Option<Seq<char>>,
    status: Option<TaskStatus>,
    parent_id: Option<Option<u64>>,
    limit: nat,
)
    requires
        ids_increasing(s),
    ensures
        ({
            let r = select_recent(s, agent, status, parent_id, limit);
            &&& r.len() <= limit
            &&& forall|k: int| 0 <= k < r.len() ==> passes_filter(#[trigger] r[k], agent, status, parent_id)
            &&& forall|k: int| 0 <= k < r.len() ==> exists|j: int| 0 <= j < s.len() && #[trigger] r[k] == s[j]
            &&& forall|a: int, b: int| 0 <= a < b < r.len() ==> r[a].id > r[b].id
        }),
    decreases s.len(),
{
    let r = select_recent(s, agent, status, parent_id, limit);
    if s.len() == 0 || limit == 0 {
    } else {
        let d = s.drop_last();
        assert(ids_increasing(d));
        let lim2: nat = if passes_filter(s.last(), agent, status, parent_id) { (limit - 1) as nat } else { limit };
        law_list_recent_first(d, agent, status, parent_id, lim2);
        let rest = select_recent(d, agent, status, parent_id, lim2);
        assert forall|k: int| 0 <= k < rest.len() implies exists|j: int| 0 <= j < s.len() && #[trigger] rest[k] == s[j] by {
            let j = choose|j: int| 0 <= j < d.len() && rest[k] == d[j];
            assert(rest[k] == s[j]);
        }
        if passes_filter(s.last(), agent, status, parent_id) {
            assert(r == seq![s.last()] + rest);
            assert forall|k: int| 0 <= k < r.len() implies exists|j: int| 0 <= j < s.len() && #[trigger] r[k] == s[j] by {
                if k == 0 {
                    assert(r[0] == s[s.len() - 1]);
                } else {
                    assert(r[k] == rest[k - 1]);
                }
            }
            assert forall|k: int| 0 <= k < r.len() implies passes_filter(#[trigger] r[k], agent, status, parent_id) by {
                if k > 0 {
                    assert(r[k] == rest[k - 1]);
                }
            }
            assert forall|a: int, b: int| 0 <= a < b < r.len() implies r[a].id > r[b].id by {
                assert(r[b] == rest[b - 1]);
                if a == 0 {
                    let j = choose|j: int| 0 <= j < d.len() && rest[b - 1] == d[j];
                    assert(s[j].id < s[s.len() - 1].id);
                } else {
                    assert(r[a] == rest[a - 1]);
                }
            }
        }
    }
}

/// How one registry operation moves the id counter: `create` hands out the
/// counter as the new task's id and raises it by one (`Some(id)`); every
/// other operation keeps it (`None`), as their contracts say.
pub open spec fn counter_step(a: TaskRegistry, b: TaskRegistry, created: Option<u64>) -> bool {
    match created {
        Some(id) => id == a.next_id() && b.next_id() == id + 1,
        None => b.next_id() == a.next_id(),
    }
}

/// Along a run of operations, the counter never goes down.
proof fn lemma_counter_grows(states: Seq<TaskRegistry>, created: Seq<Option<u64>>, i: int, j: int)
    requires
        states.len() == created.len() + 1,
        forall|k: int| 0 <= k < created.len() ==> counter_step(states[k], states[k + 1], #[trigger] created[k]),
        0 <= i <= j <= created.len(),
    ensures
        states[i].next_id() <= states[j].next_id(),
    decreases j - i,
{
    if i < j {
        lemma_counter_grows(states, created, i, j - 1);
        assert(counter_step(states[j - 1], states[j], created[j - 1]));
    }
}

/// Along a run without a `create`, the counter stays where it started.
proof fn lemma_counter_kept(states: Seq<TaskRegistry>, created: Seq<Option<u64>>, j: int)
    requires
        states.len() == created.len() + 1,
        forall|k: int| 0 <= k < created.len() ==> counter_step(states[k], states[k + 1], #[trigger] created[k]),
        0 <= j <= created.len(),
        forall|k: int| 0 <= k < j ==> #[trigger] created[k] is None,
    ensures
        states[j].next_id() == states[0].next_id(),
    decreases j,
{
    if j > 0 {
        lemma_counter_kept(states, created, j - 1);
        assert(counter_step(states[j - 1], states[j], created[j - 1]));
    }
}

/// Ids are handed out in increasing order: along any run of registry
/// operations, each moving the counter as its contract says, an id that
/// `create` returns is greater than every id an earlier `create` returned
/// and than the id of every task present at any earlier point; the first
/// `create` on a new registry (whose counter starts at 1) returns 1.
pub proof fn law_ids_increase(states: Seq<TaskRegistry>, created: Seq<Option<u64>>, i: int, j: int)
    requires
        states.len() == created.len() + 1,
        forall|k: int| 0 <= k < created.len() ==> counter_step(states[k], states[k + 1], #[trigger] created[k]),
        0 <= i <= j < created.len(),
        states[i].wf(),
        created[j] is Some,
    ensures
        i < j && created[i] is Some ==> created[i]->0 < created[j]->0,
        forall|t: int| 0 <= t < states[i].tasks().len() ==> #[trigger] states[i].tasks()[t].id < created[j]->0,
        states[0].next_id() == 1 && (forall|k: int| 0 <= k < j ==> created[k] is None) ==> created[j]->0 == 1,
{
    lemma_counter_grows(states, created, i, j);
    assert(counter_step(states[j], states[j + 1], created[j]));
    if i < j && created[i] is Some {
        assert(counter_step(states[i], states[i + 1], created[i]));
        lemma_counter_grows(states, created, i + 1, j);
    }
    if states[0].next_id() == 1 && (forall|k: int| 0 <= k < j ==> created[k] is None) {
        lemma_counter_kept(states, created, j);
    }
}

/// What `create` adds is what a lookup then finds: after appending the task
/// `t` (as `create` does, with an id above every id present), looking up
/// `t.id` gives `t`, and looking up any other id gives what it gave before.
pub proof fn law_get_after_create(s: Seq<Task>, t: Task, other: u64)
    requires
        ids_increasing(s),
        forall|i: int| 0 <= i < s.len() ==> #[trigger] s[i].id < t.id,
        other != t.id,
    ensures
        task_of(s.push(t), t.id) == Some(t),
        task_of(s.push(t), other) == task_of(s, other),
{
    let s2 = s.push(t);
    assert(ids_increasing(s2));
    lemma_pos_of(s2, t.id, s.len() as int);
    if contains_id(s, other) {
        let i = choose|i: int| 0 <= i < s.len() && s[i].id == other;
        lemma_pos_of(s, other, i);
        lemma_pos_of(s2, other, i);
    } else {
        assert forall|i: int| 0 <= i < s2.len() implies s2[i].id != other by {
            if i < s.len() {
                assert(s2[i] == s[i]);
            }
        }
    }
}

/// Listing without filters shows every task, newest first: the result holds
/// the last `min(limit, n)` tasks of `s` in reverse order, whatever their
/// status.
pub proof fn law_list_unfiltered_is_everything(s: Seq<Task>, limit: nat)
    ensures
        ({
            let r = select_recent(s, None, None, None, limit);
            &&& r.len() == if limit < s.len() { limit } else { s.len() }
            &&& forall|k: int| 0 <= k < r.len() ==> #[trigger] r[k] == s[s.len() - 1 - k]
        }),
    decreases s.len(),
{
    if s.len() > 0 && limit > 0 {
        let d = s.drop_last();
        law_list_unfiltered_is_everything(d, (limit - 1) as nat);
        let rest = select_recent(d, None, None, None, (limit - 1) as nat);
        let r = select_recent(s, None, None, None, limit);
        assert(r == seq![s.last()] + rest);
        assert forall|k: int| 0 <= k < r.len() implies #[trigger] r[k] == s[s.len() - 1 - k] by {
            if k > 0 {
                assert(r[k] == rest[k - 1]);
                assert(d[d.len() - 1 - (k - 1)] == s[s.len() - 1 - k]);
            }
        }
    }
}

/// Listing misses no task that the filters admit: a task of `s` whose agent,
/// status and parent match the given filters (a missing filter admitting
/// anything) is listed, unless the list is already full with tasks newer
/// than it.
pub proof fn law_list_misses_nothing(
    s: Seq<Task>,
    agent: Option<Seq<char>>,
    status: Option<TaskStatus>,
    parent_id: Option<Option<u64>>,
    limit: nat,
    j: int,
)
    requires
        ids_increasing(s),
        0 <= j < s.len(),
        match agent { Some(a) => s[j].agent@ == a, None => true },
        match status { Some(st) => s[j].status == st, None => true },
        match parent_id { Some(p) => s[j].parent_id == p, None => true },
    ensures
        ({
            let r = select_recent(s, agent, status, parent_id, limit);
            ||| r.contains(s[j])
            ||| (r.len() == limit && forall|k: int| 0 <= k < r.len() ==> #[trigger] r[k].id > s[j].id)
        }),
    decreases s.len(),
{
    let r = select_recent(s, agent, status, parent_id, limit);
    if limit == 0 {
    } else {
        let d = s.drop_last();
        assert(ids_increasing(d));
        law_list_recent_first(s, agent, status, parent_id, limit);
        if j == s.len() - 1 {
            assert(r == seq![s.last()] + select_recent(d, agent, status, parent_id, (limit - 1) as nat));
            assert(r[0] == s[j]);
        } else {
            assert(d[j] == s[j]);
            if passes_filter(s.last(), agent, status, parent_id) {
                let rest = select_recent(d, agent, status, parent_id, (limit - 1) as nat);
                law_list_misses_nothing(d, agent, status, parent_id, (limit - 1) as nat, j);
                assert(r == seq![s.last()] + rest);
                if rest.contains(s[j]) {
                    let k = choose|k: int| 0 <= k < rest.len() && rest[k] == s[j];
                    assert(r[k + 1] == s[j]);
                } else {
                    assert forall|k: int| 0 <= k < r.len() implies #[trigger] r[k].id > s[j].id by {
                        if k == 0 {
                            assert(s[j].id < s[s.len() - 1].id);
                        } else {
                            assert(r[k] == rest[k - 1]);
                        }
                    }
                }
            } else {
                law_list_misses_nothing(d, agent, status, parent_id, limit, j);
            }
        }
    }
}

/// Listing shows only what the filters admit, newest first, at most the
/// window: every listed task is a task of `s` whose agent, status and parent
/// match the given filters, the list holds no more than `limit` tasks, and
/// ids fall strictly from first to last.
pub proof fn law_list_only_admitted(
    s: Seq<Task>,
    agent: Option<Seq<char>>,
    status: Option<TaskStatus>,
    parent_id: Option<Option<u64>>,
    limit: nat,
)
    requires
        ids_increasing(s),
    ensures
        ({
            let r = select_recent(s, agent, status, parent_id, limit);
            &&& r.len() <= limit
            &&& forall|k: int| 0 <= k < r.len() ==> {
                &&& s.contains(#[trigger] r[k])
                &&& (match agent { Some(a) => r[k].agent@ == a, None => true })
                &&& (match status { Some(st) => r[k].status == st, None => true })
                &&& (match parent_id { Some(p) => r[k].parent_id == p, None => true })
            }
            &&& forall|a: int, b: int| 0 <= a < b < r.len() ==> r[a].id > r[b].id
        }),
{
    law_list_recent_first(s, agent, status, parent_id, limit);
    let r = select_recent(s, agent, status, parent_id, limit);
    assert forall|k: int| 0 <= k < r.len() implies s.contains(#[trigger] r[k]) by {
        assert(passes_filter(r[k], agent, status, parent_id));
        let j = choose|j: int| 0 <= j < s.len() && #[trigger] r[k] == s[j];
        assert(s[j] == r[k]);
    }
}

} // verus!
