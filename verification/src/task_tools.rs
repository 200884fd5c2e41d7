//! Decisions behind the task tools: delegation, completion and reply collection.
//!
//! The caller parses tool arguments, runs delegated tasks and renders replies;
//! these functions decide what the registry does in between.

use vstd::prelude::*;
use crate::tasks::{
    TaskRegistry, TaskStatus, Task, appended, children_of, completed, contains_id, first_with_status,
    status_notifications, task_of, with_status, count_status,
};
use crate::text::{clone_opt, decimal, opt_view, owned, push_decimal, push_str, str_eq, views};

verus! {

/// Whether an agent whose members list is `members` may delegate to `target`.
/// No scope, or an empty members list, allows every target.
pub open spec fn may_delegate(members: Option<Seq<Seq<char>>>, target: Seq<char>) -> bool {
    match members {
        Some(m) => m.len() == 0 || m.contains(target),
        None => true,
    }
}

/// The refusal message for a target outside the members list.
pub open spec fn not_member_message(target: Seq<char>) -> Seq<char> {
    "agent '"@ + target + "' is not in your members list"@
}

/// A task accepted for delegation.
pub struct Spawned {
    /// The new task's id.
    pub task_id: u64,
    /// Its initial status.
    pub status: TaskStatus,
    /// Whether the caller must start it now (a slot was free).
    pub dispatch: bool,
}

fn is_member(members: &Vec<String>, target: &str) -> (r: bool)
    ensures
        r == views(members@).contains(target@),
{
    let mut i: usize = 0;
    while i < members.len()
        invariant
            i <= members@.len(),
            forall|j: int| 0 <= j < i ==> members@[j]@ != target@,
        decreases members@.len() - i,
    {
        if str_eq(members[i].as_str(), target) {
            assert(views(members@)[i as int] == target@);
            return true;
        }
        i = i + 1;
    }
    assert forall|j: int| 0 <= j < views(members@).len() implies views(members@)[j] != target@ by {}
    false
}

/// Delegate `message` to agent `target` on behalf of `caller`, whose members
/// list (if it has a scope) is `members`.
///
/// Refuses targets outside a non-empty members list. Otherwise creates the
/// task: in progress when a slot is free (the caller must dispatch it), else
/// queued.
pub fn spawn_task(
    reg: &mut TaskRegistry,
    members: Option<&Vec<String>>,
    caller: &str,
    target: &str,
    message: String,
    parent_task_id: Option<u64>,
) -> (r: Result<Spawned, String>)
    requires
        old(reg).wf(),
        old(reg).next_id() < u64::MAX,
    ensures
        final(reg).wf(),
        final(reg).same_config(old(reg)),
        match members {
            Some(m) => r is Err <==> !may_delegate(Some(views(m@)), target@),
            None => r is Ok,
        },
        match r {
            Err(msg) => {
                &&& msg@ == not_member_message(target@)
                &&& final(reg).tasks() == old(reg).tasks()
                &&& final(reg).effects() == old(reg).effects()
                &&& final(reg).next_id() == old(reg).next_id()
            },
            Ok(sp) => {
                let t = final(reg).tasks().last();
                &&& sp.task_id == old(reg).next_id()
                &&& sp.status == (if old(reg).active() < old(reg).limit() {
                    TaskStatus::InProgress
                } else {
                    TaskStatus::Queued
                })
                &&& sp.dispatch == (sp.status == TaskStatus::InProgress)
                &&& final(reg).tasks().len() == old(reg).tasks().len() + 1
                &&& final(reg).tasks().drop_last() == old(reg).tasks()
                &&& t.id == sp.task_id
                &&& t.status == sp.status
                &&& t.agent@ == target@
                &&& t.description@ == message@
                &&& t.created_by@ == caller@
                &&& t.parent_id == parent_task_id
                &&& t.session_id == None::<u64>
                &&& t.result == None::<String>
                &&& t.error == None::<String>
                &&& t.blocked_on == None::<String>
                &&& t.prompt_tokens == 0 && t.completion_tokens == 0
                &&& final(reg).effects().subrange(0, old(reg).effects().len() as int) == old(reg).effects()
            },
        },
{
    if let Some(m) = members {
        if m.len() > 0 && !is_member(m, target) {
            let mut msg = owned("agent '");
            push_str(&mut msg, target);
            push_str(&mut msg, "' is not in your members list");
            return Err(msg);
        }
    }
    let under_limit = reg.has_slot();
    let status = if under_limit {
        TaskStatus::InProgress
    } else {
        TaskStatus::Queued
    };
    let task_id = reg.create(owned(target), message, owned(caller), parent_task_id, status);
    Ok(Spawned { task_id, status, dispatch: under_limit })
}

/// A reply a running task sent back.
pub enum WatchedReply {
    /// The agent's response in a session.
    Response { session: u64, content: String },
    /// The agent failed.
    Error { message: String },
    /// Anything else (ignored).
    Other,
}

/// What a task's replies amount to.
pub struct Outcome {
    /// The last response content.
    pub result: Option<String>,
    /// The last error, or the timeout message.
    pub error: Option<String>,
    /// The session of the last response.
    pub session: Option<u64>,
}

/// The last response in `s` as (session, content), if any.
pub open spec fn last_response(s: Seq<WatchedReply>) -> Option<(u64, Seq<char>)>
    decreases s.len(),
{
    if s.len() == 0 {
        None
    } else {
        match s.last() {
            WatchedReply::Response { session, content } => Some((session, content@)),
            _ => last_response(s.drop_last()),
        }
    }
}

/// The message of the last error in `s`, if any.
pub open spec fn last_error(s: Seq<WatchedReply>) -> Option<Seq<char>>
    decreases s.len(),
{
    if s.len() == 0 {
        None
    } else {
        match s.last() {
            WatchedReply::Error { message } => Some(message@),
            _ => last_error(s.drop_last()),
        }
    }
}

/// The error recorded for a task that did not finish in time.
pub open spec fn timeout_message() -> Seq<char> {
    "task timed out"@
}

/// Fold a task's replies, in arrival order, into its outcome. A timeout
/// overrides any error received.
pub fn collect_replies(replies: Vec<WatchedReply>, timed_out: bool) -> (o: Outcome)
    ensures
        opt_view(o.result) == (match last_response(replies@) { Some((_, c)) => Some(c), None => None }),
        o.session == (match last_response(replies@) { Some((s, _)) => Some(s), None => None }),
        opt_view(o.error) == (if timed_out { Some(timeout_message()) } else { last_error(replies@) }),
{
    let mut result: Option<String> = None;
    let mut error: Option<String> = None;
    let mut session: Option<u64> = None;
    let ghost all = replies@;
    let mut i: usize = 0;
    let mut replies = replies;
    // Consume in order: reverse once, then pop from the back.
    let mut rev: Vec<WatchedReply> = Vec::new();
    let n = replies.len();
    while replies.len() > 0
        invariant
            n == all.len(),
            rev@.len() + replies@.len() == all.len(),
            replies@ == all.subrange(0, replies@.len() as int),
            forall|k: int| 0 <= k < rev@.len() ==> rev@[k] == all[all.len() - 1 - k],
        decreases replies@.len(),
    {
        let x = replies.pop().unwrap();
        rev.push(x);
    }
    while rev.len() > 0
        invariant
            n == all.len(),
            i + rev@.len() == all.len(),
            forall|k: int| 0 <= k < rev@.len() ==> rev@[k] == all[all.len() - 1 - k],
            opt_view(result) == (match last_response(all.subrange(0, i as int)) { Some((_, c)) => Some(c), None => None }),
            session == (match last_response(all.subrange(0, i as int)) { Some((s, _)) => Some(s), None => None }),
            opt_view(error) == last_error(all.subrange(0, i as int)),
        decreases rev@.len(),
    {
        let x = rev.pop().unwrap();
        proof {
            assert(all.subrange(0, i + 1).drop_last() =~= all.subrange(0, i as int));
            assert(all.subrange(0, i + 1).last() == x);
        }
        match x {
            WatchedReply::Response { session: s, content } => {
                session = Some(s);
                result = Some(content);
            },
            WatchedReply::Error { message } => {
                error = Some(message);
            },
            WatchedReply::Other => {},
        }
        i = i + 1;
    }
    proof {
        assert(all.subrange(0, i as int) =~= all);
    }
    if timed_out {
        error = Some(owned("task timed out"));
    }
    Outcome { result, error, session }
}

/// Sessions of the finished or failed tasks among `s`, in order.
pub open spec fn done_sessions(s: Seq<Task>) -> Seq<u64>
    decreases s.len(),
{
    if s.len() == 0 {
        Seq::empty()
    } else {
        let t = s.last();
        let rest = done_sessions(s.drop_last());
        if (t.status == TaskStatus::Finished || t.status == TaskStatus::Failed) && t.session_id is Some {
            rest.push(t.session_id.unwrap())
        } else {
            rest
        }
    }
}

/// What finishing a task asks of the caller.
pub struct Finished {
    /// Sessions of the task's finished children, to be closed.
    pub child_sessions: Vec<u64>,
    /// The queued task started in the freed slot, to be dispatched.
    pub promoted: Option<(u64, String, String)>,
}

/// Finish a watched task: note its children's sessions to close, complete
/// it with `result` and `error`, and start the next queued task if a slot is free.
pub fn finish_task(
    reg: &mut TaskRegistry,
    task_id: u64,
    result: Option<String>,
    error: Option<String>,
) -> (f: Finished)
    requires
        old(reg).wf(),
    ensures
        final(reg).wf(),
        final(reg).same_config(old(reg)),
        final(reg).next_id() == old(reg).next_id(),
        f.child_sessions@ == done_sessions(children_of(old(reg).tasks(), task_id)),
        ({
            let c = completed(old(reg).tasks(), task_id, result, error);
            match f.promoted {
                None => {
                    &&& final(reg).tasks() == c
                    &&& (count_status(c, TaskStatus::InProgress) >= old(reg).limit()
                        || forall|i: int| 0 <= i < c.len() ==> c[i].status != TaskStatus::Queued)
                },
                Some((id, agent, description)) => {
                    &&& count_status(c, TaskStatus::InProgress) < old(reg).limit()
                    &&& exists|i: int| first_with_status(c, TaskStatus::Queued, i)
                        && c[i].id == id && c[i].agent@ == agent@ && c[i].description@ == description@
                    &&& final(reg).tasks() == with_status(c, id, TaskStatus::InProgress)
                },
            }
        }),
        final(reg).effects().subrange(0, old(reg).effects().len() as int) == old(reg).effects(),
{
    let kids = reg.children(task_id);
    let mut sessions: Vec<u64> = Vec::new();
    let mut i: usize = 0;
    let ghost kv = kids@.map_values(|t: &Task| *t);
    while i < kids.len()
        invariant
            i <= kids@.len(),
            kv == kids@.map_values(|t: &Task| *t),
            sessions@ == done_sessions(kv.subrange(0, i as int)),
        decreases kids@.len() - i,
    {
        proof {
            assert(kv.subrange(0, i + 1).drop_last() =~= kv.subrange(0, i as int));
            assert(kv.subrange(0, i + 1).last() == *kids@[i as int]);
        }
        let t = kids[i];
        if (t.status == TaskStatus::Finished || t.status == TaskStatus::Failed) && t.session_id.is_some() {
            sessions.push(t.session_id.unwrap());
        }
        i = i + 1;
    }
    proof {
        assert(kv.subrange(0, i as int) =~= kv);
    }
    let ghost e0 = reg.effects();
    reg.complete(task_id, result, error);
    let ghost e1 = reg.effects();
    let promoted = reg.promote_next();
    proof {
        let n = e0.len() as int;
        assert(e1.subrange(0, n) == e0);
        assert(reg.effects().subrange(0, e1.len() as int) == e1);
        assert(reg.effects().subrange(0, n) =~= e0);
    }
    Finished { child_sessions: sessions, promoted }
}


// ── Awaiting tasks ─────────────────────────────────────────────────────

/// The first of `ids` that names no task of `s`, if any.
pub open spec fn first_missing(s: Seq<Task>, ids: Seq<u64>) -> Option<u64>
    decreases ids.len(),
{
    if ids.len() == 0 {
        None
    } else if !contains_id(s, ids[0]) {
        Some(ids[0])
    } else {
        first_missing(s, ids.drop_first())
    }
}

/// Whether a task in status `s` is done (finished or failed).
pub fn is_settled(s: TaskStatus) -> (r: bool)
    ensures
        r == (s == TaskStatus::Finished || s == TaskStatus::Failed),
{
    match s {
        TaskStatus::Finished | TaskStatus::Failed => true,
        _ => false,
    }
}

/// Start waiting on the tasks `task_ids`: refuse an empty list or an
/// unknown task (the first one, naming it), else block the calling task
/// (if any) until the wait is over.
pub fn begin_await(reg: &mut TaskRegistry, task_ids: &[u64], caller: Option<u64>) -> (r: Result<(), String>)
    requires
        old(reg).wf(),
    ensures
        final(reg).wf(),
        final(reg).same_config(old(reg)),
        final(reg).next_id() == old(reg).next_id(),
        task_ids@.len() == 0 ==> r is Err && r->Err_0@ == "no task IDs provided"@,
        task_ids@.len() > 0 && first_missing(old(reg).tasks(), task_ids@) is Some ==> r is Err
            && r->Err_0@ == "task "@ + decimal(first_missing(old(reg).tasks(), task_ids@)->Some_0 as nat) + " not found"@,
        r is Err ==> final(reg).tasks() == old(reg).tasks() && final(reg).effects() == old(reg).effects(),
        task_ids@.len() > 0 && first_missing(old(reg).tasks(), task_ids@) is None ==> r is Ok,
        r is Ok ==> match caller {
            Some(c) => {
                &&& final(reg).tasks() == with_status(old(reg).tasks(), c, TaskStatus::Blocked)
                &&& contains_id(old(reg).tasks(), c) ==> {
                    &&& appended(old(reg).effects(), final(reg).effects(), 2)
                    &&& status_notifications(
                        final(reg).effects().subrange(old(reg).effects().len() as int, final(reg).effects().len() as int),
                        task_of(final(reg).tasks(), c).unwrap(),
                    )
                }
                &&& !contains_id(old(reg).tasks(), c) ==> final(reg).effects() == old(reg).effects()
            },
            None => final(reg).tasks() == old(reg).tasks() && final(reg).effects() == old(reg).effects(),
        },
{
    if task_ids.len() == 0 {
        return Err(owned("no task IDs provided"));
    }
    let mut i: usize = 0;
    proof {
        assert(task_ids@.skip(0) =~= task_ids@);
    }
    while i < task_ids.len()
        invariant
            i <= task_ids@.len(),
            reg.wf(),
            *reg == *old(reg),
            first_missing(reg.tasks(), task_ids@) == first_missing(reg.tasks(), task_ids@.skip(i as int)),
        decreases task_ids@.len() - i,
    {
        let tid = task_ids[i];
        proof {
            let rest = task_ids@.skip(i as int);
            assert(rest[0] == tid);
            assert(rest.drop_first() =~= task_ids@.skip(i + 1));
        }
        match reg.get(tid) {
            None => {
                let mut msg = owned("task ");
                push_decimal(&mut msg, tid);
                push_str(&mut msg, " not found");
                return Err(msg);
            },
            Some(_) => {},
        }
        i = i + 1;
    }
    proof {
        assert(task_ids@.skip(i as int) =~= Seq::<u64>::empty());
    }
    match caller {
        Some(c) => reg.set_status(c, TaskStatus::Blocked),
        None => {},
    }
    Ok(())
}

/// Where an awaited task ended up: its status, result and error, or
/// `None` if it no longer exists.
pub struct AwaitResult {
    pub task_id: u64,
    pub found: Option<(TaskStatus, Option<String>, Option<String>)>,
}

/// The results of the awaited tasks `task_ids`, in the order given.
pub fn await_results(reg: &TaskRegistry, task_ids: &[u64]) -> (r: Vec<AwaitResult>)
    requires
        reg.wf(),
    ensures
        r@.len() == task_ids@.len(),
        forall|k: int| 0 <= k < r@.len() ==> {
            &&& (#[trigger] r@[k]).task_id == task_ids@[k]
            &&& match task_of(reg.tasks(), task_ids@[k]) {
                Some(t) => r@[k].found matches Some((st, res, err))
                    && st == t.status && opt_view(res) == opt_view(t.result) && opt_view(err) == opt_view(t.error),
                None => r@[k].found is None,
            }
        },
{
    let mut out: Vec<AwaitResult> = Vec::new();
    let mut i: usize = 0;
    while i < task_ids.len()
        invariant
            i <= task_ids@.len(),
            reg.wf(),
            out@.len() == i,
            forall|k: int| 0 <= k < i ==> {
                &&& (#[trigger] out@[k]).task_id == task_ids@[k]
                &&& match task_of(reg.tasks(), task_ids@[k]) {
                    Some(t) => out@[k].found matches Some((st, res, err))
                        && st == t.status && opt_view(res) == opt_view(t.result) && opt_view(err) == opt_view(t.error),
                    None => out@[k].found is None,
                }
            },
        decreases task_ids@.len() - i,
    {
        let tid = task_ids[i];
        let found = match reg.get(tid) {
            Some(t) => Some((t.status, clone_opt(&t.result), clone_opt(&t.error))),
            None => None,
        };
        out.push(AwaitResult { task_id: tid, found });
        i = i + 1;
    }
    out
}


/// Whether every awaited task that still exists is done: the wait is over.
pub fn all_settled(reg: &TaskRegistry, task_ids: &[u64]) -> (r: bool)
    requires
        reg.wf(),
    ensures
        r == forall|k: int| 0 <= k < task_ids@.len() ==> match #[trigger] task_of(reg.tasks(), task_ids@[k]) {
            Some(t) => t.status == TaskStatus::Finished || t.status == TaskStatus::Failed,
            None => true,
        },
{
    let mut i: usize = 0;
    while i < task_ids.len()
        invariant
            i <= task_ids@.len(),
            reg.wf(),
            forall|k: int| 0 <= k < i ==> match #[trigger] task_of(reg.tasks(), task_ids@[k]) {
                Some(t) => t.status == TaskStatus::Finished || t.status == TaskStatus::Failed,
                None => true,
            },
        decreases task_ids@.len() - i,
    {
        match reg.get(task_ids[i]) {
            Some(t) => {
                if !is_settled(t.status) {
                    return false;
                }
            },
            None => {},
        }
        i = i + 1;
    }
    true
}

/// End a wait: the calling task (if any) runs again.
pub fn end_await(reg: &mut TaskRegistry, caller: Option<u64>)
    requires
        old(reg).wf(),
    ensures
        final(reg).wf(),
        final(reg).same_config(old(reg)),
        final(reg).next_id() == old(reg).next_id(),
        match caller {
            Some(c) => {
                &&& final(reg).tasks() == with_status(old(reg).tasks(), c, TaskStatus::InProgress)
                &&& contains_id(old(reg).tasks(), c) ==> {
                    &&& appended(old(reg).effects(), final(reg).effects(), 2)
                    &&& status_notifications(
                        final(reg).effects().subrange(old(reg).effects().len() as int, final(reg).effects().len() as int),
                        task_of(final(reg).tasks(), c).unwrap(),
                    )
                }
                &&& !contains_id(old(reg).tasks(), c) ==> final(reg).effects() == old(reg).effects()
            },
            None => final(reg).tasks() == old(reg).tasks() && final(reg).effects() == old(reg).effects(),
        },
{
    match caller {
        Some(c) => reg.set_status(c, TaskStatus::InProgress),
        None => {},
    }
}

} // verus!
