use walrus::task_tools::{all_settled, await_results, begin_await, collect_replies, end_await, finish_task, is_settled, spawn_task, WatchedReply};
use walrus::tasks::{parse_task_status, task_info_at, Effect, TaskEvent, TaskRegistry, TaskStatus};

fn status_of(reg: &TaskRegistry, id: u64) -> TaskStatus {
    reg.get(id).unwrap().status
}

#[test]
fn status_names_round_trip() {
    for s in [TaskStatus::Queued, TaskStatus::InProgress, TaskStatus::Blocked, TaskStatus::Finished, TaskStatus::Failed] {
        assert_eq!(parse_task_status(s.as_str()), Some(s));
    }
    assert_eq!(TaskStatus::InProgress.as_str(), "in_progress");
    assert_eq!(parse_task_status("queued"), Some(TaskStatus::Queued));
    assert_eq!(parse_task_status("done"), None);
    assert_eq!(parse_task_status("Queued"), None);
}

#[test]
fn ids_start_at_one_and_increase() {
    let mut reg = TaskRegistry::new(2, 10);
    let a = reg.create("a".into(), "first".into(), "user".into(), None, TaskStatus::InProgress);
    let b = reg.create("b".into(), "second".into(), "a".into(), Some(a), TaskStatus::Queued);
    assert_eq!((a, b), (1, 2));
    assert_eq!(reg.get(b).unwrap().parent_id, Some(1));
    assert_eq!(reg.get(b).unwrap().description, "second");
    assert!(reg.get(3).is_none());
    let effects = reg.take_effects();
    assert_eq!(effects.len(), 2);
    assert!(matches!(&effects[0], Effect::Broadcast(TaskEvent::Created(info)) if info.id == 1));
    assert!(reg.take_effects().is_empty());
}

#[test]
fn slots_limit_active_tasks() {
    let mut reg = TaskRegistry::new(1, 10);
    assert!(reg.has_slot());
    let a = reg.create("a".into(), "x".into(), "u".into(), None, TaskStatus::InProgress);
    let b = reg.create("b".into(), "y".into(), "u".into(), None, TaskStatus::Queued);
    assert_eq!(reg.active_count(), 1);
    assert!(!reg.has_slot());
    assert_eq!(reg.promote_next(), None);
    reg.complete(a, Some("ok".into()), None);
    assert_eq!(status_of(&reg, a), TaskStatus::Finished);
    assert_eq!(reg.get(a).unwrap().result.as_deref(), Some("ok"));
    let next = reg.promote_next();
    assert_eq!(next, Some((b, "b".to_string(), "y".to_string())));
    assert_eq!(status_of(&reg, b), TaskStatus::InProgress);
    assert_eq!(reg.active_count(), 1);
}

#[test]
fn complete_with_error_fails_the_task() {
    let mut reg = TaskRegistry::new(4, 10);
    let a = reg.create("a".into(), "x".into(), "u".into(), None, TaskStatus::InProgress);
    reg.take_effects();
    reg.complete(a, None, Some("boom".into()));
    assert_eq!(status_of(&reg, a), TaskStatus::Failed);
    let effects = reg.take_effects();
    assert!(effects.iter().any(|e| matches!(e, Effect::Broadcast(TaskEvent::Completed { task_id, status: TaskStatus::Failed, .. }) if *task_id == a)));
}

#[test]
fn block_then_approve_resumes_with_reply() {
    let mut reg = TaskRegistry::new(4, 10);
    let a = reg.create("a".into(), "x".into(), "u".into(), None, TaskStatus::InProgress);
    assert!(!reg.approve(a, "early".into()));
    assert!(reg.block(a, "proceed?".into()));
    assert_eq!(status_of(&reg, a), TaskStatus::Blocked);
    assert_eq!(reg.get(a).unwrap().blocked_on.as_deref(), Some("proceed?"));
    reg.take_effects();
    assert!(reg.approve(a, "yes".into()));
    assert_eq!(status_of(&reg, a), TaskStatus::InProgress);
    assert!(reg.get(a).unwrap().blocked_on.is_none());
    let effects = reg.take_effects();
    assert!(effects.iter().any(|e| matches!(e, Effect::Reply { task_id, response } if *task_id == a && response == "yes")));
    assert!(!reg.block(99, "q".into()));
    assert!(!reg.approve(99, "r".into()));
}

#[test]
fn kill_fails_the_task() {
    let mut reg = TaskRegistry::new(4, 10);
    let a = reg.create("a".into(), "x".into(), "u".into(), None, TaskStatus::InProgress);
    assert!(reg.kill(a));
    assert_eq!(status_of(&reg, a), TaskStatus::Failed);
    assert!(!reg.kill(42));
}

#[test]
fn list_is_most_recent_first_and_windowed() {
    let mut reg = TaskRegistry::new(4, 2);
    let a = reg.create("a".into(), "1".into(), "u".into(), None, TaskStatus::InProgress);
    let _b = reg.create("b".into(), "2".into(), "u".into(), Some(a), TaskStatus::Queued);
    let c = reg.create("a".into(), "3".into(), "u".into(), None, TaskStatus::Queued);
    let ids: Vec<u64> = reg.list(None, None, None).iter().map(|t| t.id).collect();
    assert_eq!(ids, vec![3, 2]);
    let ids: Vec<u64> = reg.list(Some("a"), None, None).iter().map(|t| t.id).collect();
    assert_eq!(ids, vec![c, a]);
    let ids: Vec<u64> = reg.list(None, Some(TaskStatus::InProgress), None).iter().map(|t| t.id).collect();
    assert_eq!(ids, vec![a]);
    let ids: Vec<u64> = reg.list(None, None, Some(Some(a))).iter().map(|t| t.id).collect();
    assert_eq!(ids, vec![2]);
    let ids: Vec<u64> = reg.list(None, None, Some(None)).iter().map(|t| t.id).collect();
    assert_eq!(ids, vec![3, 1]);
}

#[test]
fn sessions_tokens_children_and_removal() {
    let mut reg = TaskRegistry::new(4, 10);
    let a = reg.create("a".into(), "1".into(), "u".into(), None, TaskStatus::InProgress);
    let b = reg.create("b".into(), "2".into(), "a".into(), Some(a), TaskStatus::InProgress);
    assert!(reg.set_session(b, 77));
    assert!(!reg.set_session(9, 1));
    assert_eq!(reg.find_by_session(77), Some(b));
    assert_eq!(reg.find_by_session(78), None);
    reg.add_tokens(b, 10, 5);
    reg.add_tokens(b, 1, 1);
    let t = reg.get(b).unwrap();
    assert_eq!((t.prompt_tokens, t.completion_tokens), (11, 6));
    let kids: Vec<u64> = reg.children(a).iter().map(|t| t.id).collect();
    assert_eq!(kids, vec![b]);
    let removed = reg.remove(b).unwrap();
    assert_eq!(removed.id, b);
    assert!(reg.get(b).is_none());
    assert!(reg.remove(b).is_none());
}

#[test]
fn set_status_and_snapshot() {
    let mut reg = TaskRegistry::new(4, 10);
    let a = reg.create("a".into(), "d".into(), "u".into(), None, TaskStatus::Queued);
    reg.set_status(a, TaskStatus::Blocked);
    assert_eq!(status_of(&reg, a), TaskStatus::Blocked);
    let t = reg.get(a).unwrap();
    let info = task_info_at(t, t.created_at + 5);
    assert_eq!(info.alive_secs, 5);
    assert_eq!(info.agent, "a");
    let info = task_info_at(t, 0);
    assert_eq!(info.alive_secs, 0);
    assert!(t.created_at > 0);
}

#[test]
fn spawn_respects_members_and_limit() {
    let mut reg = TaskRegistry::new(1, 10);
    let members = vec!["helper".to_string()];
    let err = spawn_task(&mut reg, Some(&members), "boss", "stranger", "go".into(), None).err().unwrap();
    assert_eq!(err, "agent 'stranger' is not in your members list");
    let first = spawn_task(&mut reg, Some(&members), "boss", "helper", "go".into(), None).ok().unwrap();
    assert_eq!(first.task_id, 1);
    assert_eq!(first.status, TaskStatus::InProgress);
    assert!(first.dispatch);
    let second = spawn_task(&mut reg, None, "boss", "anyone", "later".into(), Some(1)).ok().unwrap();
    assert_eq!(second.status, TaskStatus::Queued);
    assert!(!second.dispatch);
    let empty: Vec<String> = Vec::new();
    assert!(spawn_task(&mut reg, Some(&empty), "boss", "x", "m".into(), None).is_ok());
}

#[test]
fn replies_fold_to_last_response_and_error() {
    let replies = vec![
        WatchedReply::Response { session: 1, content: "a".into() },
        WatchedReply::Other,
        WatchedReply::Error { message: "e1".into() },
        WatchedReply::Response { session: 2, content: "b".into() },
    ];
    let o = collect_replies(replies, false);
    assert_eq!(o.result.as_deref(), Some("b"));
    assert_eq!(o.session, Some(2));
    assert_eq!(o.error.as_deref(), Some("e1"));
    let o = collect_replies(vec![WatchedReply::Error { message: "e".into() }], true);
    assert_eq!(o.error.as_deref(), Some("task timed out"));
    assert!(o.result.is_none());
    let o = collect_replies(Vec::new(), false);
    assert!(o.result.is_none() && o.error.is_none() && o.session.is_none());
}

#[test]
fn finishing_a_task_frees_its_slot() {
    let mut reg = TaskRegistry::new(1, 10);
    let a = reg.create("a".into(), "1".into(), "u".into(), None, TaskStatus::InProgress);
    let b = reg.create("b".into(), "2".into(), "a".into(), Some(a), TaskStatus::Queued);
    let f = finish_task(&mut reg, a, Some("done".into()), None);
    assert_eq!(status_of(&reg, a), TaskStatus::Finished);
    assert_eq!(f.promoted, Some((b, "b".to_string(), "2".to_string())));
    assert!(f.child_sessions.is_empty());
}

#[test]
fn awaiting_checks_ids_and_blocks_the_caller() {
    let mut reg = TaskRegistry::new(4, 10);
    let me = reg.create("me".into(), "boss".into(), "u".into(), None, TaskStatus::InProgress);
    let a = reg.create("a".into(), "1".into(), "me".into(), Some(me), TaskStatus::InProgress);
    assert_eq!(begin_await(&mut reg, &[], Some(me)).err().unwrap(), "no task IDs provided");
    assert_eq!(begin_await(&mut reg, &[a, 42, 43], Some(me)).err().unwrap(), "task 42 not found");
    assert_eq!(status_of(&reg, me), TaskStatus::InProgress);
    assert!(begin_await(&mut reg, &[a], Some(me)).is_ok());
    assert_eq!(status_of(&reg, me), TaskStatus::Blocked);
    assert!(begin_await(&mut reg, &[a], None).is_ok());
    reg.complete(a, Some("r".into()), None);
    assert!(is_settled(status_of(&reg, a)));
    assert!(!is_settled(TaskStatus::Queued));
    let results = await_results(&reg, &[a, 42]);
    assert_eq!(results.len(), 2);
    assert_eq!(results[0].task_id, a);
    assert_eq!(results[0].found, Some((TaskStatus::Finished, Some("r".to_string()), None)));
    assert_eq!(results[1].task_id, 42);
    assert!(results[1].found.is_none());
}

#[test]
fn awaiting_settles_then_resumes_the_caller() {
    let mut reg = TaskRegistry::new(4, 10);
    let me = reg.create("me".into(), "boss".into(), "u".into(), None, TaskStatus::InProgress);
    let a = reg.create("a".into(), "1".into(), "me".into(), Some(me), TaskStatus::InProgress);
    let b = reg.create("b".into(), "2".into(), "me".into(), Some(me), TaskStatus::InProgress);
    assert!(begin_await(&mut reg, &[a, b], Some(me)).is_ok());
    assert!(!all_settled(&reg, &[a, b]));
    reg.complete(a, Some("r".into()), None);
    assert!(!all_settled(&reg, &[a, b]));
    reg.complete(b, None, Some("boom".into()));
    assert!(all_settled(&reg, &[a, b]));
    assert_eq!(status_of(&reg, me), TaskStatus::Blocked);
    end_await(&mut reg, Some(me));
    assert_eq!(status_of(&reg, me), TaskStatus::InProgress);
    assert!(all_settled(&reg, &[]));
}
