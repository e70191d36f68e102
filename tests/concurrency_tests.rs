use spool::concurrency::{check_write, find_last_event, ConcurrencyController, Version, WriteResult};
use spool::model::{Event, Operation, Timestamp};
use spool::writer::{create_task_event, update_task_event, CreateTaskParams};

fn stamp(secs: i64) -> Timestamp {
    Timestamp { secs, nanos: 0 }
}

fn params(title: &str) -> CreateTaskParams {
    CreateTaskParams { title: title.into(), description: None, priority: None, assignee: None, tags: vec![], stream: None }
}

/// A stand-in for the wire text of an event: what the fingerprint is taken of.
fn wire(e: &Event) -> String {
    format!("{}|{}|{}|{}|{:?}", e.op.name(), e.id, e.ts.secs, e.by, e.d.title)
}

fn version_of(ctl: &mut ConcurrencyController, log: &Vec<Vec<Event>>, id: &str) -> Option<Version> {
    find_last_event(log, id).map(|e| ctl.version_of(&wire(e), &e.ts))
}

/// Appends `e` when the version found matches the one expected.
fn write(ctl: &mut ConcurrencyController, log: &mut Vec<Vec<Event>>, e: Event, expected: Option<&Version>) -> WriteResult {
    let actual = version_of(ctl, log, &e.id);
    match check_write(e.op, expected, actual.as_ref()) {
        Some(outcome) => outcome,
        None => {
            log[0].push(e);
            WriteResult::Success
        }
    }
}

#[test]
fn test_version_tracking() {
    let mut ctl = ConcurrencyController::new();
    let mut log: Vec<Vec<Event>> = vec![vec![]];
    assert!(version_of(&mut ctl, &log, "task-1").is_none());
    let event = create_task_event(&params("Test"), "task-1", stamp(1_700_000_000), "@test", "main");
    let result = write(&mut ctl, &mut log, event, None);
    assert!(matches!(result, WriteResult::Success));
    assert!(version_of(&mut ctl, &log, "task-1").is_some());
}

#[test]
fn test_conflict_detection() {
    let mut ctl = ConcurrencyController::new();
    let mut log: Vec<Vec<Event>> = vec![vec![]];
    let create = create_task_event(&params("Test"), "task-1", stamp(1_700_000_000), "@test", "main");
    write(&mut ctl, &mut log, create, None);
    let version1 = version_of(&mut ctl, &log, "task-1").unwrap();
    let other = update_task_event("task-1", Some("Updated by other"), None, None, stamp(1_700_000_001), "@other", "main").unwrap();
    assert!(matches!(write(&mut ctl, &mut log, other, Some(&version1)), WriteResult::Success));
    let version2 = Version { seq: version1.seq, ts: version1.ts.clone(), last_event_hash: version1.last_event_hash.clone() };
    let mine = update_task_event("task-1", Some("My update"), None, None, stamp(1_700_000_002), "@test", "main").unwrap();
    let result = write(&mut ctl, &mut log, mine, Some(&version2));
    assert!(matches!(result, WriteResult::Conflict { .. }));
}
