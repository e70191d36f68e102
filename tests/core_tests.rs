use spool::archive::{archive_candidates, plan_archive};
use spool::concurrency::{
    check_write, find_last_event, lock_is_stale, md5_hash, ConcurrencyController, RetryAction, RetryState,
    Version, WriteResult,
};
use spool::context::FabricContext;
use spool::index::build_index;
use spool::model::{Event, Operation, Payload, TaskStatus, Timestamp};
use spool::replay::{apply_event, materialize, State};
use spool::time::days_before;
use spool::validate::{orphan_warnings, strict_outcome, validate_event_file, LineFields, LineShape, ValidationResult};
use spool::writer::{
    assign_task_event, complete_task_event, create_stream_event, create_task_event, delete_stream_event,
    reopen_task_event, update_task_event, CreateTaskParams,
};

const DAY: i64 = 86400;
const NOW: i64 = 1_700_000_000; // 2023-11-14T22:13:20Z

fn at(secs: i64) -> Timestamp {
    Timestamp { secs, nanos: 0 }
}

fn params(title: &str) -> CreateTaskParams {
    CreateTaskParams {
        title: title.to_string(),
        description: None,
        priority: None,
        assignee: None,
        tags: Vec::new(),
        stream: None,
    }
}

fn create(id: &str, title: &str, secs: i64) -> Event {
    create_task_event(&params(title), id, at(secs), "@alice", "main")
}

#[test]
fn end_to_end_create_complete_archive() {
    let mut daily: Vec<Event> = vec![create("t1", "A", NOW - 90 * DAY)];
    let state = materialize(&vec![], &vec![daily.clone()], at(NOW));
    let t1 = state.get_task("t1").unwrap();
    assert_eq!(t1.status, TaskStatus::Open);
    assert_eq!(t1.title, "A");

    daily.push(complete_task_event("t1", None, at(NOW - 60 * DAY), "@alice", "main"));
    let state = materialize(&vec![], &vec![daily.clone()], at(NOW));
    assert_eq!(state.get_task("t1").unwrap().status, TaskStatus::Complete);

    let cutoff = days_before(&at(NOW), 30);
    let plan = plan_archive(&state, &vec![daily.clone()], &cutoff, at(NOW), &"main".to_string());
    assert_eq!(plan.ids, vec!["t1".to_string()]);
    assert_eq!(plan.groups.len(), 1);
    assert_eq!(plan.groups[0].month, "2023-09");
    assert_eq!(plan.groups[0].events.len(), 2);
    assert_eq!(plan.markers.len(), 1);
    assert_eq!(plan.markers[0].op, Operation::Archive);
    assert_eq!(plan.markers[0].by, "@spool");

    let archives = vec![plan.groups[0].events.clone()];
    daily.extend(plan.markers.iter().cloned());
    let state = materialize(&archives, &vec![daily.clone()], at(NOW));
    assert_eq!(state.get_task("t1").unwrap().archived, Some("2023-09".to_string()));
    let again = plan_archive(&state, &vec![daily], &cutoff, at(NOW), &"main".to_string());
    assert!(again.ids.is_empty());
    assert!(again.markers.is_empty());
}

#[test]
fn dry_run_candidates_match_plan_and_order_by_completion() {
    let daily = vec![
        create("a", "A", NOW - 100 * DAY),
        create("b", "B", NOW - 100 * DAY),
        create("c", "C", NOW - 100 * DAY),
        complete_task_event("b", Some("wontfix"), at(NOW - 80 * DAY), "@x", "main"),
        complete_task_event("a", None, at(NOW - 50 * DAY), "@x", "main"),
        complete_task_event("c", None, at(NOW - 10 * DAY), "@x", "main"),
    ];
    let state = materialize(&vec![], &vec![daily.clone()], at(NOW));
    let cutoff = days_before(&at(NOW), 30);
    let ids = archive_candidates(&state, &cutoff);
    assert_eq!(ids, vec!["b".to_string(), "a".to_string()]);
    let plan = plan_archive(&state, &vec![daily], &cutoff, at(NOW), &"main".to_string());
    assert_eq!(plan.ids, ids);
    assert_eq!(plan.groups.len(), 2);
}

#[test]
fn days_before_counts_whole_days() {
    let t = days_before(&Timestamp { secs: 1000 * DAY, nanos: 5 }, 30);
    assert_eq!(t, Timestamp { secs: 970 * DAY, nanos: 5 });
}

#[test]
fn complete_reopen_complete_keeps_latest() {
    let events = vec![
        create("t", "T", 10),
        complete_task_event("t", Some("duplicate"), at(20), "@a", "main"),
        reopen_task_event("t", at(30), "@a", "main"),
    ];
    let state = materialize(&vec![], &vec![events.clone()], at(100));
    let t = state.get_task("t").unwrap();
    assert_eq!(t.status, TaskStatus::Open);
    assert_eq!(t.completed, None);
    assert_eq!(t.resolution, None);

    let mut more = events;
    more.push(complete_task_event("t", None, at(40), "@a", "main"));
    let state = materialize(&vec![], &vec![more], at(100));
    let t = state.get_task("t").unwrap();
    assert_eq!(t.status, TaskStatus::Complete);
    assert_eq!(t.completed, Some(at(40)));
    assert_eq!(t.resolution, Some("done".to_string()));
    assert_eq!(t.updated, at(40));
}

#[test]
fn replay_is_deterministic_and_tolerant() {
    let events = vec![
        assign_task_event("ghost", Some("@bob"), at(5), "@a", "main"),
        create("t", "T", 10),
        update_task_event("t", Some("New"), None, Some("p1"), at(11), "@a", "main").unwrap(),
        assign_task_event("t", Some("@bob"), at(12), "@a", "main"),
        assign_task_event("t", None, at(13), "@a", "main"),
    ];
    let a = materialize(&vec![], &vec![events.clone()], at(1));
    let b = materialize(&vec![], &vec![events], at(2));
    assert_eq!(a.tasks.len(), 1);
    assert_eq!(b.tasks.len(), 1);
    let (ta, tb) = (&a.tasks[0], &b.tasks[0]);
    assert_eq!(ta.title, "New");
    assert_eq!(ta.priority, Some("p1".to_string()));
    assert_eq!(ta.assignee, None);
    assert_eq!(ta.updated, at(13));
    assert_eq!(ta.title, tb.title);
    assert_eq!(ta.updated, tb.updated);
    assert!(a.get_task("ghost").is_none());
}

#[test]
fn duplicate_create_overwrites() {
    let events = vec![create("t", "First", 1), create("t", "Second", 2)];
    let s = materialize(&vec![], &vec![events], at(3));
    assert_eq!(s.tasks.len(), 1);
    assert_eq!(s.get_task("t").unwrap().title, "Second");
}

#[test]
fn archives_replay_before_dailies() {
    let archive = vec![create("t", "Old", 1)];
    let daily = vec![update_task_event("t", Some("Renamed"), None, None, at(2), "@a", "main").unwrap()];
    let s = materialize(&vec![archive], &vec![daily], at(3));
    assert_eq!(s.get_task("t").unwrap().title, "Renamed");
}

fn link(id: &str, rel: &str, target: &str, op: Operation, secs: i64) -> Event {
    let mut d = Payload::empty();
    d.rel = Some(rel.to_string());
    d.target = Some(target.to_string());
    Event { v: 1, op, id: id.to_string(), ts: at(secs), by: "@a".to_string(), branch: "main".to_string(), d }
}

#[test]
fn links_are_deduplicated_and_unlinks_remove_all() {
    let mut s = State::empty(at(0));
    apply_event(&mut s, &create("t", "T", 1));
    apply_event(&mut s, &link("t", "blocks", "u", Operation::Link, 2));
    apply_event(&mut s, &link("t", "blocks", "u", Operation::Link, 3));
    apply_event(&mut s, &link("t", "blocked_by", "v", Operation::Link, 4));
    apply_event(&mut s, &link("t", "parent", "p", Operation::Link, 5));
    let t = s.get_task("t").unwrap();
    assert_eq!(t.blocks, vec!["u".to_string()]);
    assert_eq!(t.blocked_by, vec!["v".to_string()]);
    assert_eq!(t.parent, Some("p".to_string()));
    apply_event(&mut s, &link("t", "blocks", "u", Operation::Unlink, 6));
    apply_event(&mut s, &link("t", "parent", "other", Operation::Unlink, 7));
    let t = s.get_task("t").unwrap();
    assert!(t.blocks.is_empty());
    assert_eq!(t.parent, Some("p".to_string()));
    let warnings = orphan_warnings(&s);
    assert_eq!(
        warnings,
        vec![
            "Task t references non-existent blocked_by: v".to_string(),
            "Task t references non-existent parent: p".to_string(),
        ]
    );
}

#[test]
fn comments_append_in_order() {
    let mut s = State::empty(at(0));
    apply_event(&mut s, &create("t", "T", 1));
    for (i, body) in ["one", "two"].iter().enumerate() {
        let mut d = Payload::empty();
        d.body = Some(body.to_string());
        let e = Event { v: 1, op: Operation::Comment, id: "t".into(), ts: at(2 + i as i64), by: "@c".into(), branch: "main".into(), d };
        apply_event(&mut s, &e);
    }
    let t = s.get_task("t").unwrap();
    assert_eq!(t.comments.len(), 2);
    assert_eq!(t.comments[0].body, "one");
    assert_eq!(t.comments[1].body, "two");
    assert_eq!(t.comments[1].by, "@c");
}

#[test]
fn streams_are_created_updated_and_deleted() {
    let events = vec![
        create_stream_event("s1", "Backend", Some("API"), at(1), "@a", "main"),
        create_stream_event("s2", "Frontend", None, at(2), "@a", "main"),
        delete_stream_event("s1", at(3), "@a", "main"),
        delete_stream_event("missing", at(4), "@a", "main"),
    ];
    let s = materialize(&vec![], &vec![events], at(5));
    assert!(s.get_stream("s1").is_none());
    assert_eq!(s.get_stream("s2").unwrap().name, "Frontend");
    assert_eq!(s.streams.len(), 1);
}

#[test]
fn update_without_fields_is_refused() {
    assert!(update_task_event("t", None, None, None, at(1), "@a", "main").is_err());
}

fn version(hash: &str) -> Version {
    Version { seq: 0, ts: "2024-01-01T00:00:00+00:00".to_string(), last_event_hash: hash.to_string() }
}

#[test]
fn stale_version_conflicts_and_fresh_one_passes() {
    let mut ctl = ConcurrencyController::new();
    let old = ctl.version_of("{\"op\":\"create\"}", &at(NOW));
    let fresh = ctl.version_of("{\"op\":\"update\"}", &at(NOW + 1));
    assert_eq!(old.seq, 0);
    assert_eq!(fresh.seq, 1);
    assert_ne!(old.last_event_hash, fresh.last_event_hash);
    assert!(matches!(
        check_write(Operation::Update, Some(&old), Some(&fresh)),
        Some(WriteResult::Conflict { .. })
    ));
    assert!(check_write(Operation::Update, Some(&fresh), Some(&fresh)).is_none());
}

#[test]
fn write_checks_for_existence() {
    let v = version("abc");
    assert!(check_write(Operation::Create, None, None).is_none());
    assert!(matches!(check_write(Operation::Create, None, Some(&v)), Some(WriteResult::Error(m)) if m == "Task already exists"));
    assert!(matches!(check_write(Operation::Update, None, None), Some(WriteResult::Error(m)) if m == "Task does not exist"));
    assert!(matches!(check_write(Operation::Update, Some(&v), None), Some(WriteResult::Error(_))));
    assert!(matches!(check_write(Operation::Update, None, Some(&v)), Some(WriteResult::Error(_))));
}

#[test]
fn retry_stops_after_max_retries_with_doubling_delay() {
    let conflict = WriteResult::Conflict { expected_version: version("a"), actual_version: version("b") };
    let mut st = RetryState::new();
    assert_eq!(st.next(&conflict, 3), RetryAction::RetryAfter(10));
    assert_eq!(st.next(&conflict, 3), RetryAction::RetryAfter(20));
    assert_eq!(st.next(&conflict, 3), RetryAction::RetryAfter(40));
    assert_eq!(st.next(&conflict, 3), RetryAction::Finish);
    assert_eq!(st.retries, 3);
    let mut st = RetryState::new();
    assert_eq!(st.next(&WriteResult::Success, 3), RetryAction::Finish);
    assert_eq!(st.next(&WriteResult::Error("x".into()), 3), RetryAction::Finish);
}

#[test]
fn fingerprint_values() {
    assert_eq!(md5_hash(""), 0);
    // ((0 + 97 * 1) * 31) = 3007
    assert_eq!(md5_hash("a"), 3007);
    // ((3007 + 98 * 2) * 31) = 99293
    assert_eq!(md5_hash("ab"), 99293);
}

#[test]
fn last_event_is_found_newest_first() {
    let f1 = vec![create("t", "T", 1), create("u", "U", 2)];
    let f2 = vec![update_task_event("t", Some("X"), None, None, at(3), "@a", "main").unwrap(), create("v", "V", 4)];
    let files = vec![f1, f2];
    assert_eq!(find_last_event(&files, "t").unwrap().ts, at(3));
    assert_eq!(find_last_event(&files, "u").unwrap().ts, at(2));
    assert!(find_last_event(&files, "w").is_none());
}

#[test]
fn lock_staleness() {
    let now = at(1_704_067_261); // 2024-01-01T00:01:01Z
    assert!(lock_is_stale("123:2024-01-01T00:00:00+00:00\n", &now));
    assert!(!lock_is_stale("123:2024-01-01T00:00:30+00:00\n", &now));
    assert!(!lock_is_stale("123:garbage", &now));
    assert!(!lock_is_stale("no separator", &now));
}

fn fields(keys: &[&str], v: Option<u64>, op: Option<&str>, id: Option<&str>, ts: Option<&str>) -> LineShape {
    LineShape::Parsed(LineFields {
        keys: keys.iter().map(|k| k.to_string()).collect(),
        version: v,
        op: op.map(String::from),
        id: id.map(String::from),
        ts: ts.map(String::from),
    })
}

const ALL: [&str; 7] = ["v", "op", "id", "ts", "by", "branch", "d"];

#[test]
fn validator_reports_each_problem() {
    let lines = vec![
        LineShape::Unparseable("expected value at line 1 column 1".to_string()),
        LineShape::Blank,
        fields(&["v", "op", "id"], Some(1), Some("create"), Some("t1"), None),
        fields(&ALL, Some(2), Some("create"), Some("t1"), Some("2024-01-01T00:00:00Z")),
        fields(&ALL, Some(1), Some("update"), Some("t9"), Some("yesterday")),
    ];
    let (mut errors, mut warnings, mut created) = (Vec::new(), Vec::new(), Vec::new());
    validate_event_file("2024-01-01.jsonl", &lines, &mut errors, &mut warnings, &mut created);
    assert_eq!(
        errors,
        vec![
            "2024-01-01.jsonl:1: Invalid JSON: expected value at line 1 column 1",
            "2024-01-01.jsonl:3: Missing required field 'ts'",
            "2024-01-01.jsonl:3: Missing required field 'by'",
            "2024-01-01.jsonl:3: Missing required field 'branch'",
            "2024-01-01.jsonl:3: Missing required field 'd'",
            "2024-01-01.jsonl:5: Invalid timestamp format: yesterday",
        ]
    );
    assert_eq!(
        warnings,
        vec![
            "2024-01-01.jsonl:4: Unknown schema version 2",
            "2024-01-01.jsonl:4: Duplicate create for task t1",
            "2024-01-01.jsonl:5: Event for task t9 before create",
        ]
    );
    assert_eq!(created, vec!["t1".to_string()]);
}

#[test]
fn strict_mode_fails_on_errors_then_warnings() {
    let r = ValidationResult { errors: vec!["e".into(), "f".into()], warnings: vec!["w".into()] };
    assert_eq!(strict_outcome(&r, true), Err("Validation failed with 2 errors".to_string()));
    assert_eq!(strict_outcome(&r, false), Ok(()));
    let r = ValidationResult { errors: vec![], warnings: vec!["w".into()] };
    assert_eq!(strict_outcome(&r, true), Err("Validation failed with 1 warnings (--strict mode)".to_string()));
    let r = ValidationResult { errors: vec![], warnings: vec![] };
    assert_eq!(strict_outcome(&r, true), Ok(()));
}

#[test]
fn index_tracks_status_dates_and_files() {
    let d1 = vec![create("t", "T", NOW), create("u", "U", NOW)];
    let d2 = vec![
        complete_task_event("t", None, at(NOW + DAY), "@a", "main"),
        assign_task_event("orphan", None, at(NOW + DAY), "@a", "main"),
    ];
    let names = vec!["2023-11-14.jsonl".to_string(), "2023-11-15.jsonl".to_string()];
    let idx = build_index(&names, &vec![d1, d2], at(NOW));
    assert_eq!(idx.tasks.len(), 2);
    let t = idx.tasks.iter().find(|e| e.id == "t").unwrap();
    assert_eq!(t.info.status, TaskStatus::Complete);
    assert_eq!(t.info.created, "2023-11-14");
    assert_eq!(t.info.updated, "2023-11-15");
    assert_eq!(t.info.completed, Some("2023-11-15".to_string()));
    assert_eq!(t.info.files, names);
    let u = idx.tasks.iter().find(|e| e.id == "u").unwrap();
    assert_eq!(u.info.files, vec!["2023-11-14.jsonl".to_string()]);
}

#[test]
fn context_paths() {
    let ctx = FabricContext::new("/repo/.spool");
    assert_eq!(ctx.events_dir, "/repo/.spool/events");
    assert_eq!(ctx.archive_dir, "/repo/.spool/archive");
    assert_eq!(ctx.index_path(), "/repo/.spool/.index.json");
    assert_eq!(ctx.state_path(), "/repo/.spool/.state.json");
    assert_eq!(ctx.daily_file("2024-01-02"), "/repo/.spool/events/2024-01-02.jsonl");
    assert_eq!(FabricContext::new("root/").archive_file("2024-01"), "root/archive/2024-01.jsonl");
}

#[test]
fn validate_runs_reference_check_only_without_errors() {
    let clean = vec![("2024-01-01.jsonl".to_string(), vec![fields(&ALL, Some(1), Some("create"), Some("t"), Some("2024-01-01T00:00:00Z"))])];
    let mut s = State::empty(at(0));
    apply_event(&mut s, &create("t", "T", 1));
    apply_event(&mut s, &link("t", "blocks", "nobody", Operation::Link, 2));
    let (result, outcome) = spool::validate::validate(&clean, Some(&s), false);
    assert!(result.errors.is_empty());
    assert_eq!(result.warnings, vec!["Task t references non-existent blocks: nobody".to_string()]);
    assert_eq!(outcome, Ok(()));
    let (_, strict) = spool::validate::validate(&clean, Some(&s), true);
    assert_eq!(strict, Err("Validation failed with 1 warnings (--strict mode)".to_string()));

    let broken = vec![("x.jsonl".to_string(), vec![LineShape::Unparseable("eof".to_string())])];
    let (result, outcome) = spool::validate::validate(&broken, Some(&s), true);
    assert_eq!(result.errors, vec!["x.jsonl:1: Invalid JSON: eof".to_string()]);
    assert!(result.warnings.is_empty());
    assert_eq!(outcome, Err("Validation failed with 1 errors".to_string()));
}

#[test]
fn archive_tasks_dry_run_writes_nothing() {
    let daily = vec![create("t", "T", NOW - 90 * DAY), complete_task_event("t", None, at(NOW - 60 * DAY), "@a", "main")];
    let state = materialize(&vec![], &vec![daily.clone()], at(NOW));
    let dry = spool::archive::archive_tasks(&state, &vec![daily.clone()], at(NOW), 30, true, &"main".to_string());
    assert_eq!(dry.ids, vec!["t".to_string()]);
    assert!(dry.groups.is_empty() && dry.markers.is_empty());
    let real = spool::archive::archive_tasks(&state, &vec![daily.clone()], at(NOW), 30, false, &"main".to_string());
    assert_eq!(real.ids, dry.ids);
    assert_eq!(real.markers.len(), 1);
    assert_eq!(real.markers[0].d.reference, Some("2023-09".to_string()));
    let none = spool::archive::archive_tasks(&state, &vec![daily], at(NOW), 90, false, &"main".to_string());
    assert!(none.ids.is_empty());
}

#[test]
fn events_for_unknown_subjects_are_counted() {
    let events = vec![
        assign_task_event("ghost", Some("@bob"), at(1), "@a", "main"),
        create("t", "T", 2),
        complete_task_event("t", None, at(3), "@a", "main"),
        delete_stream_event("nowhere", at(4), "@a", "main"),
    ];
    let mut s = State::empty(at(0));
    let missed = spool::replay::apply_events(&mut s, &events);
    assert_eq!(missed, 2);
    assert_eq!(s.tasks.len(), 1);
    assert!(apply_event(&mut s, &reopen_task_event("t", at(5), "@a", "main")));
    assert!(!apply_event(&mut s, &reopen_task_event("u", at(6), "@a", "main")));
}

#[test]
fn version_records_time_and_hex_fingerprint() {
    let mut ctl = ConcurrencyController::new();
    let v = ctl.version_of("ab", &at(0));
    assert_eq!(v.ts, "1970-01-01T00:00:00+00:00");
    // 99293 in hexadecimal
    assert_eq!(v.last_event_hash, "183dd");
    assert_eq!(ctl.next_seq, 1);
}
