use spool::model::{Event, Operation, Payload, Timestamp};
use spool::replay::materialize;
use spool::validate::{validate, LineFields, LineShape, ValidationResult};

fn text(v: &serde_json::Value, key: &str) -> Option<String> {
    v.get(key).and_then(|x| x.as_str()).map(String::from)
}

fn texts(v: &serde_json::Value, key: &str) -> Option<Vec<String>> {
    v.get(key).and_then(|x| x.as_array()).map(|a| a.iter().filter_map(|x| x.as_str().map(String::from)).collect())
}

/// Reads one log line strictly, as replay does; `None` when it is malformed.
fn event_of(line: &str) -> Option<Event> {
    let v: serde_json::Value = serde_json::from_str(line).ok()?;
    for key in ["v", "op", "id", "ts", "by", "branch", "d"] {
        v.get(key)?;
    }
    let d = &v["d"];
    let t = chrono::DateTime::parse_from_rfc3339(v["ts"].as_str()?).ok()?.with_timezone(&chrono::Utc);
    Some(Event {
        v: v["v"].as_u64()? as u32,
        op: Operation::from_name(v["op"].as_str()?)?,
        id: text(&v, "id")?,
        ts: Timestamp { secs: t.timestamp(), nanos: t.timestamp_subsec_nanos() },
        by: text(&v, "by")?,
        branch: text(&v, "branch")?,
        d: Payload {
            title: text(d, "title"),
            description: text(d, "description"),
            priority: text(d, "priority"),
            tags: texts(d, "tags"),
            assignee: text(d, "assignee"),
            parent: text(d, "parent"),
            blocks: texts(d, "blocks"),
            blocked_by: texts(d, "blocked_by"),
            stream: text(d, "stream"),
            to: text(d, "to"),
            body: text(d, "body"),
            reference: text(d, "ref"),
            rel: text(d, "rel"),
            target: text(d, "target"),
            resolution: text(d, "resolution"),
            name: text(d, "name"),
        },
    })
}

/// Reads one log line tolerantly, as the validator does.
fn shape_of(line: &str) -> LineShape {
    if line.trim().is_empty() {
        return LineShape::Blank;
    }
    match serde_json::from_str::<serde_json::Value>(line) {
        Err(e) => LineShape::Unparseable(e.to_string()),
        Ok(v) => LineShape::Parsed(LineFields {
            keys: v.as_object().map(|m| m.keys().cloned().collect()).unwrap_or_default(),
            version: v.get("v").and_then(|x| x.as_u64()),
            op: text(&v, "op"),
            id: text(&v, "id"),
            ts: text(&v, "ts"),
        }),
    }
}

/// Validates daily files, then archive files, as the tool lays them out.
fn check(dailies: &[(&str, &[&str])], archives: &[(&str, &[&str])], strict: bool) -> (ValidationResult, Result<(), String>) {
    let mut files = Vec::new();
    let mut replayed: Option<(Vec<Vec<Event>>, Vec<Vec<Event>>)> = Some((Vec::new(), Vec::new()));
    for (is_archive, list) in [(false, dailies), (true, archives)] {
        for (name, lines) in list {
            files.push((name.to_string(), lines.iter().map(|l| shape_of(l)).collect::<Vec<_>>()));
            let parsed: Option<Vec<Event>> = lines.iter().filter(|l| !l.trim().is_empty()).map(|l| event_of(l)).collect();
            replayed = match (replayed, parsed) {
                (Some((mut a, mut d)), Some(evs)) => {
                    if is_archive { a.push(evs) } else { d.push(evs) }
                    Some((a, d))
                }
                _ => None,
            };
        }
    }
    let state = replayed.map(|(a, d)| materialize(&a, &d, Timestamp { secs: 0, nanos: 0 }));
    validate(&files, state.as_ref(), strict)
}

#[test]
fn test_validation_empty_fabric() {
    let (result, outcome) = check(&[], &[], false);
    assert!(outcome.is_ok());
    assert!(result.errors.is_empty());
    assert!(result.warnings.is_empty());
}

#[test]
fn test_validation_valid_events() {
    let lines: &[&str] = &[
        r#"{"v": 1, "op": "create", "id": "task-001", "ts": "2024-01-15T10:00:00Z", "by": "tester", "branch": "main", "d": {"title": "Valid Task"}}"#,
        r#"{"v": 1, "op": "update", "id": "task-001", "ts": "2024-01-15T11:00:00Z", "by": "tester", "branch": "main", "d": {"title": "Updated Task"}}"#,
    ];
    let (result, outcome) = check(&[("2024-01-15.jsonl", lines)], &[], false);
    assert!(outcome.is_ok());
    assert!(result.errors.is_empty());
    assert!(result.warnings.is_empty());
}

#[test]
fn test_validation_invalid_json() {
    let lines: &[&str] = &[
        "not valid json at all",
        r#"{"v":1,"op":"create","id":"task-001","ts":"2024-01-15T10:00:00Z","by":"tester","branch":"main","d":{}}"#,
    ];
    let (result, outcome) = check(&[("2024-01-15.jsonl", lines)], &[], false);
    assert!(outcome.is_ok());
    assert!(!result.errors.is_empty());
    assert!(result.errors.iter().any(|e| e.contains("Invalid JSON")));
}

#[test]
fn test_validation_missing_required_field() {
    let lines: &[&str] = &[r#"{"v":1,"op":"create","id":"task-001","ts":"2024-01-15T10:00:00Z","branch":"main","d":{}}"#];
    let (result, _) = check(&[("2024-01-15.jsonl", lines)], &[], false);
    assert!(!result.errors.is_empty());
    assert!(result.errors.iter().any(|e| e.contains("Missing required field 'by'")));
}

#[test]
fn test_validation_invalid_timestamp() {
    let lines: &[&str] = &[r#"{"v":1,"op":"create","id":"task-001","ts":"not-a-timestamp","by":"tester","branch":"main","d":{}}"#];
    let (result, _) = check(&[("2024-01-15.jsonl", lines)], &[], false);
    assert!(!result.errors.is_empty());
    assert!(result.errors.iter().any(|e| e.contains("Invalid timestamp")));
}

#[test]
fn test_validation_unknown_schema_version() {
    let lines: &[&str] = &[r#"{"v":99,"op":"create","id":"task-001","ts":"2024-01-15T10:00:00Z","by":"tester","branch":"main","d":{}}"#];
    let (result, _) = check(&[("2024-01-15.jsonl", lines)], &[], false);
    assert!(!result.warnings.is_empty());
    assert!(result.warnings.iter().any(|w| w.contains("Unknown schema version")));
}

#[test]
fn test_validation_event_before_create() {
    let lines: &[&str] = &[r#"{"v":1,"op":"update","id":"task-orphan","ts":"2024-01-15T10:00:00Z","by":"tester","branch":"main","d":{}}"#];
    let (result, _) = check(&[("2024-01-15.jsonl", lines)], &[], false);
    assert!(!result.warnings.is_empty());
    assert!(result.warnings.iter().any(|w| w.contains("before create")));
}

#[test]
fn test_validation_duplicate_create() {
    let lines: &[&str] = &[
        r#"{"v": 1, "op": "create", "id": "task-dup", "ts": "2024-01-15T10:00:00Z", "by": "tester", "branch": "main", "d": {}}"#,
        r#"{"v": 1, "op": "create", "id": "task-dup", "ts": "2024-01-15T11:00:00Z", "by": "tester", "branch": "main", "d": {}}"#,
    ];
    let (result, _) = check(&[("2024-01-15.jsonl", lines)], &[], false);
    assert!(!result.warnings.is_empty());
    assert!(result.warnings.iter().any(|w| w.contains("Duplicate create")));
}

#[test]
fn test_validation_orphaned_blocked_by() {
    let lines: &[&str] = &[
        r#"{"v": 1, "op": "create", "id": "task-ref", "ts": "2024-01-15T10:00:00Z", "by": "tester", "branch": "main", "d": {"title": "Task with orphan ref", "blocked_by": ["nonexistent-task"]}}"#,
    ];
    let (result, _) = check(&[("2024-01-15.jsonl", lines)], &[], false);
    assert!(!result.warnings.is_empty());
    assert!(result.warnings.iter().any(|w| w.contains("non-existent blocked_by")));
}

#[test]
fn test_validation_strict_mode_errors() {
    let lines: &[&str] = &["invalid json"];
    let (_, outcome) = check(&[("2024-01-15.jsonl", lines)], &[], true);
    assert!(outcome.is_err());
    assert!(outcome.unwrap_err().contains("errors"));
}

#[test]
fn test_validation_strict_mode_warnings() {
    let lines: &[&str] = &[r#"{"v":1,"op":"update","id":"orphan","ts":"2024-01-15T10:00:00Z","by":"tester","branch":"main","d":{}}"#];
    let (_, outcome) = check(&[("2024-01-15.jsonl", lines)], &[], true);
    assert!(outcome.is_err());
    assert!(outcome.unwrap_err().contains("warnings"));
}

#[test]
fn test_validation_empty_lines_ignored() {
    let lines: &[&str] = &[
        "",
        r#"{"v":1,"op":"create","id":"task-001","ts":"2024-01-15T10:00:00Z","by":"tester","branch":"main","d":{}}"#,
        "   ",
        "",
    ];
    let (result, _) = check(&[("2024-01-15.jsonl", lines)], &[], false);
    assert!(result.errors.is_empty());
}

#[test]
fn test_validation_archive_files() {
    let lines: &[&str] = &[
        r#"{"v": 1, "op": "create", "id": "archived-task", "ts": "2023-12-01T10:00:00Z", "by": "tester", "branch": "main", "d": {"title": "Archived Task"}}"#,
    ];
    let (result, _) = check(&[], &[("2023-12.jsonl", lines)], false);
    assert!(result.errors.is_empty());
    assert!(result.warnings.is_empty());
}
