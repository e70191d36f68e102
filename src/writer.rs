//! The events that each write appends: what a create, update, completion,
//! assignment or stream change records in the log.
use vstd::prelude::*;
use crate::model::{opt_view, Event, EventView, Operation, Payload, PayloadView, Timestamp};
use crate::text::{copy_opt, copy_strs};

verus! {

/// What a new task starts with.
pub struct CreateTaskParams {
    pub title: String,
    pub description: Option<String>,
    pub priority: Option<String>,
    pub assignee: Option<String>,
    pub tags: Vec<String>,
    pub stream: Option<String>,
}

/// A payload whose slots are all empty.
pub open spec fn no_payload() -> PayloadView {
    PayloadView {
        title: None,
        description: None,
        priority: None,
        tags: None,
        assignee: None,
        parent: None,
        blocks: None,
        blocked_by: None,
        stream: None,
        to: None,
        body: None,
        reference: None,
        rel: None,
        target: None,
        resolution: None,
        name: None,
    }
}

/// An event of the current schema with the given parts.
pub open spec fn fact(op: Operation, id: Seq<char>, ts: Timestamp, by: Seq<char>, branch: Seq<char>, d: PayloadView) -> EventView {
    EventView { v: 1, op, id, ts, by, branch, d }
}

fn event(op: Operation, id: &str, ts: Timestamp, by: &str, branch: &str, d: Payload) -> (r: Event)
    ensures
        r@ == fact(op, id@, ts, by@, branch@, d@),
{
    Event { v: 1, op, id: id.to_owned(), ts, by: by.to_owned(), branch: branch.to_owned(), d }
}

/// The Create event of a new task with id `id`; tags are recorded only
/// when there are some.
pub fn create_task_event(params: &CreateTaskParams, id: &str, ts: Timestamp, by: &str, branch: &str) -> (r: Event)
    ensures
        r@ == fact(Operation::Create, id@, ts, by@, branch@, PayloadView {
            title: Some(params.title@),
            description: opt_view(params.description),
            priority: opt_view(params.priority),
            assignee: opt_view(params.assignee),
            tags: if params.tags@.len() > 0 { Some(params.tags.deep_view()) } else { None },
            stream: opt_view(params.stream),
            ..no_payload()
        }),
{
    let mut d = Payload::empty();
    d.title = Some(params.title.clone());
    d.description = copy_opt(&params.description);
    d.priority = copy_opt(&params.priority);
    d.assignee = copy_opt(&params.assignee);
    if params.tags.len() > 0 {
        d.tags = Some(copy_strs(&params.tags));
    }
    d.stream = copy_opt(&params.stream);
    event(Operation::Create, id, ts, by, branch, d)
}

/// The Update event of the fields given; with none given there is nothing
/// to record.
pub fn update_task_event(
    id: &str,
    title: Option<&str>,
    description: Option<&str>,
    priority: Option<&str>,
    ts: Timestamp,
    by: &str,
    branch: &str,
) -> (r: Result<Event, String>)
    ensures
        title is None && description is None && priority is None ==> r is Err,
        !(title is None && description is None && priority is None) ==> (r matches Ok(e) && e@ == fact(
            Operation::Update,
            id@,
            ts,
            by@,
            branch@,
            PayloadView {
                title: match title { Some(t) => Some(t@), None => None },
                description: match description { Some(t) => Some(t@), None => None },
                priority: match priority { Some(t) => Some(t@), None => None },
                ..no_payload()
            },
        )),
{
    if title.is_none() && description.is_none() && priority.is_none() {
        return Err("No fields to update".to_owned());
    }
    let mut d = Payload::empty();
    d.title = match title { Some(t) => Some(t.to_owned()), None => None };
    d.description = match description { Some(t) => Some(t.to_owned()), None => None };
    d.priority = match priority { Some(t) => Some(t.to_owned()), None => None };
    Ok(event(Operation::Update, id, ts, by, branch, d))
}

/// The Complete event; the resolution defaults to `done`.
pub fn complete_task_event(id: &str, resolution: Option<&str>, ts: Timestamp, by: &str, branch: &str) -> (r: Event)
    ensures
        r@ == fact(Operation::Complete, id@, ts, by@, branch@, PayloadView {
            resolution: Some(match resolution { Some(x) => x@, None => "done"@ }),
            ..no_payload()
        }),
{
    let mut d = Payload::empty();
    d.resolution = Some(match resolution { Some(x) => x.to_owned(), None => "done".to_owned() });
    event(Operation::Complete, id, ts, by, branch, d)
}

/// The Reopen event.
pub fn reopen_task_event(id: &str, ts: Timestamp, by: &str, branch: &str) -> (r: Event)
    ensures
        r@ == fact(Operation::Reopen, id@, ts, by@, branch@, no_payload()),
{
    event(Operation::Reopen, id, ts, by, branch, Payload::empty())
}

/// The Assign event; `None` unassigns.
pub fn assign_task_event(id: &str, assignee: Option<&str>, ts: Timestamp, by: &str, branch: &str) -> (r: Event)
    ensures
        r@ == fact(Operation::Assign, id@, ts, by@, branch@, PayloadView {
            to: match assignee { Some(a) => Some(a@), None => None },
            ..no_payload()
        }),
{
    let mut d = Payload::empty();
    d.to = match assignee { Some(a) => Some(a.to_owned()), None => None };
    event(Operation::Assign, id, ts, by, branch, d)
}

/// The SetStream event; `None` takes the task out of its stream.
pub fn set_stream_event(id: &str, stream: Option<&str>, ts: Timestamp, by: &str, branch: &str) -> (r: Event)
    ensures
        r@ == fact(Operation::SetStream, id@, ts, by@, branch@, PayloadView {
            stream: match stream { Some(a) => Some(a@), None => None },
            ..no_payload()
        }),
{
    let mut d = Payload::empty();
    d.stream = match stream { Some(a) => Some(a.to_owned()), None => None };
    event(Operation::SetStream, id, ts, by, branch, d)
}

/// The CreateStream event of a new stream with id `id`.
pub fn create_stream_event(id: &str, name: &str, description: Option<&str>, ts: Timestamp, by: &str, branch: &str) -> (r: Event)
    ensures
        r@ == fact(Operation::CreateStream, id@, ts, by@, branch@, PayloadView {
            name: Some(name@),
            description: match description { Some(a) => Some(a@), None => None },
            ..no_payload()
        }),
{
    let mut d = Payload::empty();
    d.name = Some(name.to_owned());
    d.description = match description { Some(a) => Some(a.to_owned()), None => None };
    event(Operation::CreateStream, id, ts, by, branch, d)
}

/// The UpdateStream event of the fields given; with none given there is
/// nothing to record.
pub fn update_stream_event(
    id: &str,
    name: Option<&str>,
    description: Option<&str>,
    ts: Timestamp,
    by: &str,
    branch: &str,
) -> (r: Result<Event, String>)
    ensures
        name is None && description is None ==> r is Err,
        !(name is None && description is None) ==> (r matches Ok(e) && e@ == fact(
            Operation::UpdateStream,
            id@,
            ts,
            by@,
            branch@,
            PayloadView {
                name: match name { Some(t) => Some(t@), None => None },
                description: match description { Some(t) => Some(t@), None => None },
                ..no_payload()
            },
        )),
{
    if name.is_none() && description.is_none() {
        return Err("No fields to update".to_owned());
    }
    let mut d = Payload::empty();
    d.name = match name { Some(t) => Some(t.to_owned()), None => None };
    d.description = match description { Some(t) => Some(t.to_owned()), None => None };
    Ok(event(Operation::UpdateStream, id, ts, by, branch, d))
}

/// The DeleteStream event.
pub fn delete_stream_event(id: &str, ts: Timestamp, by: &str, branch: &str) -> (r: Event)
    ensures
        r@ == fact(Operation::DeleteStream, id@, ts, by@, branch@, no_payload()),
{
    event(Operation::DeleteStream, id, ts, by, branch, Payload::empty())
}

} // verus!
