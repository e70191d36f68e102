//! The event log's data model: events, the tasks and streams they describe,
//! and the mathematical views the contracts are written over.
use vstd::prelude::*;
use crate::text::{copy_opt, copy_strs};

verus! {

/// Earliest instant a timestamp may hold (0001-01-01T00:00:00Z).
pub const MIN_SECS: i64 = -62135596800;

/// Latest whole second a timestamp may hold (9999-12-31T23:59:59Z).
pub const MAX_SECS: i64 = 253402300799;

/// An instant in UTC: seconds since the Unix epoch plus a sub-second part.
#[derive(Debug, Clone, Copy, PartialEq, Eq, Structural)]
pub struct Timestamp {
    pub secs: i64,
    pub nanos: u32,
}

impl Timestamp {
    /// Within the calendar range and with a proper sub-second part.
    pub open spec fn wf(self) -> bool {
        MIN_SECS <= self.secs <= MAX_SECS && self.nanos < 1_000_000_000
    }

    /// Strict chronological order.
    pub open spec fn before(self, other: Timestamp) -> bool {
        self.secs < other.secs || (self.secs == other.secs && self.nanos < other.nanos)
    }

    pub fn is_before(&self, other: &Timestamp) -> (r: bool)
        ensures
            r == self.before(*other),
    {
        self.secs < other.secs || (self.secs == other.secs && self.nanos < other.nanos)
    }
}

/// The closed set of event kinds.
#[derive(Debug, Clone, Copy, PartialEq, Eq, Structural)]
pub enum Operation {
    Create,
    Update,
    Assign,
    Comment,
    Link,
    Unlink,
    Complete,
    Reopen,
    Archive,
    SetStream,
    CreateStream,
    UpdateStream,
    DeleteStream,
}

/// The wire name of each operation.
pub open spec fn op_name(op: Operation) -> Seq<char> {
    match op {
        Operation::Create => "create"@,
        Operation::Update => "update"@,
        Operation::Assign => "assign"@,
        Operation::Comment => "comment"@,
        Operation::Link => "link"@,
        Operation::Unlink => "unlink"@,
        Operation::Complete => "complete"@,
        Operation::Reopen => "reopen"@,
        Operation::Archive => "archive"@,
        Operation::SetStream => "set_stream"@,
        Operation::CreateStream => "create_stream"@,
        Operation::UpdateStream => "update_stream"@,
        Operation::DeleteStream => "delete_stream"@,
    }
}

impl Operation {
    /// The wire name, as it stands in the `op` key of a log line.
    pub fn name(&self) -> (r: &'static str)
        ensures
            r@ == op_name(*self),
    {
        match self {
            Operation::Create => "create",
            Operation::Update => "update",
            Operation::Assign => "assign",
            Operation::Comment => "comment",
            Operation::Link => "link",
            Operation::Unlink => "unlink",
            Operation::Complete => "complete",
            Operation::Reopen => "reopen",
            Operation::Archive => "archive",
            Operation::SetStream => "set_stream",
            Operation::CreateStream => "create_stream",
            Operation::UpdateStream => "update_stream",
            Operation::DeleteStream => "delete_stream",
        }
    }

    /// The wire name as an owned string.
    pub fn to_string(&self) -> (r: String)
        ensures
            r@ == op_name(*self),
    {
        self.name().to_owned()
    }

    /// Reads a wire name back; unknown names give `None`.
    pub fn from_name(s: &str) -> (r: Option<Operation>)
        ensures
            r matches Some(op) ==> op_name(op) == s@,
            r is None ==> forall|op: Operation| op_name(op) != s@,
    {
        let ops = [
            Operation::Create,
            Operation::Update,
            Operation::Assign,
            Operation::Comment,
            Operation::Link,
            Operation::Unlink,
            Operation::Complete,
            Operation::Reopen,
            Operation::Archive,
            Operation::SetStream,
            Operation::CreateStream,
            Operation::UpdateStream,
            Operation::DeleteStream,
        ];
        let mut i: usize = 0;
        while i < 13
            invariant
                0 <= i <= 13,
                ops@ == seq![
                    Operation::Create,
                    Operation::Update,
                    Operation::Assign,
                    Operation::Comment,
                    Operation::Link,
                    Operation::Unlink,
                    Operation::Complete,
                    Operation::Reopen,
                    Operation::Archive,
                    Operation::SetStream,
                    Operation::CreateStream,
                    Operation::UpdateStream,
                    Operation::DeleteStream,
                ],
                forall|j: int| 0 <= j < i ==> op_name(#[trigger] ops@[j]) != s@,
            decreases 13 - i,
        {
            let op = ops[i];
            if crate::text::str_eq(op.name(), s) {
                return Some(op);
            }
            i = i + 1;
        }
        proof {
            assert forall|op: Operation| op_name(op) != s@ by {
                let k: int = match op {
                    Operation::Create => 0,
                    Operation::Update => 1,
                    Operation::Assign => 2,
                    Operation::Comment => 3,
                    Operation::Link => 4,
                    Operation::Unlink => 5,
                    Operation::Complete => 6,
                    Operation::Reopen => 7,
                    Operation::Archive => 8,
                    Operation::SetStream => 9,
                    Operation::CreateStream => 10,
                    Operation::UpdateStream => 11,
                    Operation::DeleteStream => 12,
                };
                assert(ops@[k] == op);
            }
        }
        None
    }
}

/// The operation-specific part of an event, one optional slot per key
/// that replay reads. A slot is `None` where the key is absent, null, or
/// not of the expected JSON type.
#[derive(Debug, Clone)]
pub struct Payload {
    pub title: Option<String>,
    pub description: Option<String>,
    pub priority: Option<String>,
    pub tags: Option<Vec<String>>,
    pub assignee: Option<String>,
    pub parent: Option<String>,
    pub blocks: Option<Vec<String>>,
    pub blocked_by: Option<Vec<String>>,
    pub stream: Option<String>,
    pub to: Option<String>,
    pub body: Option<String>,
    pub reference: Option<String>,
    pub rel: Option<String>,
    pub target: Option<String>,
    pub resolution: Option<String>,
    pub name: Option<String>,
}

pub struct PayloadView {
    pub title: Option<Seq<char>>,
    pub description: Option<Seq<char>>,
    pub priority: Option<Seq<char>>,
    pub tags: Option<Seq<Seq<char>>>,
    pub assignee: Option<Seq<char>>,
    pub parent: Option<Seq<char>>,
    pub blocks: Option<Seq<Seq<char>>>,
    pub blocked_by: Option<Seq<Seq<char>>>,
    pub stream: Option<Seq<char>>,
    pub to: Option<Seq<char>>,
    pub body: Option<Seq<char>>,
    pub reference: Option<Seq<char>>,
    pub rel: Option<Seq<char>>,
    pub target: Option<Seq<char>>,
    pub resolution: Option<Seq<char>>,
    pub name: Option<Seq<char>>,
}

/// View of an optional string.
pub open spec fn opt_view(o: Option<String>) -> Option<Seq<char>> {
    match o {
        Some(s) => Some(s@),
        None => None,
    }
}

/// View of an optional list of strings.
pub open spec fn opt_list_view(o: Option<Vec<String>>) -> Option<Seq<Seq<char>>> {
    match o {
        Some(v) => Some(v.deep_view()),
        None => None,
    }
}

impl View for Payload {
    type V = PayloadView;

    open spec fn view(&self) -> PayloadView {
        PayloadView {
            title: opt_view(self.title),
            description: opt_view(self.description),
            priority: opt_view(self.priority),
            tags: opt_list_view(self.tags),
            assignee: opt_view(self.assignee),
            parent: opt_view(self.parent),
            blocks: opt_list_view(self.blocks),
            blocked_by: opt_list_view(self.blocked_by),
            stream: opt_view(self.stream),
            to: opt_view(self.to),
            body: opt_view(self.body),
            reference: opt_view(self.reference),
            rel: opt_view(self.rel),
            target: opt_view(self.target),
            resolution: opt_view(self.resolution),
            name: opt_view(self.name),
        }
    }
}

impl Payload {
    /// A payload with every slot empty.
    pub fn empty() -> (r: Payload)
        ensures
            r.title is None && r.description is None && r.priority is None && r.tags is None
                && r.assignee is None && r.parent is None && r.blocks is None
                && r.blocked_by is None && r.stream is None && r.to is None && r.body is None
                && r.reference is None && r.rel is None && r.target is None
                && r.resolution is None && r.name is None,
    {
        Payload {
            title: None,
            description: None,
            priority: None,
            tags: None,
            assignee: None,
            parent: None,
            blocks: None,
            blocked_by: None,
            stream: None,
            to: None,
            body: None,
            reference: None,
            rel: None,
            target: None,
            resolution: None,
            name: None,
        }
    }
}

/// One immutable fact of the log.
#[derive(Debug, Clone)]
pub struct Event {
    pub v: u32,
    pub op: Operation,
    pub id: String,
    pub ts: Timestamp,
    pub by: String,
    pub branch: String,
    pub d: Payload,
}

pub struct EventView {
    pub v: u32,
    pub op: Operation,
    pub id: Seq<char>,
    pub ts: Timestamp,
    pub by: Seq<char>,
    pub branch: Seq<char>,
    pub d: PayloadView,
}

impl View for Event {
    type V = EventView;

    open spec fn view(&self) -> EventView {
        EventView {
            v: self.v,
            op: self.op,
            id: self.id@,
            ts: self.ts,
            by: self.by@,
            branch: self.branch@,
            d: self.d@,
        }
    }
}

/// Whether a task is still to be done.
#[derive(Debug, Clone, Copy, PartialEq, Eq, Structural)]
pub enum TaskStatus {
    Open,
    Complete,
}

/// A note attached to a task; comments are only ever appended.
#[derive(Debug, Clone)]
pub struct Comment {
    pub ts: Timestamp,
    pub by: String,
    pub body: String,
    pub reference: Option<String>,
}

pub struct CommentView {
    pub ts: Timestamp,
    pub by: Seq<char>,
    pub body: Seq<char>,
    pub reference: Option<Seq<char>>,
}

impl View for Comment {
    type V = CommentView;

    open spec fn view(&self) -> CommentView {
        CommentView { ts: self.ts, by: self.by@, body: self.body@, reference: opt_view(self.reference) }
    }
}

/// A task as replay derives it.
#[derive(Debug, Clone)]
pub struct Task {
    pub id: String,
    pub title: String,
    pub description: Option<String>,
    pub status: TaskStatus,
    pub priority: Option<String>,
    pub tags: Vec<String>,
    pub assignee: Option<String>,
    pub stream: Option<String>,
    pub created: Timestamp,
    pub created_by: String,
    pub created_branch: String,
    pub updated: Timestamp,
    pub completed: Option<Timestamp>,
    pub resolution: Option<String>,
    pub parent: Option<String>,
    pub blocks: Vec<String>,
    pub blocked_by: Vec<String>,
    pub comments: Vec<Comment>,
    pub archived: Option<String>,
}

pub struct TaskView {
    pub id: Seq<char>,
    pub title: Seq<char>,
    pub description: Option<Seq<char>>,
    pub status: TaskStatus,
    pub priority: Option<Seq<char>>,
    pub tags: Seq<Seq<char>>,
    pub assignee: Option<Seq<char>>,
    pub stream: Option<Seq<char>>,
    pub created: Timestamp,
    pub created_by: Seq<char>,
    pub created_branch: Seq<char>,
    pub updated: Timestamp,
    pub completed: Option<Timestamp>,
    pub resolution: Option<Seq<char>>,
    pub parent: Option<Seq<char>>,
    pub blocks: Seq<Seq<char>>,
    pub blocked_by: Seq<Seq<char>>,
    pub comments: Seq<CommentView>,
    pub archived: Option<Seq<char>>,
}

impl View for Task {
    type V = TaskView;

    open spec fn view(&self) -> TaskView {
        TaskView {
            id: self.id@,
            title: self.title@,
            description: opt_view(self.description),
            status: self.status,
            priority: opt_view(self.priority),
            tags: self.tags.deep_view(),
            assignee: opt_view(self.assignee),
            stream: opt_view(self.stream),
            created: self.created,
            created_by: self.created_by@,
            created_branch: self.created_branch@,
            updated: self.updated,
            completed: self.completed,
            resolution: opt_view(self.resolution),
            parent: opt_view(self.parent),
            blocks: self.blocks.deep_view(),
            blocked_by: self.blocked_by.deep_view(),
            comments: self.comments@.map_values(|c: Comment| c@),
            archived: opt_view(self.archived),
        }
    }
}

/// A workstream that groups tasks; the one entity that is hard-deleted.
#[derive(Debug, Clone)]
pub struct Stream {
    pub id: String,
    pub name: String,
    pub description: Option<String>,
    pub created: Timestamp,
    pub created_by: String,
}

pub struct StreamView {
    pub id: Seq<char>,
    pub name: Seq<char>,
    pub description: Option<Seq<char>>,
    pub created: Timestamp,
    pub created_by: Seq<char>,
}

impl View for Stream {
    type V = StreamView;

    open spec fn view(&self) -> StreamView {
        StreamView {
            id: self.id@,
            name: self.name@,
            description: opt_view(self.description),
            created: self.created,
            created_by: self.created_by@,
        }
    }
}

} // verus!

verus! {

/// A copy of a payload, slot by slot.
pub fn copy_payload(d: &Payload) -> (r: Payload)
    ensures
        r@ == d@,
{
    Payload {
        title: copy_opt(&d.title),
        description: copy_opt(&d.description),
        priority: copy_opt(&d.priority),
        tags: copy_opt_list(&d.tags),
        assignee: copy_opt(&d.assignee),
        parent: copy_opt(&d.parent),
        blocks: copy_opt_list(&d.blocks),
        blocked_by: copy_opt_list(&d.blocked_by),
        stream: copy_opt(&d.stream),
        to: copy_opt(&d.to),
        body: copy_opt(&d.body),
        reference: copy_opt(&d.reference),
        rel: copy_opt(&d.rel),
        target: copy_opt(&d.target),
        resolution: copy_opt(&d.resolution),
        name: copy_opt(&d.name),
    }
}

fn copy_opt_list(o: &Option<Vec<String>>) -> (r: Option<Vec<String>>)
    ensures
        opt_list_view(r) == opt_list_view(*o),
{
    match o {
        Some(v) => Some(copy_strs(v)),
        None => None,
    }
}

/// A copy of an event, field by field.
pub fn copy_event(e: &Event) -> (r: Event)
    ensures
        r@ == e@,
{
    Event {
        v: e.v,
        op: e.op,
        id: e.id.clone(),
        ts: e.ts,
        by: e.by.clone(),
        branch: e.branch.clone(),
        d: copy_payload(&e.d),
    }
}

} // verus!
