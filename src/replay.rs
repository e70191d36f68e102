//! The replay engine: folds an ordered event sequence into the current
//! task and stream maps.
use vstd::prelude::*;
use crate::model::{
    opt_list_view, opt_view, Comment, CommentView, Event, EventView, Operation, Stream,
    StreamView, Task, TaskStatus, TaskView, Timestamp,
};
use crate::text::{contains_str, copy_opt, copy_strs, remove_all, str_eq, without};

verus! {

/// The derived state without its rebuild time: what replay determines.
pub struct Projection {
    pub tasks: Seq<TaskView>,
    pub streams: Seq<StreamView>,
}

/// The projection of an empty log.
pub open spec fn empty_projection() -> Projection {
    Projection { tasks: Seq::empty(), streams: Seq::empty() }
}

pub open spec fn task_views(ts: Seq<Task>) -> Seq<TaskView> {
    ts.map_values(|t: Task| t@)
}

pub open spec fn stream_views(ss: Seq<Stream>) -> Seq<StreamView> {
    ss.map_values(|s: Stream| s@)
}

pub open spec fn event_views(es: Seq<Event>) -> Seq<EventView> {
    es.map_values(|e: Event| e@)
}

/// The views of a list of files, each a list of events.
pub open spec fn file_views(fs: Seq<Vec<Event>>) -> Seq<Seq<EventView>> {
    fs.map_values(|f: Vec<Event>| event_views(f@))
}

pub open spec fn has_task(ts: Seq<TaskView>, id: Seq<char>) -> bool {
    exists|i: int| 0 <= i < ts.len() && #[trigger] ts[i].id == id
}

/// Where the task with this id stands (meaningful when `has_task`).
pub open spec fn task_index(ts: Seq<TaskView>, id: Seq<char>) -> int {
    choose|i: int| 0 <= i < ts.len() && #[trigger] ts[i].id == id
}

pub open spec fn has_stream(ss: Seq<StreamView>, id: Seq<char>) -> bool {
    exists|i: int| 0 <= i < ss.len() && #[trigger] ss[i].id == id
}

pub open spec fn stream_index(ss: Seq<StreamView>, id: Seq<char>) -> int {
    choose|i: int| 0 <= i < ss.len() && #[trigger] ss[i].id == id
}

/// No id is held by two tasks, nor by two streams.
pub open spec fn unique_tasks(ts: Seq<TaskView>) -> bool {
    forall|i: int, j: int|
        0 <= i < ts.len() && 0 <= j < ts.len() && #[trigger] ts[i].id == #[trigger] ts[j].id
            ==> i == j
}

pub open spec fn unique_streams(ss: Seq<StreamView>) -> bool {
    forall|i: int, j: int|
        0 <= i < ss.len() && 0 <= j < ss.len() && #[trigger] ss[i].id == #[trigger] ss[j].id
            ==> i == j
}

pub open spec fn projection_wf(p: Projection) -> bool {
    unique_tasks(p.tasks) && unique_streams(p.streams)
}

pub open spec fn opt_or(o: Option<Seq<char>>, dflt: Seq<char>) -> Seq<char> {
    match o {
        Some(s) => s,
        None => dflt,
    }
}

pub open spec fn list_or_empty(o: Option<Seq<Seq<char>>>) -> Seq<Seq<char>> {
    match o {
        Some(s) => s,
        None => Seq::empty(),
    }
}

/// The task that a Create event writes.
pub open spec fn created_task(e: EventView) -> TaskView {
    TaskView {
        id: e.id,
        title: opt_or(e.d.title, Seq::empty()),
        description: e.d.description,
        status: TaskStatus::Open,
        priority: e.d.priority,
        tags: list_or_empty(e.d.tags),
        assignee: e.d.assignee,
        stream: e.d.stream,
        created: e.ts,
        created_by: e.by,
        created_branch: e.branch,
        updated: e.ts,
        completed: None,
        resolution: None,
        parent: e.d.parent,
        blocks: list_or_empty(e.d.blocks),
        blocked_by: list_or_empty(e.d.blocked_by),
        comments: Seq::empty(),
        archived: None,
    }
}

/// Adds `x` unless the list holds it already.
pub open spec fn push_unique(v: Seq<Seq<char>>, x: Seq<char>) -> Seq<Seq<char>> {
    if v.contains(x) {
        v
    } else {
        v.push(x)
    }
}

pub open spec fn linked(t: TaskView, rel: Seq<char>, target: Seq<char>) -> TaskView {
    if rel == "blocks"@ {
        TaskView { blocks: push_unique(t.blocks, target), ..t }
    } else if rel == "blocked_by"@ {
        TaskView { blocked_by: push_unique(t.blocked_by, target), ..t }
    } else if rel == "parent"@ {
        TaskView { parent: Some(target), ..t }
    } else {
        t
    }
}

pub open spec fn unlinked(t: TaskView, rel: Seq<char>, target: Seq<char>) -> TaskView {
    if rel == "blocks"@ {
        TaskView { blocks: without(t.blocks, target), ..t }
    } else if rel == "blocked_by"@ {
        TaskView { blocked_by: without(t.blocked_by, target), ..t }
    } else if rel == "parent"@ {
        if t.parent == Some(target) {
            TaskView { parent: None, ..t }
        } else {
            t
        }
    } else {
        t
    }
}

/// What an event other than Create does to the task it names, before the
/// `updated` stamp.
pub open spec fn edited_fields(t: TaskView, e: EventView) -> TaskView {
    match e.op {
        Operation::Update => TaskView {
            title: opt_or(e.d.title, t.title),
            description: if e.d.description is Some { e.d.description } else { t.description },
            priority: if e.d.priority is Some { e.d.priority } else { t.priority },
            tags: if e.d.tags is Some { e.d.tags.unwrap() } else { t.tags },
            ..t
        },
        Operation::Assign => TaskView { assignee: e.d.to, ..t },
        Operation::Comment => TaskView {
            comments: t.comments.push(
                CommentView {
                    ts: e.ts,
                    by: e.by,
                    body: opt_or(e.d.body, Seq::empty()),
                    reference: e.d.reference,
                },
            ),
            ..t
        },
        Operation::Link => if e.d.rel is Some && e.d.target is Some {
            linked(t, e.d.rel.unwrap(), e.d.target.unwrap())
        } else {
            t
        },
        Operation::Unlink => if e.d.rel is Some && e.d.target is Some {
            unlinked(t, e.d.rel.unwrap(), e.d.target.unwrap())
        } else {
            t
        },
        Operation::Complete => TaskView {
            status: TaskStatus::Complete,
            completed: Some(e.ts),
            resolution: Some(opt_or(e.d.resolution, "done"@)),
            ..t
        },
        Operation::Reopen => TaskView {
            status: TaskStatus::Open,
            completed: None,
            resolution: None,
            ..t
        },
        Operation::Archive => TaskView { archived: e.d.reference, ..t },
        Operation::SetStream => TaskView { stream: e.d.stream, ..t },
        _ => t,
    }
}

/// What an event other than Create does to the task it names.
pub open spec fn edited_task(t: TaskView, e: EventView) -> TaskView {
    TaskView { updated: e.ts, ..edited_fields(t, e) }
}

pub open spec fn created_stream(e: EventView) -> StreamView {
    StreamView {
        id: e.id,
        name: opt_or(e.d.name, Seq::empty()),
        description: e.d.description,
        created: e.ts,
        created_by: e.by,
    }
}

pub open spec fn edited_stream(s: StreamView, e: EventView) -> StreamView {
    StreamView {
        name: opt_or(e.d.name, s.name),
        description: if e.d.description is Some { e.d.description } else { s.description },
        ..s
    }
}

/// One step of replay. Events naming an unknown task or stream change nothing.
pub open spec fn apply(p: Projection, e: EventView) -> Projection {
    match e.op {
        Operation::Create => Projection {
            tasks: if has_task(p.tasks, e.id) {
                p.tasks.update(task_index(p.tasks, e.id), created_task(e))
            } else {
                p.tasks.push(created_task(e))
            },
            ..p
        },
        Operation::CreateStream => Projection {
            streams: if has_stream(p.streams, e.id) {
                p.streams.update(stream_index(p.streams, e.id), created_stream(e))
            } else {
                p.streams.push(created_stream(e))
            },
            ..p
        },
        Operation::UpdateStream => Projection {
            streams: if has_stream(p.streams, e.id) {
                p.streams.update(
                    stream_index(p.streams, e.id),
                    edited_stream(p.streams[stream_index(p.streams, e.id)], e),
                )
            } else {
                p.streams
            },
            ..p
        },
        Operation::DeleteStream => Projection {
            streams: if has_stream(p.streams, e.id) {
                p.streams.remove(stream_index(p.streams, e.id))
            } else {
                p.streams
            },
            ..p
        },
        _ => Projection {
            tasks: if has_task(p.tasks, e.id) {
                p.tasks.update(
                    task_index(p.tasks, e.id),
                    edited_task(p.tasks[task_index(p.tasks, e.id)], e),
                )
            } else {
                p.tasks
            },
            ..p
        },
    }
}

/// Replays `es`, in order, on top of `p`.
pub open spec fn replay_from(p: Projection, es: Seq<EventView>) -> Projection
    decreases es.len(),
{
    if es.len() == 0 {
        p
    } else {
        apply(replay_from(p, es.drop_last()), es.last())
    }
}

/// Replays a list of files, in order, on top of `p`.
pub open spec fn replay_files(p: Projection, fs: Seq<Seq<EventView>>) -> Projection
    decreases fs.len(),
{
    if fs.len() == 0 {
        p
    } else {
        replay_from(replay_files(p, fs.drop_last()), fs.last())
    }
}

/// The projection of the whole store: archive files first, then daily files.
pub open spec fn materialized(archives: Seq<Seq<EventView>>, dailies: Seq<Seq<EventView>>) -> Projection {
    replay_files(replay_files(empty_projection(), archives), dailies)
}

/// The derived state of the store.
pub struct State {
    pub tasks: Vec<Task>,
    pub streams: Vec<Stream>,
    pub rebuilt: Timestamp,
}

impl State {
    pub open spec fn projection(&self) -> Projection {
        Projection { tasks: task_views(self.tasks@), streams: stream_views(self.streams@) }
    }

    pub open spec fn wf(&self) -> bool {
        projection_wf(self.projection())
    }

    /// A state with no tasks and no streams.
    pub fn empty(rebuilt: Timestamp) -> (r: State)
        ensures
            r.projection() == empty_projection(),
            r.rebuilt == rebuilt,
            r.wf(),
    {
        let r = State { tasks: Vec::new(), streams: Vec::new(), rebuilt };
        assert(r.projection().tasks =~= Seq::<TaskView>::empty());
        assert(r.projection().streams =~= Seq::<StreamView>::empty());
        r
    }

    /// The task with this id, if the state has one.
    pub fn get_task(&self, id: &str) -> (r: Option<&Task>)
        ensures
            r matches Some(t) ==> t@.id == id@ && self.projection().tasks.contains(t@),
            r is None ==> !has_task(self.projection().tasks, id@),
    {
        match find_task(&self.tasks, id) {
            Some(i) => {
                assert(self.projection().tasks[i as int] == self.tasks@[i as int]@);
                Some(&self.tasks[i])
            },
            None => None,
        }
    }

    /// The stream with this id, if the state has one.
    pub fn get_stream(&self, id: &str) -> (r: Option<&Stream>)
        ensures
            r matches Some(s) ==> s@.id == id@ && self.projection().streams.contains(s@),
            r is None ==> !has_stream(self.projection().streams, id@),
    {
        match find_stream(&self.streams, id) {
            Some(i) => {
                assert(self.projection().streams[i as int] == self.streams@[i as int]@);
                Some(&self.streams[i])
            },
            None => None,
        }
    }
}

pub proof fn lemma_task_index(ts: Seq<TaskView>, i: int)
    requires
        unique_tasks(ts),
        0 <= i < ts.len(),
    ensures
        has_task(ts, ts[i].id),
        task_index(ts, ts[i].id) == i,
{
    assert(has_task(ts, ts[i].id));
    let k = task_index(ts, ts[i].id);
    assert(ts[k].id == ts[i].id);
}

proof fn lemma_stream_index(ss: Seq<StreamView>, i: int)
    requires
        unique_streams(ss),
        0 <= i < ss.len(),
    ensures
        has_stream(ss, ss[i].id),
        stream_index(ss, ss[i].id) == i,
{
    assert(has_stream(ss, ss[i].id));
    let k = stream_index(ss, ss[i].id);
    assert(ss[k].id == ss[i].id);
}

fn find_task(tasks: &Vec<Task>, id: &str) -> (r: Option<usize>)
    ensures
        r matches Some(i) ==> i < tasks.len() && tasks@[i as int]@.id == id@,
        r is None ==> !has_task(task_views(tasks@), id@),
{
    let mut i: usize = 0;
    while i < tasks.len()
        invariant
            0 <= i <= tasks.len(),
            forall|j: int| 0 <= j < i ==> tasks@[j]@.id != id@,
        decreases tasks.len() - i,
    {
        if str_eq(tasks[i].id.as_str(), id) {
            return Some(i);
        }
        i = i + 1;
    }
    proof {
        let ts = task_views(tasks@);
        assert forall|j: int| 0 <= j < ts.len() implies #[trigger] ts[j].id != id@ by {
            assert(ts[j] == tasks@[j]@);
        }
    }
    None
}

fn find_stream(streams: &Vec<Stream>, id: &str) -> (r: Option<usize>)
    ensures
        r matches Some(i) ==> i < streams.len() && streams@[i as int]@.id == id@,
        r is None ==> !has_stream(stream_views(streams@), id@),
{
    let mut i: usize = 0;
    while i < streams.len()
        invariant
            0 <= i <= streams.len(),
            forall|j: int| 0 <= j < i ==> streams@[j]@.id != id@,
        decreases streams.len() - i,
    {
        if str_eq(streams[i].id.as_str(), id) {
            return Some(i);
        }
        i = i + 1;
    }
    proof {
        let ss = stream_views(streams@);
        assert forall|j: int| 0 <= j < ss.len() implies #[trigger] ss[j].id != id@ by {
            assert(ss[j] == streams@[j]@);
        }
    }
    None
}

fn copy_list(o: &Option<Vec<String>>) -> (r: Vec<String>)
    ensures
        r.deep_view() == list_or_empty(opt_list_view(*o)),
{
    match o {
        Some(v) => copy_strs(v),
        None => {
            let r: Vec<String> = Vec::new();
            assert(r.deep_view() =~= Seq::<Seq<char>>::empty());
            r
        },
    }
}

fn copy_or(o: &Option<String>, dflt: &str) -> (r: String)
    ensures
        r@ == opt_or(opt_view(*o), dflt@),
{
    match o {
        Some(s) => s.clone(),
        None => dflt.to_owned(),
    }
}

fn copy_comment(c: &Comment) -> (r: Comment)
    ensures
        r@ == c@,
{
    Comment { ts: c.ts, by: c.by.clone(), body: c.body.clone(), reference: copy_opt(&c.reference) }
}

fn copy_comments(v: &Vec<Comment>) -> (r: Vec<Comment>)
    ensures
        r@.map_values(|c: Comment| c@) == v@.map_values(|c: Comment| c@),
{
    let mut out: Vec<Comment> = Vec::new();
    let mut i: usize = 0;
    while i < v.len()
        invariant
            0 <= i <= v.len(),
            out@.len() == i,
            forall|j: int| 0 <= j < i ==> out@[j]@ == v@[j]@,
        decreases v.len() - i,
    {
        let c = copy_comment(&v[i]);
        out.push(c);
        i = i + 1;
    }
    assert(out@.map_values(|c: Comment| c@) =~= v@.map_values(|c: Comment| c@));
    out
}

/// A copy of a task, field by field.
pub fn copy_task(t: &Task) -> (r: Task)
    ensures
        r@ == t@,
{
    Task {
        id: t.id.clone(),
        title: t.title.clone(),
        description: copy_opt(&t.description),
        status: t.status,
        priority: copy_opt(&t.priority),
        tags: copy_strs(&t.tags),
        assignee: copy_opt(&t.assignee),
        stream: copy_opt(&t.stream),
        created: t.created,
        created_by: t.created_by.clone(),
        created_branch: t.created_branch.clone(),
        updated: t.updated,
        completed: t.completed,
        resolution: copy_opt(&t.resolution),
        parent: copy_opt(&t.parent),
        blocks: copy_strs(&t.blocks),
        blocked_by: copy_strs(&t.blocked_by),
        comments: copy_comments(&t.comments),
        archived: copy_opt(&t.archived),
    }
}

fn new_task(e: &Event) -> (r: Task)
    ensures
        r@ == created_task(e@),
{
    let r = Task {
        id: e.id.clone(),
        title: copy_or(&e.d.title, ""),
        description: copy_opt(&e.d.description),
        status: TaskStatus::Open,
        priority: copy_opt(&e.d.priority),
        tags: copy_list(&e.d.tags),
        assignee: copy_opt(&e.d.assignee),
        stream: copy_opt(&e.d.stream),
        created: e.ts,
        created_by: e.by.clone(),
        created_branch: e.branch.clone(),
        updated: e.ts,
        completed: None,
        resolution: None,
        parent: copy_opt(&e.d.parent),
        blocks: copy_list(&e.d.blocks),
        blocked_by: copy_list(&e.d.blocked_by),
        comments: Vec::new(),
        archived: None,
    };
    proof {
        reveal_strlit("");
        assert(r@.comments =~= Seq::<CommentView>::empty());
        assert(r@.title =~= opt_or(e@.d.title, Seq::empty()));
    }
    r
}

fn push_unique_str(v: &mut Vec<String>, x: &str)
    ensures
        final(v).deep_view() == push_unique(old(v).deep_view(), x@),
{
    if !contains_str(v, x) {
        v.push(x.to_owned());
        assert(final(v).deep_view() =~= old(v).deep_view().push(x@));
    }
}

fn link_task(t: &mut Task, rel: &str, target: &str)
    ensures
        final(t)@ == linked(old(t)@, rel@, target@),
{
    if str_eq(rel, "blocks") {
        push_unique_str(&mut t.blocks, target);
    } else if str_eq(rel, "blocked_by") {
        push_unique_str(&mut t.blocked_by, target);
    } else if str_eq(rel, "parent") {
        t.parent = Some(target.to_owned());
    }
}

fn unlink_task(t: &mut Task, rel: &str, target: &str)
    ensures
        final(t)@ == unlinked(old(t)@, rel@, target@),
{
    if str_eq(rel, "blocks") {
        t.blocks = remove_all(&t.blocks, target);
    } else if str_eq(rel, "blocked_by") {
        t.blocked_by = remove_all(&t.blocked_by, target);
    } else if str_eq(rel, "parent") {
        let same = match &t.parent {
            Some(p) => str_eq(p.as_str(), target),
            None => false,
        };
        if same {
            t.parent = None;
        }
    }
}

fn edit_task(t: &Task, e: &Event) -> (r: Task)
    ensures
        r@ == edited_task(t@, e@),
{
    let mut r = copy_task(t);
    match e.op {
        Operation::Update => {
            if let Some(title) = &e.d.title {
                r.title = title.clone();
            }
            if let Some(desc) = &e.d.description {
                r.description = Some(desc.clone());
            }
            if let Some(p) = &e.d.priority {
                r.priority = Some(p.clone());
            }
            if let Some(tags) = &e.d.tags {
                r.tags = copy_strs(tags);
            }
        },
        Operation::Assign => {
            r.assignee = copy_opt(&e.d.to);
        },
        Operation::Comment => {
            let c = Comment {
                ts: e.ts,
                by: e.by.clone(),
                body: copy_or(&e.d.body, ""),
                reference: copy_opt(&e.d.reference),
            };
            proof {
                reveal_strlit("");
                assert(c@.body =~= opt_or(e@.d.body, Seq::empty()));
            }
            r.comments.push(c);
            assert(r@.comments =~= t@.comments.push(c@));
        },
        Operation::Link => {
            if let (Some(rel), Some(target)) = (&e.d.rel, &e.d.target) {
                link_task(&mut r, rel.as_str(), target.as_str());
            }
        },
        Operation::Unlink => {
            if let (Some(rel), Some(target)) = (&e.d.rel, &e.d.target) {
                unlink_task(&mut r, rel.as_str(), target.as_str());
            }
        },
        Operation::Complete => {
            r.status = TaskStatus::Complete;
            r.completed = Some(e.ts);
            r.resolution = Some(copy_or(&e.d.resolution, "done"));
        },
        Operation::Reopen => {
            r.status = TaskStatus::Open;
            r.completed = None;
            r.resolution = None;
        },
        Operation::Archive => {
            r.archived = copy_opt(&e.d.reference);
        },
        Operation::SetStream => {
            r.stream = copy_opt(&e.d.stream);
        },
        _ => {},
    }
    r.updated = e.ts;
    r
}

fn new_stream(e: &Event) -> (r: Stream)
    ensures
        r@ == created_stream(e@),
{
    let r = Stream {
        id: e.id.clone(),
        name: copy_or(&e.d.name, ""),
        description: copy_opt(&e.d.description),
        created: e.ts,
        created_by: e.by.clone(),
    };
    proof {
        reveal_strlit("");
        assert(r@.name =~= opt_or(e@.d.name, Seq::empty()));
    }
    r
}

fn edit_stream(s: &Stream, e: &Event) -> (r: Stream)
    ensures
        r@ == edited_stream(s@, e@),
{
    let mut r = Stream {
        id: s.id.clone(),
        name: s.name.clone(),
        description: copy_opt(&s.description),
        created: s.created,
        created_by: s.created_by.clone(),
    };
    if let Some(name) = &e.d.name {
        r.name = name.clone();
    }
    if let Some(desc) = &e.d.description {
        r.description = Some(desc.clone());
    }
    r
}

/// Whether an event names something replay can act on: creations always
/// do; every other event needs its task (or stream) to exist.
pub open spec fn finds_target(p: Projection, e: EventView) -> bool {
    match e.op {
        Operation::Create | Operation::CreateStream => true,
        Operation::UpdateStream | Operation::DeleteStream => has_stream(p.streams, e.id),
        _ => has_task(p.tasks, e.id),
    }
}

/// How many of `es`, replayed on top of `p`, named an unknown task or stream.
pub open spec fn skipped(p: Projection, es: Seq<EventView>) -> nat
    decreases es.len(),
{
    if es.len() == 0 {
        0
    } else {
        skipped(p, es.drop_last()) + if finds_target(replay_from(p, es.drop_last()), es.last()) { 0nat } else { 1nat }
    }
}

/// Applies one event to the state. Events whose task or stream is unknown
/// leave it as it was; the result tells whether the event found its target.
pub fn apply_event(state: &mut State, e: &Event) -> (applied: bool)
    requires
        old(state).wf(),
    ensures
        applied == finds_target(old(state).projection(), e@),
        final(state).wf(),
        final(state).projection() == apply(old(state).projection(), e@),
        final(state).rebuilt == old(state).rebuilt,
{
    let ghost p0 = state.projection();
    match e.op {
        Operation::Create => {
            let t = new_task(e);
            match find_task(&state.tasks, e.id.as_str()) {
                Some(i) => {
                    proof { lemma_task_index(p0.tasks, i as int); }
                    state.tasks.set(i, t);
                    assert(state.projection().tasks =~= p0.tasks.update(i as int, created_task(e@)));
                    true
                },
                None => {
                    state.tasks.push(t);
                    assert(state.projection().tasks =~= p0.tasks.push(created_task(e@)));
                    true
                },
            }
        },
        Operation::CreateStream => {
            let s = new_stream(e);
            match find_stream(&state.streams, e.id.as_str()) {
                Some(i) => {
                    proof { lemma_stream_index(p0.streams, i as int); }
                    state.streams.set(i, s);
                    assert(state.projection().streams =~= p0.streams.update(i as int, created_stream(e@)));
                    true
                },
                None => {
                    state.streams.push(s);
                    assert(state.projection().streams =~= p0.streams.push(created_stream(e@)));
                    true
                },
            }
        },
        Operation::UpdateStream => {
            match find_stream(&state.streams, e.id.as_str()) {
                Some(i) => {
                    proof { lemma_stream_index(p0.streams, i as int); }
                    let s = edit_stream(&state.streams[i], e);
                    state.streams.set(i, s);
                    assert(state.projection().streams =~= p0.streams.update(
                        i as int,
                        edited_stream(p0.streams[i as int], e@),
                    ));
                    true
                },
                None => false,
            }
        },
        Operation::DeleteStream => {
            match find_stream(&state.streams, e.id.as_str()) {
                Some(i) => {
                    proof { lemma_stream_index(p0.streams, i as int); }
                    state.streams.remove(i);
                    assert(state.projection().streams =~= p0.streams.remove(i as int));
                    true
                },
                None => false,
            }
        },
        _ => {
            match find_task(&state.tasks, e.id.as_str()) {
                Some(i) => {
                    proof { lemma_task_index(p0.tasks, i as int); }
                    let t = edit_task(&state.tasks[i], e);
                    state.tasks.set(i, t);
                    assert(state.projection().tasks =~= p0.tasks.update(
                        i as int,
                        edited_task(p0.tasks[i as int], e@),
                    ));
                    true
                },
                None => false,
            }
        },
    }
}

/// Applies a file's events in order, and counts those that named an
/// unknown task or stream.
pub fn apply_events(state: &mut State, events: &Vec<Event>) -> (missed: usize)
    requires
        old(state).wf(),
    ensures
        missed == skipped(old(state).projection(), event_views(events@)),
        final(state).wf(),
        final(state).projection() == replay_from(old(state).projection(), event_views(events@)),
        final(state).rebuilt == old(state).rebuilt,
{
    let ghost p0 = state.projection();
    let mut missed: usize = 0;
    let mut i: usize = 0;
    while i < events.len()
        invariant
            0 <= i <= events.len(),
            missed <= i,
            state.wf(),
            state.projection() == replay_from(p0, event_views(events@).subrange(0, i as int)),
            missed == skipped(p0, event_views(events@).subrange(0, i as int)),
            state.rebuilt == old(state).rebuilt,
        decreases events.len() - i,
    {
        proof {
            let s = event_views(events@).subrange(0, i + 1);
            assert(s.drop_last() =~= event_views(events@).subrange(0, i as int));
            assert(s.last() == events@[i as int]@);
        }
        if !apply_event(state, &events[i]) {
            missed = missed + 1;
        }
        i = i + 1;
    }
    assert(event_views(events@).subrange(0, events.len() as int) =~= event_views(events@));
    missed
}

fn apply_files(state: &mut State, files: &Vec<Vec<Event>>)
    requires
        old(state).wf(),
    ensures
        final(state).wf(),
        final(state).projection() == replay_files(old(state).projection(), file_views(files@)),
        final(state).rebuilt == old(state).rebuilt,
{
    let ghost p0 = state.projection();
    let mut i: usize = 0;
    while i < files.len()
        invariant
            0 <= i <= files.len(),
            state.wf(),
            state.projection() == replay_files(p0, file_views(files@).subrange(0, i as int)),
            state.rebuilt == old(state).rebuilt,
        decreases files.len() - i,
    {
        apply_events(state, &files[i]);
        proof {
            let s = file_views(files@).subrange(0, i + 1);
            assert(s.drop_last() =~= file_views(files@).subrange(0, i as int));
            assert(s.last() == event_views(files@[i as int]@));
        }
        i = i + 1;
    }
    assert(file_views(files@).subrange(0, files.len() as int) =~= file_views(files@));
}

/// Replays the store from empty maps: every archive file, oldest first,
/// then every daily file, oldest first.
pub fn materialize(archives: &Vec<Vec<Event>>, dailies: &Vec<Vec<Event>>, rebuilt: Timestamp) -> (r: State)
    ensures
        r.wf(),
        r.projection() == materialized(file_views(archives@), file_views(dailies@)),
        r.rebuilt == rebuilt,
{
    let mut state = State::empty(rebuilt);
    apply_files(&mut state, archives);
    apply_files(&mut state, dailies);
    state
}

} // verus!

verus! {

proof fn lemma_edit_step(p: Projection, e: EventView)
    requires
        projection_wf(p),
        has_task(p.tasks, e.id),
        e.op != Operation::Create,
        e.op != Operation::CreateStream,
        e.op != Operation::UpdateStream,
        e.op != Operation::DeleteStream,
    ensures
        projection_wf(apply(p, e)),
        has_task(apply(p, e).tasks, e.id),
        task_index(apply(p, e).tasks, e.id) == task_index(p.tasks, e.id),
        apply(p, e).tasks[task_index(p.tasks, e.id)] == edited_task(p.tasks[task_index(p.tasks, e.id)], e),
{
    let i = task_index(p.tasks, e.id);
    let q = apply(p, e);
    assert(q.tasks == p.tasks.update(i, edited_task(p.tasks[i], e)));
    assert(q.tasks[i].id == e.id);
    assert forall|a: int, b: int|
        0 <= a < q.tasks.len() && 0 <= b < q.tasks.len() && #[trigger] q.tasks[a].id
            == #[trigger] q.tasks[b].id implies a == b by {
        assert(q.tasks[a].id == p.tasks[a].id);
        assert(q.tasks[b].id == p.tasks[b].id);
    }
    lemma_task_index(q.tasks, i);
}

proof fn lemma_replay_concat(p: Projection, a: Seq<EventView>, b: Seq<EventView>)
    ensures
        replay_from(p, a + b) == replay_from(replay_from(p, a), b),
    decreases b.len(),
{
    if b.len() == 0 {
        assert(a + b =~= a);
    } else {
        lemma_replay_concat(p, a, b.drop_last());
        assert((a + b).drop_last() =~= a + b.drop_last());
        assert((a + b).last() == b.last());
    }
}

proof fn lemma_replay_files(p: Projection, fs: Seq<Seq<EventView>>)
    ensures
        replay_files(p, fs) == replay_from(p, fs.flatten_alt()),
    decreases fs.len(),
{
    if fs.len() == 0 {
        assert(fs.flatten_alt() =~= Seq::<EventView>::empty());
    } else {
        lemma_replay_files(p, fs.drop_last());
        lemma_replay_concat(p, fs.drop_last().flatten_alt(), fs.last());
    }
}

/// Materialization depends on the ordered event sequence alone: replaying
/// the archive files and then the daily files gives the projection of
/// replaying all their events, in that order, from empty maps, however the
/// events are split into files; so two replays of the same sequence agree.
pub proof fn materialize_is_deterministic(archives: Seq<Seq<EventView>>, dailies: Seq<Seq<EventView>>)
    ensures
        materialized(archives, dailies) == replay_from(
            empty_projection(),
            archives.flatten_alt() + dailies.flatten_alt(),
        ),
{
    lemma_replay_files(empty_projection(), archives);
    lemma_replay_files(replay_files(empty_projection(), archives), dailies);
    lemma_replay_concat(empty_projection(), archives.flatten_alt(), dailies.flatten_alt());
}

/// Reopen on a known task sets it open and clears both its completion time
/// and its resolution, whatever they held.
pub proof fn reopen_clears_completion(p: Projection, r: EventView)
    requires
        projection_wf(p),
        has_task(p.tasks, r.id),
        r.op == Operation::Reopen,
    ensures
        ({
            let q = apply(p, r);
            let t = q.tasks[task_index(q.tasks, r.id)];
            &&& has_task(q.tasks, r.id)
            &&& t.status == TaskStatus::Open
            &&& t.completed is None
            &&& t.resolution is None
        }),
{
    lemma_edit_step(p, r);
}

/// Complete, then Reopen, then Complete on one known task leaves it complete
/// with only the last completion's time and resolution.
pub proof fn complete_reopen_complete(p: Projection, c1: EventView, r: EventView, c2: EventView)
    requires
        projection_wf(p),
        has_task(p.tasks, c1.id),
        c1.op == Operation::Complete,
        r.op == Operation::Reopen,
        c2.op == Operation::Complete,
        r.id == c1.id,
        c2.id == c1.id,
    ensures
        ({
            let q = replay_from(p, seq![c1, r, c2]);
            let t = q.tasks[task_index(q.tasks, c1.id)];
            &&& has_task(q.tasks, c1.id)
            &&& t.status == TaskStatus::Complete
            &&& t.completed == Some(c2.ts)
            &&& t.resolution == Some(opt_or(c2.d.resolution, "done"@))
        }),
{
    let s = seq![c1, r, c2];
    assert(s.drop_last() =~= seq![c1, r]);
    assert(s.drop_last().drop_last() =~= seq![c1]);
    assert(s.drop_last().drop_last().drop_last() =~= Seq::<EventView>::empty());
    let p1 = apply(p, c1);
    lemma_edit_step(p, c1);
    let p2 = apply(p1, r);
    lemma_edit_step(p1, r);
    lemma_edit_step(p2, c2);
    assert(replay_from(p, Seq::<EventView>::empty()) == p);
    assert(seq![c1].drop_last() =~= Seq::<EventView>::empty());
    assert(seq![c1].last() == c1);
    assert(replay_from(p, seq![c1]) == p1);
    assert(seq![c1, r].last() == r);
    assert(replay_from(p, seq![c1, r]) == p2);
}

} // verus!
