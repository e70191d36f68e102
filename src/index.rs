//! The lean per-task index, built from the daily files alone: status,
//! dates, archive marker, and which files mention the task.
use vstd::prelude::*;
use crate::model::{opt_view, Event, EventView, Operation, TaskStatus, Timestamp};
use crate::replay::{event_views, file_views};
use crate::text::{copy_opt, str_eq};
use crate::time::{day_key, utc_date_text};

verus! {

/// Status and dates of one task in the index.
#[derive(Debug)]
pub struct TaskIndex {
    pub status: TaskStatus,
    pub created: String,
    pub updated: String,
    pub completed: Option<String>,
    /// Names of the daily files holding an event of the task, in file order.
    pub files: Vec<String>,
    pub archived: Option<String>,
}

/// One row of the index.
#[derive(Debug)]
pub struct IndexEntry {
    pub id: String,
    pub info: TaskIndex,
}

/// The index of the daily files.
#[derive(Debug)]
pub struct Index {
    pub tasks: Vec<IndexEntry>,
    pub rebuilt: Timestamp,
}

/// A row without its file list.
pub struct RowView {
    pub id: Seq<char>,
    pub status: TaskStatus,
    pub created: Seq<char>,
    pub updated: Seq<char>,
    pub completed: Option<Seq<char>>,
    pub archived: Option<Seq<char>>,
}

pub open spec fn row_view(e: IndexEntry) -> RowView {
    RowView {
        id: e.id@,
        status: e.info.status,
        created: e.info.created@,
        updated: e.info.updated@,
        completed: opt_view(e.info.completed),
        archived: opt_view(e.info.archived),
    }
}

pub open spec fn row_views(es: Seq<IndexEntry>) -> Seq<RowView> {
    es.map_values(|e: IndexEntry| row_view(e))
}

pub open spec fn has_row(rs: Seq<RowView>, id: Seq<char>) -> bool {
    exists|i: int| 0 <= i < rs.len() && #[trigger] rs[i].id == id
}

pub open spec fn row_index(rs: Seq<RowView>, id: Seq<char>) -> int {
    choose|i: int| 0 <= i < rs.len() && #[trigger] rs[i].id == id
}

pub open spec fn unique_rows(rs: Seq<RowView>) -> bool {
    forall|i: int, j: int|
        0 <= i < rs.len() && 0 <= j < rs.len() && #[trigger] rs[i].id == #[trigger] rs[j].id ==> i == j
}

/// The day of an event.
pub open spec fn day_of(e: EventView) -> Seq<char> {
    utc_date_text(e.ts.secs)
}

/// What one event does to an existing row.
pub open spec fn bumped(r: RowView, e: EventView) -> RowView {
    match e.op {
        Operation::Complete => RowView {
            status: TaskStatus::Complete,
            updated: day_of(e),
            completed: Some(day_of(e)),
            ..r
        },
        Operation::Reopen => RowView { status: TaskStatus::Open, updated: day_of(e), completed: None, ..r },
        Operation::Archive => RowView { updated: day_of(e), archived: e.d.reference, ..r },
        _ => RowView { updated: day_of(e), ..r },
    }
}

pub open spec fn fresh_row(e: EventView) -> RowView {
    RowView {
        id: e.id,
        status: TaskStatus::Open,
        created: day_of(e),
        updated: day_of(e),
        completed: None,
        archived: None,
    }
}

/// One step of indexing; events of ids never created change nothing.
pub open spec fn index_step(rs: Seq<RowView>, e: EventView) -> Seq<RowView> {
    if e.op == Operation::Create {
        if has_row(rs, e.id) {
            rs.update(row_index(rs, e.id), fresh_row(e))
        } else {
            rs.push(fresh_row(e))
        }
    } else if has_row(rs, e.id) {
        rs.update(row_index(rs, e.id), bumped(rs[row_index(rs, e.id)], e))
    } else {
        rs
    }
}

pub open spec fn index_rows(es: Seq<EventView>) -> Seq<RowView>
    decreases es.len(),
{
    if es.len() == 0 {
        Seq::empty()
    } else {
        index_step(index_rows(es.drop_last()), es.last())
    }
}

/// The names of the files that hold an event of `id`, in file order.
pub open spec fn files_touching(names: Seq<Seq<char>>, files: Seq<Seq<EventView>>, id: Seq<char>) -> Seq<Seq<char>>
    decreases files.len(),
{
    if files.len() == 0 || names.len() == 0 {
        Seq::empty()
    } else {
        let prev = files_touching(names.drop_last(), files.drop_last(), id);
        if exists|k: int| 0 <= k < files.last().len() && #[trigger] files.last()[k].id == id {
            prev.push(names.last())
        } else {
            prev
        }
    }
}

/// Every event of every file carries a timestamp within the calendar range.
pub open spec fn times_wf(files: Seq<Seq<EventView>>) -> bool {
    forall|i: int, k: int| 0 <= i < files.len() && 0 <= k < files[i].len() ==> (#[trigger] files[i][k]).ts.wf()
}

proof fn lemma_row_index(rs: Seq<RowView>, i: int)
    requires
        unique_rows(rs),
        0 <= i < rs.len(),
    ensures
        has_row(rs, rs[i].id),
        row_index(rs, rs[i].id) == i,
{
    assert(has_row(rs, rs[i].id));
    let k = row_index(rs, rs[i].id);
    assert(rs[k].id == rs[i].id);
}

fn find_row(rows: &Vec<IndexEntry>, id: &str) -> (r: Option<usize>)
    ensures
        r matches Some(i) ==> i < rows.len() && rows@[i as int].id@ == id@,
        r is None ==> !has_row(row_views(rows@), id@),
{
    let mut i: usize = 0;
    while i < rows.len()
        invariant
            0 <= i <= rows.len(),
            forall|j: int| 0 <= j < i ==> rows@[j].id@ != id@,
        decreases rows.len() - i,
    {
        if str_eq(rows[i].id.as_str(), id) {
            return Some(i);
        }
        i = i + 1;
    }
    proof {
        let rs = row_views(rows@);
        assert forall|j: int| 0 <= j < rs.len() implies #[trigger] rs[j].id != id@ by {
            assert(rs[j] == row_view(rows@[j]));
        }
    }
    None
}

fn index_event(rows: &mut Vec<IndexEntry>, e: &Event)
    requires
        unique_rows(row_views(old(rows)@)),
        e.ts.wf(),
    ensures
        unique_rows(row_views(final(rows)@)),
        row_views(final(rows)@) == index_step(row_views(old(rows)@), e@),
{
    let ghost rs = row_views(rows@);
    let day = day_key(&e.ts);
    match find_row(rows, e.id.as_str()) {
        Some(i) => {
            proof { lemma_row_index(rs, i as int); }
            let mut info = TaskIndex {
                status: rows[i].info.status,
                created: rows[i].info.created.clone(),
                updated: day.clone(),
                completed: copy_opt(&rows[i].info.completed),
                files: Vec::new(),
                archived: copy_opt(&rows[i].info.archived),
            };
            match e.op {
                Operation::Create => {
                    info.status = TaskStatus::Open;
                    info.created = day.clone();
                    info.completed = None;
                    info.archived = None;
                },
                Operation::Complete => {
                    info.status = TaskStatus::Complete;
                    info.completed = Some(day.clone());
                },
                Operation::Reopen => {
                    info.status = TaskStatus::Open;
                    info.completed = None;
                },
                Operation::Archive => {
                    info.archived = copy_opt(&e.d.reference);
                },
                _ => {},
            }
            let entry = IndexEntry { id: e.id.clone(), info };
            let ghost rv = row_view(entry);
            rows.set(i, entry);
            assert(row_views(rows@) =~= rs.update(i as int, rv));
        },
        None => {
            if e.op == Operation::Create {
                let entry = IndexEntry {
                    id: e.id.clone(),
                    info: TaskIndex {
                        status: TaskStatus::Open,
                        created: day.clone(),
                        updated: day,
                        completed: None,
                        files: Vec::new(),
                        archived: None,
                    },
                };
                let ghost rv = row_view(entry);
                rows.push(entry);
                assert(row_views(rows@) =~= rs.push(rv));
            }
        },
    }
}

fn touches(events: &Vec<Event>, id: &str) -> (r: bool)
    ensures
        r == exists|k: int| 0 <= k < events@.len() && #[trigger] event_views(events@)[k].id == id@,
{
    let mut k: usize = 0;
    while k < events.len()
        invariant
            0 <= k <= events@.len(),
            forall|j: int| 0 <= j < k ==> events@[j].id@ != id@,
        decreases events.len() - k,
    {
        if str_eq(events[k].id.as_str(), id) {
            assert(event_views(events@)[k as int].id == id@);
            return true;
        }
        k = k + 1;
    }
    proof {
        assert forall|j: int| 0 <= j < events@.len() implies #[trigger] event_views(events@)[j].id != id@ by {
            assert(event_views(events@)[j] == events@[j]@);
        }
    }
    false
}

fn file_list(names: &Vec<String>, files: &Vec<Vec<Event>>, id: &str) -> (r: Vec<String>)
    requires
        names@.len() == files@.len(),
    ensures
        r.deep_view() == files_touching(names.deep_view(), file_views(files@), id@),
{
    let ghost fv = file_views(files@);
    let mut out: Vec<String> = Vec::new();
    let mut i: usize = 0;
    assert(out.deep_view() =~= files_touching(names.deep_view().subrange(0, 0), fv.subrange(0, 0), id@));
    while i < files.len()
        invariant
            0 <= i <= files@.len(),
            names@.len() == files@.len(),
            fv == file_views(files@),
            out.deep_view() == files_touching(names.deep_view().subrange(0, i as int), fv.subrange(0, i as int), id@),
        decreases files.len() - i,
    {
        proof {
            assert(names.deep_view().subrange(0, i + 1).drop_last() =~= names.deep_view().subrange(0, i as int));
            assert(fv.subrange(0, i + 1).drop_last() =~= fv.subrange(0, i as int));
            assert(fv.subrange(0, i + 1).last() == event_views(files@[i as int]@));
        }
        if touches(&files[i], id) {
            let n = names[i].clone();
            let ghost o0 = out.deep_view();
            out.push(n);
            assert(out.deep_view() =~= o0.push(names.deep_view()[i as int]));
        }
        i = i + 1;
    }
    assert(names.deep_view().subrange(0, files@.len() as int) =~= names.deep_view());
    assert(fv.subrange(0, files@.len() as int) =~= fv);
    out
}

/// Builds the index from the daily files, given in chronological order with
/// their names.
pub fn build_index(names: &Vec<String>, dailies: &Vec<Vec<Event>>, rebuilt: Timestamp) -> (r: Index)
    requires
        names@.len() == dailies@.len(),
        times_wf(file_views(dailies@)),
    ensures
        row_views(r.tasks@) == index_rows(file_views(dailies@).flatten_alt()),
        forall|i: int| 0 <= i < r.tasks@.len() ==> (#[trigger] r.tasks@[i]).info.files.deep_view()
            == files_touching(names.deep_view(), file_views(dailies@), r.tasks@[i].id@),
        r.rebuilt == rebuilt,
{
    let ghost fv = file_views(dailies@);
    let mut rows: Vec<IndexEntry> = Vec::new();
    let mut i: usize = 0;
    assert(row_views(rows@) =~= index_rows(fv.subrange(0, 0).flatten_alt()));
    while i < dailies.len()
        invariant
            0 <= i <= dailies@.len(),
            fv == file_views(dailies@),
            times_wf(fv),
            unique_rows(row_views(rows@)),
            row_views(rows@) == index_rows(fv.subrange(0, i as int).flatten_alt()),
        decreases dailies.len() - i,
    {
        let f = &dailies[i];
        let ghost done = fv.subrange(0, i as int).flatten_alt();
        assert(done + event_views(f@).subrange(0, 0) =~= done);
        let mut j: usize = 0;
        while j < f.len()
            invariant
                0 <= j <= f@.len(),
                0 <= i < dailies@.len(),
                f == dailies@[i as int],
                fv == file_views(dailies@),
                times_wf(fv),
                unique_rows(row_views(rows@)),
                row_views(rows@) == index_rows(done + event_views(f@).subrange(0, j as int)),
            decreases f.len() - j,
        {
            proof {
                let s = done + event_views(f@).subrange(0, j + 1);
                assert(s.drop_last() =~= done + event_views(f@).subrange(0, j as int));
                assert(s.last() == f@[j as int]@);
                assert(fv[i as int][j as int] == f@[j as int]@);
            }
            index_event(&mut rows, &f[j]);
            j = j + 1;
        }
        proof {
            assert(event_views(f@).subrange(0, f@.len() as int) =~= event_views(f@));
            let s = fv.subrange(0, i + 1);
            assert(s.drop_last() =~= fv.subrange(0, i as int));
            assert(s.last() == event_views(f@));
        }
        i = i + 1;
    }
    assert(fv.subrange(0, dailies@.len() as int) =~= fv);
    let ghost rs = row_views(rows@);
    let mut out: Vec<IndexEntry> = Vec::new();
    let mut k: usize = 0;
    while k < rows.len()
        invariant
            0 <= k <= rows@.len(),
            names@.len() == dailies@.len(),
            rs == row_views(rows@),
            out@.len() == k,
            forall|j: int| 0 <= j < k ==> row_view(#[trigger] out@[j]) == rs[j],
            forall|j: int| 0 <= j < k ==> (#[trigger] out@[j]).info.files.deep_view()
                == files_touching(names.deep_view(), file_views(dailies@), out@[j].id@),
        decreases rows.len() - k,
    {
        let r = &rows[k];
        let files = file_list(names, dailies, r.id.as_str());
        let entry = IndexEntry {
            id: r.id.clone(),
            info: TaskIndex {
                status: r.info.status,
                created: r.info.created.clone(),
                updated: r.info.updated.clone(),
                completed: copy_opt(&r.info.completed),
                files,
                archived: copy_opt(&r.info.archived),
            },
        };
        assert(row_view(entry) == rs[k as int]);
        out.push(entry);
        k = k + 1;
    }
    assert(row_views(out@) =~= rs);
    Index { tasks: out, rebuilt }
}

} // verus!
