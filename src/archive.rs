//! The archival engine: picks completed tasks past their retention window
//! and plans the monthly rollup files and the markers that flag them.
use vstd::prelude::*;
use crate::model::{copy_event, Event, EventView, Operation, Payload, TaskStatus, TaskView, Timestamp};
use crate::replay::{
    apply, edited_task, event_views, file_views, has_task, lemma_task_index, projection_wf, replay_from,
    task_index, Projection, State,
};
use crate::text::str_eq;
use crate::time::{days_before, days_before_spec, month_key, utc_month_text};

verus! {

/// Complete, completed strictly before the cutoff, and not yet archived.
pub open spec fn is_candidate(t: TaskView, cutoff: Timestamp) -> bool {
    &&& t.status == TaskStatus::Complete
    &&& t.completed matches Some(c) && c.before(cutoff)
    &&& t.archived is None
}

/// Whether `ids` lists exactly the candidate tasks of `ts`, each once,
/// in order of completion time.
pub open spec fn lists_candidates(ts: Seq<TaskView>, cutoff: Timestamp, ids: Seq<Seq<char>>) -> bool {
    &&& forall|k: int| 0 <= k < ids.len() ==> {
        &&& #[trigger] has_task(ts, ids[k])
        &&& is_candidate(ts[task_index(ts, ids[k])], cutoff)
    }
    &&& forall|i: int| 0 <= i < ts.len() && is_candidate(#[trigger] ts[i], cutoff) ==> ids.contains(ts[i].id)
    &&& forall|a: int, b: int| 0 <= a < b < ids.len() ==> ids[a] != ids[b]
    &&& forall|a: int, b: int| 0 <= a < b < ids.len() ==>
        !(#[trigger] completion(ts, ids[b])).before(#[trigger] completion(ts, ids[a]))
}

/// The completion time of the task with this id.
pub open spec fn completion(ts: Seq<TaskView>, id: Seq<char>) -> Timestamp {
    ts[task_index(ts, id)].completed.unwrap()
}

/// The ids of the tasks to archive, oldest completion first; ties keep the
/// order of the state.
pub fn archive_candidates(state: &State, cutoff: &Timestamp) -> (r: Vec<String>)
    requires
        state.wf(),
    ensures
        lists_candidates(state.projection().tasks, *cutoff, r.deep_view()),
{
    let ghost ts = state.projection().tasks;
    let mut ids: Vec<String> = Vec::new();
    let mut times: Vec<Timestamp> = Vec::new();
    // where each listed id stands in the state
    let ghost mut src: Seq<int> = Seq::empty();
    let mut i: usize = 0;
    while i < state.tasks.len()
        invariant
            0 <= i <= state.tasks.len(),
            ts == state.projection().tasks,
            projection_wf(state.projection()),
            ids@.len() == times@.len(),
            src.len() == ids@.len(),
            forall|k: int| 0 <= k < src.len() ==> {
                &&& 0 <= #[trigger] src[k] < i
                &&& ts[src[k]].id == ids@[k]@
                &&& is_candidate(ts[src[k]], *cutoff)
                &&& ts[src[k]].completed == Some(times@[k])
            },
            forall|j: int| 0 <= j < i && is_candidate(#[trigger] ts[j], *cutoff) ==>
                ids.deep_view().contains(ts[j].id),
            forall|a: int, b: int| 0 <= a < b < ids@.len() ==> ids@[a]@ != ids@[b]@,
            forall|a: int, b: int| 0 <= a < b < times@.len() ==> !(#[trigger] times@[b]).before(#[trigger] times@[a]),
        decreases state.tasks.len() - i,
    {
        let t = &state.tasks[i];
        assert(ts[i as int] == t@);
        let cand = match (&t.status, &t.completed, &t.archived) {
            (TaskStatus::Complete, Some(c), None) => c.is_before(cutoff),
            _ => false,
        };
        if cand {
            let c = t.completed.unwrap();
            let mut pos: usize = 0;
            while pos < times.len() && !c.is_before(&times[pos])
                invariant
                    0 <= pos <= times@.len(),
                    forall|k: int| 0 <= k < pos ==> !c.before(#[trigger] times@[k]),
                decreases times.len() - pos,
            {
                pos = pos + 1;
            }
            let ghost old_ids = ids.deep_view();
            let ghost old_idv = ids@;
            proof {
                assert forall|k: int| 0 <= k < old_ids.len() implies old_ids[k] != t@.id by {
                    assert(ts[src[k]].id == old_ids[k]);
                }
            }
            ids.insert(pos, t.id.clone());
            times.insert(pos, c);
            proof {
                src = src.insert(pos as int, i as int);
                assert(ids.deep_view() =~= old_ids.insert(pos as int, t@.id));
                assert forall|j: int| 0 <= j < i + 1 && is_candidate(#[trigger] ts[j], *cutoff) implies
                    ids.deep_view().contains(ts[j].id) by {
                    if j < i {
                        let k = choose|k: int| 0 <= k < old_ids.len() && old_ids[k] == ts[j].id;
                        if k < pos {
                            assert(ids.deep_view()[k] == ts[j].id);
                        } else {
                            assert(ids.deep_view()[k + 1] == ts[j].id);
                        }
                    } else {
                        assert(ids.deep_view()[pos as int] == ts[j].id);
                    }
                }
                assert forall|a: int, b: int| 0 <= a < b < ids@.len() implies ids@[a]@ != ids@[b]@ by {
                    assert(ids@[a]@ == ids.deep_view()[a]);
                    assert(ids@[b]@ == ids.deep_view()[b]);
                }
            }
        }
        i = i + 1;
    }
    proof {
        let idv = ids.deep_view();
        assert forall|k: int| 0 <= k < idv.len() implies {
            &&& #[trigger] has_task(ts, idv[k])
            &&& is_candidate(ts[task_index(ts, idv[k])], *cutoff)
        } by {
            assert(ts[src[k]].id == idv[k]);
            lemma_task_index(ts, src[k]);
        }
        assert forall|a: int, b: int| 0 <= a < b < idv.len() implies
            !(#[trigger] completion(ts, idv[b])).before(#[trigger] completion(ts, idv[a])) by {
            assert(ts[src[a]].id == idv[a]);
            assert(ts[src[b]].id == idv[b]);
            lemma_task_index(ts, src[a]);
            lemma_task_index(ts, src[b]);
        }
        assert forall|a: int, b: int| 0 <= a < b < idv.len() implies idv[a] != idv[b] by {
            assert(ids@[a]@ != ids@[b]@);
        }
    }
    ids
}

/// The Archive marker written for a task rolled into `month`.
pub open spec fn is_marker(e: EventView, id: Seq<char>, month: Seq<char>, now: Timestamp, branch: Seq<char>) -> bool {
    &&& e.v == 1
    &&& e.op == Operation::Archive
    &&& e.id == id
    &&& e.ts == now
    &&& e.by == "@spool"@
    &&& e.branch == branch
    &&& e.d.reference == Some(month)
}

/// Every completion time in the state lies within the calendar range.
pub open spec fn completions_wf(ts: Seq<TaskView>) -> bool {
    forall|i: int| 0 <= i < ts.len() && (#[trigger] ts[i]).completed is Some ==> ts[i].completed.unwrap().wf()
}

/// The events of one task, in log order.
pub open spec fn history(es: Seq<EventView>, id: Seq<char>) -> Seq<EventView> {
    es.filter(|e: EventView| e.id == id)
}

/// The month of completion of the task with this id, as `YYYY-MM`.
pub open spec fn month_of(ts: Seq<TaskView>, id: Seq<char>) -> Seq<char> {
    utc_month_text(completion(ts, id).secs)
}

/// What the rollup of month `m` receives: the full history in `es` of each
/// id completed in that month, in the order of `ids`.
pub open spec fn rollup(ts: Seq<TaskView>, ids: Seq<Seq<char>>, es: Seq<EventView>, m: Seq<char>) -> Seq<EventView>
    decreases ids.len(),
{
    if ids.len() == 0 {
        Seq::empty()
    } else {
        let prev = rollup(ts, ids.drop_last(), es, m);
        if month_of(ts, ids.last()) == m {
            prev + history(es, ids.last())
        } else {
            prev
        }
    }
}

proof fn lemma_rollup_empty(ts: Seq<TaskView>, ids: Seq<Seq<char>>, es: Seq<EventView>, m: Seq<char>)
    requires
        forall|j: int| 0 <= j < ids.len() ==> month_of(ts, #[trigger] ids[j]) != m,
    ensures
        rollup(ts, ids, es, m) == Seq::<EventView>::empty(),
    decreases ids.len(),
{
    if ids.len() > 0 {
        let init = ids.drop_last();
        assert forall|j: int| 0 <= j < init.len() implies month_of(ts, #[trigger] init[j]) != m by {
            assert(init[j] == ids[j]);
        }
        lemma_rollup_empty(ts, init, es, m);
        assert(month_of(ts, ids[ids.len() - 1]) != m);
    }
}

/// Whether some rollup is for month `m`.
pub open spec fn has_group(groups: Seq<MonthGroup>, m: Seq<char>) -> bool {
    exists|g: int| 0 <= g < groups.len() && #[trigger] groups[g].month@ == m
}

/// The events of one task, gathered from the daily files.
pub struct TaskEvents {
    pub id: String,
    pub events: Vec<Event>,
}

pub open spec fn entry_ids(es: Seq<TaskEvents>) -> Seq<Seq<char>> {
    es.map_values(|t: TaskEvents| t.id@)
}

/// Whether `entries` groups the events `es` by subject: one entry per id
/// that occurs, each holding that id's events in log order.
pub open spec fn groups_events(entries: Seq<TaskEvents>, es: Seq<EventView>) -> bool {
    &&& forall|a: int, b: int| 0 <= a < b < entries.len() ==> entries[a].id@ != entries[b].id@
    &&& forall|j: int| 0 <= j < entries.len() ==> event_views((#[trigger] entries[j]).events@) == history(es, entries[j].id@)
    &&& forall|j: int| 0 <= j < entries.len() ==> (#[trigger] entries[j]).events@.len() > 0
    &&& forall|i: int| 0 <= i < es.len() ==> entry_ids(entries).contains((#[trigger] es[i]).id)
}

/// Gathers the events of the daily files by subject, in order of first
/// appearance, each subject's events in log order.
pub fn collect_all_events(dailies: &Vec<Vec<Event>>) -> (r: Vec<TaskEvents>)
    ensures
        groups_events(r@, file_views(dailies@).flatten_alt()),
{
    let ghost fv = file_views(dailies@);
    let mut out: Vec<TaskEvents> = Vec::new();
    let mut i: usize = 0;
    proof {
        assert(fv.subrange(0, 0).flatten_alt() =~= Seq::<EventView>::empty());
    }
    while i < dailies.len()
        invariant
            0 <= i <= dailies@.len(),
            fv == file_views(dailies@),
            groups_events(out@, fv.subrange(0, i as int).flatten_alt()),
        decreases dailies.len() - i,
    {
        let f = &dailies[i];
        let ghost done = fv.subrange(0, i as int).flatten_alt();
        assert(done + event_views(f@).subrange(0, 0) =~= done);
        let mut j: usize = 0;
        while j < f.len()
            invariant
                0 <= j <= f@.len(),
                0 <= i < dailies@.len(),
                f == dailies@[i as int],
                fv == file_views(dailies@),
                groups_events(out@, done + event_views(f@).subrange(0, j as int)),
            decreases f.len() - j,
        {
            let ghost pre = done + event_views(f@).subrange(0, j as int);
            let ghost ev = f@[j as int]@;
            let ghost nxt = pre.push(ev);
            assert(done + event_views(f@).subrange(0, j + 1) =~= nxt);
            let ghost old_out = out@;
            let e = copy_event(&f[j]);
            let mut k: usize = 0;
            while k < out.len() && !str_eq(out[k].id.as_str(), e.id.as_str())
                invariant
                    0 <= k <= out@.len(),
                    forall|m: int| 0 <= m < k ==> out@[m].id@ != e.id@,
                decreases out.len() - k,
            {
                k = k + 1;
            }
            if k < out.len() {
                let mut entry = TaskEvents { id: String::new(), events: Vec::new() };
                std::mem::swap(&mut entry, &mut out[k]);
                let ghost before = event_views(entry.events@);
                entry.events.push(e);
                assert(event_views(entry.events@) =~= before.push(ev));
                out.set(k, entry);
                proof {
                    assert forall|m: int| 0 <= m < out@.len() implies event_views((#[trigger] out@[m]).events@)
                        == history(nxt, out@[m].id@) by {
                        pre.lemma_filter_push(ev, |x: EventView| x.id == out@[m].id@);
                        if m != k {
                            assert(out@[m] == old_out[m]);
                        }
                    }
                    assert forall|m: int| 0 <= m < nxt.len() implies entry_ids(out@).contains((#[trigger] nxt[m]).id) by {
                        if m < pre.len() {
                            assert(nxt[m] == pre[m]);
                            let w = choose|w: int| 0 <= w < entry_ids(old_out).len() && entry_ids(old_out)[w] == pre[m].id;
                            assert(entry_ids(out@)[w] == pre[m].id);
                        } else {
                            assert(entry_ids(out@)[k as int] == ev.id);
                        }
                    }
                    assert forall|a: int, b: int| 0 <= a < b < out@.len() implies out@[a].id@ != out@[b].id@ by {
                        assert(out@[a].id@ == old_out[a].id@);
                        assert(out@[b].id@ == old_out[b].id@);
                    }
                }
            } else {
                let id = e.id.clone();
                let mut events: Vec<Event> = Vec::new();
                events.push(e);
                let entry = TaskEvents { id, events };
                proof {
                    assert forall|m: int| 0 <= m < pre.len() implies (#[trigger] pre[m]).id != ev.id by {
                        let w = choose|w: int| 0 <= w < entry_ids(old_out).len() && entry_ids(old_out)[w] == pre[m].id;
                        assert(old_out[w].id@ == pre[m].id);
                    }
                    assert(pre.filter(|x: EventView| x.id == ev.id) =~= Seq::<EventView>::empty()) by {
                        pre.lemma_filter_len(|x: EventView| x.id == ev.id);
                        if pre.filter(|x: EventView| x.id == ev.id).len() > 0 {
                            pre.lemma_filter_pred(|x: EventView| x.id == ev.id, 0);
                            let y = pre.filter(|x: EventView| x.id == ev.id)[0];
                            pre.lemma_filter_contains_rev(|x: EventView| x.id == ev.id, y);
                        }
                    }
                }
                out.push(entry);
                proof {
                    assert forall|m: int| 0 <= m < out@.len() implies event_views((#[trigger] out@[m]).events@)
                        == history(nxt, out@[m].id@) by {
                        pre.lemma_filter_push(ev, |x: EventView| x.id == out@[m].id@);
                        if m < old_out.len() {
                            assert(out@[m] == old_out[m]);
                        } else {
                            assert(event_views(out@[m].events@) =~= seq![ev]);
                            assert(Seq::<EventView>::empty().push(ev) =~= seq![ev]);
                        }
                    }
                    assert forall|m: int| 0 <= m < nxt.len() implies entry_ids(out@).contains((#[trigger] nxt[m]).id) by {
                        if m < pre.len() {
                            assert(nxt[m] == pre[m]);
                            let w = choose|w: int| 0 <= w < entry_ids(old_out).len() && entry_ids(old_out)[w] == pre[m].id;
                            assert(entry_ids(out@)[w] == pre[m].id);
                        } else {
                            assert(entry_ids(out@)[old_out.len() as int] == ev.id);
                        }
                    }
                    assert forall|a: int, b: int| 0 <= a < b < out@.len() implies out@[a].id@ != out@[b].id@ by {
                        assert(out@[a].id@ == old_out[a].id@ || a >= old_out.len());
                        if b == old_out.len() {
                            assert(out@[a] == old_out[a]);
                        } else {
                            assert(out@[a] == old_out[a]);
                            assert(out@[b] == old_out[b]);
                        }
                    }
                }
            }
            j = j + 1;
        }
        proof {
            assert(event_views(f@).subrange(0, f@.len() as int) =~= event_views(f@));
            let s = fv.subrange(0, i + 1);
            assert(s.drop_last() =~= fv.subrange(0, i as int));
            assert(s.last() == event_views(f@));
        }
        i = i + 1;
    }
    assert(fv.subrange(0, dailies@.len() as int) =~= fv);
    out
}

/// One monthly rollup: the archive file's month and the lines to append.
pub struct MonthGroup {
    pub month: String,
    pub events: Vec<Event>,
}

/// What a non-dry archival run writes.
pub struct ArchivePlan {
    /// The archived ids, oldest completion first.
    pub ids: Vec<String>,
    /// Per month, the full history of every task rolled into it.
    pub groups: Vec<MonthGroup>,
    /// One Archive marker per archived id, for today's daily log.
    pub markers: Vec<Event>,
}

fn marker(id: &String, month: &String, now: Timestamp, branch: &String) -> (r: Event)
    ensures
        is_marker(r@, id@, month@, now, branch@),
{
    let mut d = Payload::empty();
    d.reference = Some(month.clone());
    Event { v: 1, op: Operation::Archive, id: id.clone(), ts: now, by: "@spool".to_owned(), branch: branch.clone(), d }
}

/// Appends the events of `id`, in order, from every file.
fn push_history(out: &mut Vec<Event>, files: &Vec<Vec<Event>>, id: &String)
    ensures
        event_views(final(out)@) == event_views(old(out)@) + history(file_views(files@).flatten_alt(), id@),
{
    let ghost fv = file_views(files@);
    let mut i: usize = 0;
    while i < files.len()
        invariant
            0 <= i <= files.len(),
            fv == file_views(files@),
            event_views(out@) == event_views(old(out)@) + history(fv.subrange(0, i as int).flatten_alt(), id@),
        decreases files.len() - i,
    {
        let f = &files[i];
        let ghost done = fv.subrange(0, i as int).flatten_alt();
        assert(done + event_views(f@).subrange(0, 0) =~= done);
        assert(history(done + event_views(f@).subrange(0, 0), id@) == history(done, id@));
        let mut j: usize = 0;
        while j < f.len()
            invariant
                0 <= j <= f.len(),
                0 <= i < files.len(),
                fv == file_views(files@),
                f == files@[i as int],
                event_views(out@) == event_views(old(out)@) + history(done + event_views(f@).subrange(0, j as int), id@),
            decreases f.len() - j,
        {
            proof {
                let pre = done + event_views(f@).subrange(0, j as int);
                assert(done + event_views(f@).subrange(0, j + 1) =~= pre.push(f@[j as int]@));
                pre.lemma_filter_push(f@[j as int]@, |e: EventView| e.id == id@);
            }
            if str_eq(f[j].id.as_str(), id.as_str()) {
                let e = copy_event(&f[j]);
                out.push(e);
                assert(event_views(out@) =~= event_views(out@).drop_last().push(e@));
                assert(event_views(out@).drop_last() =~= event_views(old(out)@) + history(done + event_views(f@).subrange(0, j as int), id@));
            }
            j = j + 1;
        }
        proof {
            assert(event_views(f@).subrange(0, f.len() as int) =~= event_views(f@));
            let s = fv.subrange(0, i + 1);
            assert(s.drop_last() =~= fv.subrange(0, i as int));
            assert(s.last() == event_views(f@));
            assert(s.flatten_alt() == done + event_views(f@));
        }
        i = i + 1;
    }
    assert(fv.subrange(0, files.len() as int) =~= fv);
}

fn find_group(groups: &Vec<MonthGroup>, month: &String) -> (r: Option<usize>)
    ensures
        r matches Some(g) ==> g < groups.len() && groups@[g as int].month@ == month@,
        r is None ==> forall|g: int| 0 <= g < groups.len() ==> #[trigger] groups@[g].month@ != month@,
{
    let mut g: usize = 0;
    while g < groups.len()
        invariant
            0 <= g <= groups.len(),
            forall|k: int| 0 <= k < g ==> #[trigger] groups@[k].month@ != month@,
        decreases groups.len() - g,
    {
        if str_eq(groups[g].month.as_str(), month.as_str()) {
            return Some(g);
        }
        g = g + 1;
    }
    None
}

/// What a non-dry run over tasks `ts` and daily events `es` writes: the
/// candidates at `cutoff`, one marker each stamped `now` on `branch`, and
/// one rollup per month holding the full histories of that month's tasks.
pub open spec fn is_plan(ts: Seq<TaskView>, es: Seq<EventView>, cutoff: Timestamp, now: Timestamp, branch: Seq<char>, r: ArchivePlan) -> bool {
    &&& lists_candidates(ts, cutoff, r.ids.deep_view())
    &&& r.markers@.len() == r.ids@.len()
    &&& forall|k: int| 0 <= k < r.ids@.len() ==> is_marker(
        #[trigger] r.markers@[k]@,
        r.ids@[k]@,
        month_of(ts, r.ids@[k]@),
        now,
        branch,
    )
    &&& forall|a: int, b: int| 0 <= a < b < r.groups@.len() ==> r.groups@[a].month@ != r.groups@[b].month@
    &&& forall|g: int| 0 <= g < r.groups@.len() ==> event_views(#[trigger] r.groups@[g].events@) == rollup(
        ts,
        r.ids.deep_view(),
        es,
        r.groups@[g].month@,
    )
    &&& forall|k: int| 0 <= k < r.ids@.len() ==> has_group(r.groups@, month_of(ts, #[trigger] r.ids.deep_view()[k]))
}

/// Plans an archival run: the candidates at `cutoff`, their histories from
/// the daily files grouped by the month of completion, and one marker per
/// candidate stamped `now` on `branch`.
pub fn plan_archive(state: &State, dailies: &Vec<Vec<Event>>, cutoff: &Timestamp, now: Timestamp, branch: &String) -> (r: ArchivePlan)
    requires
        state.wf(),
        completions_wf(state.projection().tasks),
    ensures
        is_plan(state.projection().tasks, file_views(dailies@).flatten_alt(), *cutoff, now, branch@, r),
{
    let ghost ts = state.projection().tasks;
    let ghost flat = file_views(dailies@).flatten_alt();
    let ids = archive_candidates(state, cutoff);
    let mut groups: Vec<MonthGroup> = Vec::new();
    let mut markers: Vec<Event> = Vec::new();
    let mut k: usize = 0;
    while k < ids.len()
        invariant
            0 <= k <= ids@.len(),
            ts == state.projection().tasks,
            projection_wf(state.projection()),
            lists_candidates(ts, *cutoff, ids.deep_view()),
            completions_wf(state.projection().tasks),
            markers@.len() == k,
            forall|j: int| 0 <= j < k ==> is_marker(
                #[trigger] markers@[j]@,
                ids@[j]@,
                utc_month_text(completion(ts, ids@[j]@).secs),
                now,
                branch@,
            ),
            forall|a: int, b: int| 0 <= a < b < groups@.len() ==> groups@[a].month@ != groups@[b].month@,
            flat == file_views(dailies@).flatten_alt(),
            forall|g: int| 0 <= g < groups@.len() ==> event_views(#[trigger] groups@[g].events@) == rollup(
                ts,
                ids.deep_view().subrange(0, k as int),
                flat,
                groups@[g].month@,
            ),
            forall|j: int| 0 <= j < k ==> has_group(groups@, month_of(ts, #[trigger] ids.deep_view()[j])),
        decreases ids.len() - k,
    {
        proof {
            assert(ids.deep_view()[k as int] == ids@[k as int]@);
            assert(has_task(ts, ids@[k as int]@));
        }
        let t = state.get_task(ids[k].as_str()).unwrap();
        proof {
            let i = choose|i: int| 0 <= i < ts.len() && ts[i] == t@;
            lemma_task_index(ts, i);
            assert(ts[i] == state.tasks@[i]@);
        }
        let completed = t.completed.unwrap();
        let month = month_key(&completed);
        let ghost idv = ids.deep_view();
        let ghost pre = idv.subrange(0, k as int);
        let ghost nxt = idv.subrange(0, k + 1);
        proof {
            assert(nxt.drop_last() =~= pre);
            assert(nxt.last() == idv[k as int]);
            assert(idv[k as int] == ids@[k as int]@);
            assert(month@ == month_of(ts, idv[k as int]));
        }
        let ghost old_groups = groups@;
        match find_group(&groups, &month) {
            Some(g) => {
                let mut grp = MonthGroup { month: month.clone(), events: Vec::new() };
                std::mem::swap(&mut grp, &mut groups[g]);
                push_history(&mut grp.events, dailies, &ids[k]);
                groups.set(g, grp);
                proof {
                    assert forall|h: int| 0 <= h < groups@.len() implies event_views(#[trigger] groups@[h].events@)
                        == rollup(ts, nxt, flat, groups@[h].month@) by {
                        if h != g {
                            assert(groups@[h] == old_groups[h]);
                            assert(old_groups[h].month@ != month@);
                        }
                    }
                    assert forall|j: int| 0 <= j < k + 1 implies has_group(groups@, month_of(ts, #[trigger] idv[j])) by {
                        if j < k {
                            let h = choose|h: int| 0 <= h < old_groups.len()
                                && #[trigger] old_groups[h].month@ == month_of(ts, idv[j]);
                            assert(groups@[h].month@ == old_groups[h].month@);
                        } else {
                            assert(groups@[g as int].month@ == month_of(ts, idv[j]));
                        }
                    }
                }
            },
            None => {
                let mut events: Vec<Event> = Vec::new();
                push_history(&mut events, dailies, &ids[k]);
                proof {
                    assert forall|j: int| 0 <= j < pre.len() implies month_of(ts, #[trigger] pre[j]) != month@ by {
                        let h = choose|h: int| 0 <= h < old_groups.len()
                            && #[trigger] old_groups[h].month@ == month_of(ts, idv[j]);
                        assert(pre[j] == idv[j]);
                    }
                    lemma_rollup_empty(ts, pre, flat, month@);
                    assert(event_views(events@) =~= Seq::<EventView>::empty() + history(flat, idv[k as int]));
                }
                groups.push(MonthGroup { month: month.clone(), events });
                proof {
                    assert forall|h: int| 0 <= h < groups@.len() implies event_views(#[trigger] groups@[h].events@)
                        == rollup(ts, nxt, flat, groups@[h].month@) by {
                        if h < old_groups.len() {
                            assert(groups@[h] == old_groups[h]);
                        }
                    }
                    assert forall|a: int, b: int| 0 <= a < b < groups@.len() implies groups@[a].month@ != groups@[b].month@ by {
                        if b == old_groups.len() {
                            assert(groups@[a] == old_groups[a]);
                        }
                    }
                    assert forall|j: int| 0 <= j < k + 1 implies has_group(groups@, month_of(ts, #[trigger] idv[j])) by {
                        if j < k {
                            let h = choose|h: int| 0 <= h < old_groups.len()
                                && #[trigger] old_groups[h].month@ == month_of(ts, idv[j]);
                            assert(groups@[h] == old_groups[h]);
                        } else {
                            assert(groups@[old_groups.len() as int].month@ == month_of(ts, idv[j]));
                        }
                    }
                }
            },
        }
        markers.push(marker(&ids[k], &month, now, branch));
        k = k + 1;
    }
    assert(ids.deep_view().subrange(0, ids@.len() as int) =~= ids.deep_view());
    let r = ArchivePlan { ids, groups, markers };
    assert(is_plan(ts, flat, *cutoff, now, branch@, r));
    r
}

/// Archives the tasks completed more than `days` days before `now`. A dry
/// run lists the same ids and plans no writes.
pub fn archive_tasks(state: &State, dailies: &Vec<Vec<Event>>, now: Timestamp, days: u32, dry_run: bool, branch: &String) -> (r: ArchivePlan)
    requires
        state.wf(),
        completions_wf(state.projection().tasks),
        now.wf(),
    ensures
        dry_run ==> lists_candidates(state.projection().tasks, days_before_spec(now, days), r.ids.deep_view())
            && r.groups@.len() == 0 && r.markers@.len() == 0,
        !dry_run ==> is_plan(
            state.projection().tasks,
            file_views(dailies@).flatten_alt(),
            days_before_spec(now, days),
            now,
            branch@,
            r,
        ),
{
    let cutoff = days_before(&now, days);
    if dry_run {
        ArchivePlan { ids: archive_candidates(state, &cutoff), groups: Vec::new(), markers: Vec::new() }
    } else {
        plan_archive(state, dailies, &cutoff, now, branch)
    }
}

/// Every event of a month's rollup belongs to a task completed in that
/// month, so no task's history lands in two rollups.
pub proof fn rollup_holds_only_its_month(ts: Seq<TaskView>, ids: Seq<Seq<char>>, es: Seq<EventView>, m: Seq<char>)
    ensures
        forall|i: int| 0 <= i < rollup(ts, ids, es, m).len() ==> month_of(ts, (#[trigger] rollup(ts, ids, es, m)[i]).id) == m,
    decreases ids.len(),
{
    if ids.len() > 0 {
        let init = ids.drop_last();
        rollup_holds_only_its_month(ts, init, es, m);
        let x = ids.last();
        let prev = rollup(ts, init, es, m);
        if month_of(ts, x) == m {
            let h = history(es, x);
            let r = rollup(ts, ids, es, m);
            assert(r == prev + h);
            assert forall|i: int| 0 <= i < r.len() implies month_of(ts, (#[trigger] r[i]).id) == m by {
                if i >= prev.len() {
                    es.lemma_filter_pred(|e: EventView| e.id == x, i - prev.len());
                    assert(r[i] == h[i - prev.len()]);
                } else {
                    assert(r[i] == prev[i]);
                }
            }
        }
    }
}

/// Once the markers of an archival run stand after the rest of the log,
/// none of the ids they name is a candidate again, whatever the cutoff: a
/// second run with the same parameters returns none of the first run's ids.
pub proof fn archival_is_idempotent(p: Projection, markers: Seq<EventView>, cutoff: Timestamp)
    requires
        projection_wf(p),
        forall|k: int| 0 <= k < markers.len() ==> {
            &&& (#[trigger] markers[k]).op == Operation::Archive
            &&& markers[k].d.reference is Some
            &&& has_task(p.tasks, markers[k].id)
        },
    ensures
        ({
            let q = replay_from(p, markers);
            forall|k: int| 0 <= k < markers.len() ==> {
                &&& #[trigger] has_task(q.tasks, markers[k].id)
                &&& !is_candidate(q.tasks[task_index(q.tasks, markers[k].id)], cutoff)
            }
        }),
    decreases markers.len(),
{
    if markers.len() > 0 {
        let init = markers.drop_last();
        let m = markers.last();
        archival_is_idempotent(p, init, cutoff);
        let q0 = replay_from(p, init);
        lemma_markers_keep(p, init);
        let q = apply(q0, m);
        let idx = task_index(q0.tasks, m.id);
        assert(has_task(p.tasks, m.id));
        assert(has_task(q0.tasks, m.id));
        lemma_archive_step(q0, m);
        assert forall|k: int| 0 <= k < markers.len() implies {
            &&& #[trigger] has_task(q.tasks, markers[k].id)
            &&& !is_candidate(q.tasks[task_index(q.tasks, markers[k].id)], cutoff)
        } by {
            if k == markers.len() - 1 {
            } else {
                assert(init[k] == markers[k]);
                let j = task_index(q0.tasks, markers[k].id);
                assert(has_task(q0.tasks, init[k].id));
                lemma_task_index(q.tasks, j);
            }
        }
    }
}

/// Two consecutive runs with the same cutoff never return a common id: once
/// the first run's markers are the last events replayed, the second run's
/// candidates exclude every id the first archived.
pub proof fn consecutive_runs_do_not_overlap(
    p: Projection,
    es: Seq<EventView>,
    cutoff: Timestamp,
    now: Timestamp,
    branch: Seq<char>,
    first: ArchivePlan,
    second_ids: Seq<Seq<char>>,
)
    requires
        projection_wf(p),
        is_plan(p.tasks, es, cutoff, now, branch, first),
        lists_candidates(replay_from(p, event_views(first.markers@)).tasks, cutoff, second_ids),
    ensures
        forall|a: int, b: int| 0 <= a < second_ids.len() && 0 <= b < first.ids@.len() ==>
            #[trigger] second_ids[a] != #[trigger] first.ids.deep_view()[b],
{
    let ms = event_views(first.markers@);
    let idv = first.ids.deep_view();
    assert forall|k: int| 0 <= k < ms.len() implies {
        &&& (#[trigger] ms[k]).op == Operation::Archive
        &&& ms[k].d.reference is Some
        &&& has_task(p.tasks, ms[k].id)
    } by {
        assert(ms[k] == first.markers@[k]@);
        assert(is_marker(first.markers@[k]@, first.ids@[k]@, month_of(p.tasks, first.ids@[k]@), now, branch));
        assert(idv[k] == first.ids@[k]@);
    }
    archival_is_idempotent(p, ms, cutoff);
    let q = replay_from(p, ms);
    assert forall|a: int, b: int| 0 <= a < second_ids.len() && 0 <= b < first.ids@.len() implies
        #[trigger] second_ids[a] != #[trigger] idv[b] by {
        if second_ids[a] == idv[b] {
            assert(ms[b] == first.markers@[b]@);
            assert(is_marker(first.markers@[b]@, first.ids@[b]@, month_of(p.tasks, first.ids@[b]@), now, branch));
            assert(idv[b] == first.ids@[b]@);
            assert(ms[b].id == second_ids[a]);
            assert(has_task(q.tasks, second_ids[a]));
        }
    }
}

/// Replaying Archive markers keeps the projection well formed and keeps
/// every task of it.
proof fn lemma_markers_keep(p: Projection, ms: Seq<EventView>)
    requires
        projection_wf(p),
        forall|k: int| 0 <= k < ms.len() ==> (#[trigger] ms[k]).op == Operation::Archive && ms[k].d.reference is Some,
    ensures
        projection_wf(replay_from(p, ms)),
        replay_from(p, ms).tasks.len() == p.tasks.len(),
        forall|i: int| 0 <= i < p.tasks.len() ==> (#[trigger] replay_from(p, ms).tasks[i]).id == p.tasks[i].id,
        forall|i: int| 0 <= i < p.tasks.len() && (#[trigger] p.tasks[i]).archived is Some ==>
            replay_from(p, ms).tasks[i].archived is Some,
    decreases ms.len(),
{
    if ms.len() > 0 {
        let init = ms.drop_last();
        assert forall|k: int| 0 <= k < init.len() implies (#[trigger] init[k]).op == Operation::Archive && init[k].d.reference is Some by {
            assert(init[k] == ms[k]);
        }
        lemma_markers_keep(p, init);
        let q0 = replay_from(p, init);
        lemma_archive_step(q0, ms.last());
    }
}

/// One Archive marker with a month sets the flag of its task and touches no
/// other task.
proof fn lemma_archive_step(p: Projection, m: EventView)
    requires
        projection_wf(p),
        m.op == Operation::Archive,
        m.d.reference is Some,
    ensures
        projection_wf(apply(p, m)),
        apply(p, m).tasks.len() == p.tasks.len(),
        forall|i: int| 0 <= i < p.tasks.len() ==> (#[trigger] apply(p, m).tasks[i]).id == p.tasks[i].id,
        forall|i: int| 0 <= i < p.tasks.len() && (#[trigger] p.tasks[i]).archived is Some ==>
            apply(p, m).tasks[i].archived is Some,
        has_task(p.tasks, m.id) ==> apply(p, m).tasks[task_index(p.tasks, m.id)].archived is Some,
{
    let q = apply(p, m);
    if has_task(p.tasks, m.id) {
        let i = task_index(p.tasks, m.id);
        assert(q.tasks == p.tasks.update(i, edited_task(p.tasks[i], m)));
        assert forall|a: int, b: int|
            0 <= a < q.tasks.len() && 0 <= b < q.tasks.len() && #[trigger] q.tasks[a].id
                == #[trigger] q.tasks[b].id implies a == b by {
            assert(q.tasks[a].id == p.tasks[a].id);
            assert(q.tasks[b].id == p.tasks[b].id);
        }
    }
}

} // verus!
