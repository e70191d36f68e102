//! Line splitting and argument reading for the interactive shell.
use vstd::prelude::*;
use crate::cli::{all_values, hit_views, last_value, or_default, OutputFormat};
use crate::model::opt_view;
use crate::text::str_eq;

verus! {

/// Where splitting stands after a prefix of the line.
pub struct SplitState {
    pub tokens: Seq<Seq<char>>,
    pub current: Seq<char>,
    pub in_quotes: bool,
    pub quote: char,
}

pub open spec fn split_step(st: SplitState, c: char) -> SplitState {
    if st.in_quotes {
        if c == st.quote {
            SplitState { in_quotes: false, ..st }
        } else {
            SplitState { current: st.current.push(c), ..st }
        }
    } else if c == '"' || c == '\'' {
        SplitState { in_quotes: true, quote: c, ..st }
    } else if c == ' ' || c == '\t' {
        if st.current.len() > 0 {
            SplitState { tokens: st.tokens.push(st.current), current: Seq::empty(), ..st }
        } else {
            st
        }
    } else {
        SplitState { current: st.current.push(c), ..st }
    }
}

pub open spec fn split_run(cs: Seq<char>) -> SplitState
    decreases cs.len(),
{
    if cs.len() == 0 {
        SplitState { tokens: Seq::empty(), current: Seq::empty(), in_quotes: false, quote: ' ' }
    } else {
        split_step(split_run(cs.drop_last()), cs.last())
    }
}

/// The words of a line: blanks separate words outside quotes; a quote
/// opens a section that runs to the same quote character.
pub open spec fn shell_words(cs: Seq<char>) -> Seq<Seq<char>> {
    let st = split_run(cs);
    if st.current.len() > 0 {
        st.tokens.push(st.current)
    } else {
        st.tokens
    }
}

/// Splits a command line into words, honouring single and double quotes.
pub fn shell_split(line: &str) -> (r: Vec<String>)
    ensures
        r.deep_view() == shell_words(line@),
{
    let n = line.unicode_len();
    let mut tokens: Vec<String> = Vec::new();
    let mut current = String::new();
    let mut in_quotes = false;
    let mut quote_char = ' ';
    let mut i: usize = 0;
    assert(tokens.deep_view() =~= Seq::<Seq<char>>::empty());
    assert(current@ =~= Seq::<char>::empty());
    assert(line@.subrange(0, 0) =~= Seq::<char>::empty());
    while i < n
        invariant
            n == line@.len(),
            0 <= i <= n,
            split_run(line@.subrange(0, i as int)) == (SplitState {
                tokens: tokens.deep_view(),
                current: current@,
                in_quotes,
                quote: quote_char,
            }),
        decreases n - i,
    {
        let c = line.get_char(i);
        proof {
            let s = line@.subrange(0, i + 1);
            assert(s.drop_last() =~= line@.subrange(0, i as int));
            assert(s.last() == c);
        }
        let one = line.substring_char(i, i + 1);
        assert(one@ =~= seq![c]);
        let ghost st0 = SplitState { tokens: tokens.deep_view(), current: current@, in_quotes, quote: quote_char };
        if in_quotes {
            if c == quote_char {
                in_quotes = false;
            } else {
                current.append(one);
                assert(current@ =~= st0.current.push(c));
            }
        } else if c == '"' || c == '\'' {
            in_quotes = true;
            quote_char = c;
        } else if c == ' ' || c == '\t' {
            if current.unicode_len() > 0 {
                let ghost t0 = tokens.deep_view();
                let ghost cur = current@;
                tokens.push(current);
                assert(tokens.deep_view() =~= t0.push(cur));
                current = String::new();
                assert(current@ =~= Seq::<char>::empty());
            }
        } else {
            current.append(one);
            assert(current@ =~= st0.current.push(c));
        }
        assert(split_step(st0, c) == (SplitState { tokens: tokens.deep_view(), current: current@, in_quotes, quote: quote_char }));
        i = i + 1;
    }
    assert(line@.subrange(0, n as int) =~= line@);
    if current.unicode_len() > 0 {
        let ghost t0 = tokens.deep_view();
        let ghost cur = current@;
        tokens.push(current);
        assert(tokens.deep_view() =~= t0.push(cur));
    }
    tokens
}

/// A word that starts with a dash.
pub open spec fn starts_with_dash(t: Seq<char>) -> bool {
    t.len() > 0 && t[0] == '-'
}

/// One option of the shell: its short and long spelling.
pub open spec fn alias_of(t: Seq<char>, a: (Seq<char>, Seq<char>)) -> bool {
    t == a.0 || t == a.1
}

/// The first option group that word `t` spells.
pub open spec fn group_of(t: Seq<char>, gs: Seq<(Seq<char>, Seq<char>)>) -> Option<int>
    decreases gs.len(),
{
    if gs.len() == 0 {
        None
    } else {
        match group_of(t, gs.drop_last()) {
            Some(k) => Some(k),
            None => if alias_of(t, gs.last()) { Some(gs.len() - 1) } else { None },
        }
    }
}

/// Reads shell words: an option takes the next word as its value (and is
/// dropped when none follows); any other word is positional.
pub open spec fn shell_scan(ws: Seq<Seq<char>>, gs: Seq<(Seq<char>, Seq<char>)>) -> (Seq<Seq<char>>, Seq<(int, Seq<char>)>)
    decreases ws.len(),
{
    if ws.len() == 0 {
        (Seq::empty(), Seq::empty())
    } else {
        match group_of(ws[0], gs) {
            Some(k) => if ws.len() >= 2 {
                let (p, h) = shell_scan(ws.subrange(2, ws.len() as int), gs);
                (p, seq![(k, ws[1])] + h)
            } else {
                (Seq::empty(), Seq::empty())
            },
            None => {
                let (p, h) = shell_scan(ws.subrange(1, ws.len() as int), gs);
                (seq![ws[0]] + p, h)
            },
        }
    }
}

pub open spec fn word_views(args: Seq<&str>) -> Seq<Seq<char>> {
    args.map_values(|a: &str| a@)
}

pub open spec fn group_views(gs: Seq<(&'static str, &'static str)>) -> Seq<(Seq<char>, Seq<char>)> {
    gs.map_values(|g: (&'static str, &'static str)| (g.0@, g.1@))
}

proof fn lemma_group_prefix(t: Seq<char>, gs: Seq<(Seq<char>, Seq<char>)>, n: int)
    requires
        0 <= n <= gs.len(),
        group_of(t, gs.subrange(0, n)) is Some,
    ensures
        group_of(t, gs) == group_of(t, gs.subrange(0, n)),
    decreases gs.len() - n,
{
    if n < gs.len() {
        let s = gs.subrange(0, n + 1);
        assert(s.drop_last() =~= gs.subrange(0, n));
        lemma_group_prefix(t, gs, n + 1);
    } else {
        assert(gs.subrange(0, n) =~= gs);
    }
}

fn find_group(t: &str, gs: &Vec<(&'static str, &'static str)>) -> (r: Option<usize>)
    ensures
        match r {
            Some(k) => k < gs@.len() && group_of(t@, group_views(gs@)) == Some(k as int),
            None => group_of(t@, group_views(gs@)) is None,
        },
{
    let ghost gv = group_views(gs@);
    let mut k: usize = 0;
    assert(gv.subrange(0, 0) =~= Seq::<(Seq<char>, Seq<char>)>::empty());
    while k < gs.len()
        invariant
            0 <= k <= gs@.len(),
            gv == group_views(gs@),
            group_of(t@, gv.subrange(0, k as int)) is None,
        decreases gs.len() - k,
    {
        let ghost s = gv.subrange(0, k + 1);
        assert(s.drop_last() =~= gv.subrange(0, k as int));
        assert(s.last() == (gs@[k as int].0@, gs@[k as int].1@));
        if str_eq(t, gs[k].0) || str_eq(t, gs[k].1) {
            proof {
                lemma_group_prefix(t@, gv, k + 1);
            }
            return Some(k);
        }
        k = k + 1;
    }
    assert(gv.subrange(0, gs@.len() as int) =~= gv);
    None
}

fn scan_words(args: &[&str], gs: &Vec<(&'static str, &'static str)>) -> (r: (Vec<String>, Vec<(usize, String)>))
    ensures
        shell_scan(word_views(args@), group_views(gs@)) == (r.0.deep_view(), hit_views(r.1@)),
{
    let ghost ws = word_views(args@);
    let ghost gv = group_views(gs@);
    let mut pos: Vec<String> = Vec::new();
    let mut hits: Vec<(usize, String)> = Vec::new();
    let mut i: usize = 0;
    assert(ws.subrange(0, ws.len() as int) =~= ws);
    proof {
        let (p, h) = shell_scan(ws, gv);
        assert(Seq::<Seq<char>>::empty() + p =~= p);
        assert(Seq::<(int, Seq<char>)>::empty() + h =~= h);
        assert(pos.deep_view() =~= Seq::<Seq<char>>::empty());
        assert(hit_views(hits@) =~= Seq::<(int, Seq<char>)>::empty());
    }
    while i < args.len()
        invariant
            0 <= i <= args@.len(),
            ws == word_views(args@),
            gv == group_views(gs@),
            ({
                let (p, h) = shell_scan(ws.subrange(i as int, ws.len() as int), gv);
                shell_scan(ws, gv) == (pos.deep_view() + p, hit_views(hits@) + h)
            }),
        decreases args.len() - i,
    {
        let ghost rest = ws.subrange(i as int, ws.len() as int);
        let t = args[i];
        assert(rest[0] == t@);
        match find_group(t, gs) {
            Some(k) => {
                if i + 1 < args.len() {
                    let v = args[i + 1];
                    assert(rest[1] == v@);
                    assert(rest.subrange(2, rest.len() as int) =~= ws.subrange(i + 2, ws.len() as int));
                    let ghost h0 = hit_views(hits@);
                    hits.push((k, v.to_owned()));
                    proof {
                        assert(hit_views(hits@) =~= h0.push((k as int, v@)));
                        let (p, h) = shell_scan(ws.subrange(i + 2, ws.len() as int), gv);
                        assert(h0 + (seq![(k as int, v@)] + h) =~= h0.push((k as int, v@)) + h);
                    }
                    i = i + 2;
                } else {
                    proof {
                        assert(pos.deep_view() + Seq::<Seq<char>>::empty() =~= pos.deep_view());
                        assert(hit_views(hits@) + Seq::<(int, Seq<char>)>::empty() =~= hit_views(hits@));
                    }
                    return (pos, hits);
                }
            },
            None => {
                assert(rest.subrange(1, rest.len() as int) =~= ws.subrange(i + 1, ws.len() as int));
                let ghost p0 = pos.deep_view();
                pos.push(t.to_owned());
                proof {
                    assert(pos.deep_view() =~= p0.push(t@));
                    let (p, h) = shell_scan(ws.subrange(i + 1, ws.len() as int), gv);
                    assert(p0 + (seq![t@] + p) =~= p0.push(t@) + p);
                }
                i = i + 1;
            },
        }
    }
    proof {
        assert(ws.subrange(i as int, ws.len() as int).len() == 0);
        assert(pos.deep_view() + Seq::<Seq<char>>::empty() =~= pos.deep_view());
        assert(hit_views(hits@) + Seq::<(int, Seq<char>)>::empty() =~= hit_views(hits@));
    }
    (pos, hits)
}

fn last_value_of(hits: &Vec<(usize, String)>, k: usize) -> (r: Option<String>)
    ensures
        opt_view(r) == last_value(hit_views(hits@), k as int),
{
    let ghost hv = hit_views(hits@);
    let mut i: usize = hits.len();
    assert(hv.subrange(0, i as int) =~= hv);
    while i > 0
        invariant
            0 <= i <= hits@.len(),
            hv == hit_views(hits@),
            last_value(hv, k as int) == last_value(hv.subrange(0, i as int), k as int),
        decreases i,
    {
        let ghost s = hv.subrange(0, i as int);
        assert(s.drop_last() =~= hv.subrange(0, i - 1));
        assert(s.last() == (hits@[i - 1].0 as int, hits@[i - 1].1@));
        if hits[i - 1].0 == k {
            return Some(hits[i - 1].1.clone());
        }
        i = i - 1;
    }
    None
}

fn all_values_of(hits: &Vec<(usize, String)>, k: usize) -> (r: Vec<String>)
    ensures
        r.deep_view() == all_values(hit_views(hits@), k as int),
{
    let ghost hv = hit_views(hits@);
    let mut out: Vec<String> = Vec::new();
    let mut i: usize = 0;
    assert(out.deep_view() =~= all_values(hv.subrange(0, 0), k as int));
    while i < hits.len()
        invariant
            0 <= i <= hits@.len(),
            hv == hit_views(hits@),
            out.deep_view() == all_values(hv.subrange(0, i as int), k as int),
        decreases hits.len() - i,
    {
        let ghost s = hv.subrange(0, i + 1);
        assert(s.drop_last() =~= hv.subrange(0, i as int));
        assert(s.last() == (hits@[i as int].0 as int, hits@[i as int].1@));
        if hits[i].0 == k {
            let ghost o0 = out.deep_view();
            out.push(hits[i].1.clone());
            assert(out.deep_view() =~= o0.push(hits@[i as int].1@));
        }
        i = i + 1;
    }
    assert(hv.subrange(0, hits@.len() as int) =~= hv);
    out
}

/// The words joined by single spaces.
pub open spec fn joined(ws: Seq<Seq<char>>) -> Seq<char>
    decreases ws.len(),
{
    if ws.len() == 0 {
        Seq::empty()
    } else if ws.len() == 1 {
        ws[0]
    } else {
        joined(ws.drop_last()) + " "@ + ws.last()
    }
}

/// The positional words that do not start with a dash.
pub open spec fn title_words(pos: Seq<Seq<char>>) -> Seq<Seq<char>> {
    pos.filter(|w: Seq<char>| !starts_with_dash(w))
}

pub open spec fn add_groups() -> Seq<(Seq<char>, Seq<char>)> {
    seq![("-d"@, "--description"@), ("-p"@, "--priority"@), ("-a"@, "--assignee"@), ("-t"@, "--tag"@)]
}

pub open spec fn list_groups() -> Seq<(Seq<char>, Seq<char>)> {
    seq![("-s"@, "--status"@), ("-a"@, "--assignee"@), ("-t"@, "--tag"@), ("-p"@, "--priority"@), ("-f"@, "--format"@)]
}

pub open spec fn update_groups() -> Seq<(Seq<char>, Seq<char>)> {
    seq![("-t"@, "--title"@), ("-d"@, "--description"@), ("-p"@, "--priority"@)]
}

fn join_title(pos: &Vec<String>) -> (r: (String, usize))
    ensures
        r.0@ == joined(title_words(pos.deep_view())),
        r.1 == title_words(pos.deep_view()).len(),
{
    let ghost pv = pos.deep_view();
    let ghost pred = |w: Seq<char>| !starts_with_dash(w);
    let mut out = String::new();
    let mut count: usize = 0;
    let mut i: usize = 0;
    assert(pv.subrange(0, 0).filter(pred) =~= Seq::<Seq<char>>::empty()) by {
        reveal(Seq::filter);
    }
    assert(out@ =~= Seq::<char>::empty());
    while i < pos.len()
        invariant
            0 <= i <= pos@.len(),
            pv == pos.deep_view(),
            pred == (|w: Seq<char>| !starts_with_dash(w)),
            count == pv.subrange(0, i as int).filter(pred).len(),
            out@ == joined(pv.subrange(0, i as int).filter(pred)),
            count <= i,
        decreases pos.len() - i,
    {
        let w = pos[i].as_str();
        proof {
            let pre = pv.subrange(0, i as int);
            assert(pv.subrange(0, i + 1) =~= pre.push(pv[i as int]));
            pre.lemma_filter_push(pv[i as int], pred);
        }
        let dashed = w.unicode_len() > 0 && w.get_char(0) == '-';
        if !dashed {
            let ghost f0 = pv.subrange(0, i as int).filter(pred);
            if count > 0 {
                out.append(" ");
            }
            out.append(w);
            proof {
                let f1 = f0.push(w@);
                assert(f1.drop_last() =~= f0);
                if count == 0 {
                    assert(out@ =~= joined(f1));
                } else {
                    assert(out@ =~= joined(f1));
                }
            }
            count = count + 1;
        }
        i = i + 1;
    }
    assert(pv.subrange(0, pos@.len() as int) =~= pv);
    (out, count)
}

/// Reads `add <title words> [-d desc] [-p prio] [-a who] [-t tag]...`.
pub fn parse_add_args(args: &[&str]) -> (r: Result<(String, Option<String>, Option<String>, Option<String>, Vec<String>), String>)
    ensures
        args@.len() == 0 ==> r is Err,
        args@.len() > 0 ==> ({
            let (p, h) = shell_scan(word_views(args@), add_groups());
            if title_words(p).len() == 0 {
                r is Err
            } else {
                r matches Ok((title, d, pr, a, tags)) && title@ == joined(title_words(p))
                    && opt_view(d) == last_value(h, 0) && opt_view(pr) == last_value(h, 1)
                    && opt_view(a) == last_value(h, 2) && tags.deep_view() == all_values(h, 3)
            }
        }),
{
    if args.len() == 0 {
        return Err("Usage: add <title> [-d description] [-p priority] [-a assignee] [-t tag...]".to_owned());
    }
    let gs = vec![("-d", "--description"), ("-p", "--priority"), ("-a", "--assignee"), ("-t", "--tag")];
    assert(group_views(gs@) =~= add_groups());
    let (pos, hits) = scan_words(args, &gs);
    let (title, count) = join_title(&pos);
    if count == 0 {
        return Err("Task title is required".to_owned());
    }
    Ok((title, last_value_of(&hits, 0), last_value_of(&hits, 1), last_value_of(&hits, 2), all_values_of(&hits, 3)))
}

/// Reads `list [-s status] [-a who] [-t tag] [-p prio] [-f format]`; the
/// status defaults to `open` and the format to a table.
pub fn parse_list_args(args: &[&str]) -> (r: (Option<String>, Option<String>, Option<String>, Option<String>, OutputFormat))
    ensures
        ({
            let (p, h) = shell_scan(word_views(args@), list_groups());
            &&& opt_view(r.0) == Some(or_default(last_value(h, 0), "open"@))
            &&& opt_view(r.1) == last_value(h, 1)
            &&& opt_view(r.2) == last_value(h, 2)
            &&& opt_view(r.3) == last_value(h, 3)
            &&& match last_value(h, 4) {
                Some(f) => (f == "json"@ ==> r.4 == OutputFormat::Json) && (f == "ids"@ ==> r.4 == OutputFormat::Ids)
                    && (f != "json"@ && f != "ids"@ ==> r.4 == OutputFormat::Table),
                None => r.4 == OutputFormat::Table,
            }
        }),
{
    let gs = vec![("-s", "--status"), ("-a", "--assignee"), ("-t", "--tag"), ("-p", "--priority"), ("-f", "--format")];
    assert(group_views(gs@) =~= list_groups());
    let (_pos, hits) = scan_words(args, &gs);
    let status = match last_value_of(&hits, 0) {
        Some(s) => s,
        None => "open".to_owned(),
    };
    let format = match last_value_of(&hits, 4) {
        Some(f) => OutputFormat::from_str(f.as_str()),
        None => OutputFormat::Table,
    };
    (Some(status), last_value_of(&hits, 1), last_value_of(&hits, 2), last_value_of(&hits, 3), format)
}

pub open spec fn is_events_flag(w: Seq<char>) -> bool {
    w == "--events"@ || w == "-e"@
}

/// Whether some word asks for the event history.
pub open spec fn asks_events(ws: Seq<Seq<char>>) -> bool {
    exists|i: int| 0 <= i < ws.len() && is_events_flag(#[trigger] ws[i])
}

/// Reads `show <id> [--events|-e]`.
pub fn parse_show_args(args: &[&str]) -> (r: Result<(String, bool), String>)
    ensures
        args@.len() == 0 ==> r is Err,
        args@.len() > 0 ==> (r matches Ok((id, events)) && id@ == args@[0]@
            && events == asks_events(word_views(args@))),
{
    if args.len() == 0 {
        return Err("Usage: show <task-id> [--events]".to_owned());
    }
    let id = args[0].to_owned();
    let mut i: usize = 0;
    while i < args.len()
        invariant
            0 <= i <= args@.len(),
            args@.len() > 0,
            id@ == args@[0]@,
            forall|j: int| 0 <= j < i ==> !is_events_flag(#[trigger] word_views(args@)[j]),
        decreases args.len() - i,
    {
        if str_eq(args[i], "--events") || str_eq(args[i], "-e") {
            assert(is_events_flag(word_views(args@)[i as int]));
            return Ok((id, true));
        }
        i = i + 1;
    }
    Ok((id, false))
}

/// The value after the first `-r` or `--resolution` that has one.
pub open spec fn resolution_in(ws: Seq<Seq<char>>) -> Option<Seq<char>>
    decreases ws.len(),
{
    if ws.len() < 2 {
        None
    } else if ws[0] == "-r"@ || ws[0] == "--resolution"@ {
        Some(ws[1])
    } else {
        resolution_in(ws.subrange(1, ws.len() as int))
    }
}

/// Reads the resolution of `complete <id> [-r resolution]`.
pub fn parse_resolution_arg(args: &[&str]) -> (r: Option<String>)
    ensures
        opt_view(r) == resolution_in(word_views(args@)),
{
    let ghost ws = word_views(args@);
    let mut i: usize = 0;
    assert(ws.subrange(0, ws.len() as int) =~= ws);
    while i < args.len()
        invariant
            0 <= i <= args@.len(),
            ws == word_views(args@),
            resolution_in(ws) == resolution_in(ws.subrange(i as int, ws.len() as int)),
        decreases args.len() - i,
    {
        let ghost rest = ws.subrange(i as int, ws.len() as int);
        assert(rest.subrange(1, rest.len() as int) =~= ws.subrange(i + 1, ws.len() as int));
        if i + 1 < args.len() {
            assert(rest[0] == args@[i as int]@);
            assert(rest[1] == args@[i + 1]@);
        }
        if (str_eq(args[i], "-r") || str_eq(args[i], "--resolution")) && i + 1 < args.len() {
            return Some(args[i + 1].to_owned());
        }
        i = i + 1;
    }
    None
}

/// Reads `update <id> [-t title] [-d desc] [-p prio]`.
pub fn parse_update_args(args: &[&str]) -> (r: (Option<String>, Option<String>, Option<String>))
    ensures
        ({
            let (p, h) = shell_scan(word_views(args@), update_groups());
            &&& opt_view(r.0) == last_value(h, 0)
            &&& opt_view(r.1) == last_value(h, 1)
            &&& opt_view(r.2) == last_value(h, 2)
        }),
{
    let gs = vec![("-t", "--title"), ("-d", "--description"), ("-p", "--priority")];
    assert(group_views(gs@) =~= update_groups());
    let (_pos, hits) = scan_words(args, &gs);
    (last_value_of(&hits, 0), last_value_of(&hits, 1), last_value_of(&hits, 2))
}

} // verus!
