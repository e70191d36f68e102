//! The command-line grammar: subcommands, their positional arguments and
//! their options, read from an argument vector.
use vstd::prelude::*;
use crate::model::opt_view;
use crate::text::str_eq;

verus! {

/// Output layout requested for listings.
#[derive(Debug, Clone, Copy, PartialEq, Eq, Structural)]
pub enum OutputFormat {
    Table,
    Json,
    Ids,
}

impl OutputFormat {
    /// `json` and `ids` name their layouts; anything else is a table.
    pub fn from_str(s: &str) -> (r: OutputFormat)
        ensures
            s@ == "json"@ ==> r == OutputFormat::Json,
            s@ == "ids"@ ==> r == OutputFormat::Ids,
            s@ != "json"@ && s@ != "ids"@ ==> r == OutputFormat::Table,
    {
        proof {
            reveal_strlit("json");
            reveal_strlit("ids");
            assert("json"@.len() == 4);
            assert("ids"@.len() == 3);
            assert("ids"@ != "json"@);
        }
        if str_eq(s, "json") {
            OutputFormat::Json
        } else if str_eq(s, "ids") {
            OutputFormat::Ids
        } else {
            OutputFormat::Table
        }
    }
}

/// A parsed command line.
pub struct Cli {
    pub command: Commands,
}

/// The subcommands and what each carries.
#[allow(inconsistent_fields)]
pub enum Commands {
    Init,
    Add {
        title: String,
        description: Option<String>,
        priority: Option<String>,
        assignee: Option<String>,
        tag: Vec<String>,
        stream: Option<String>,
    },
    List {
        status: String,
        assignee: Option<String>,
        tag: Option<String>,
        priority: Option<String>,
        stream: Option<String>,
        stream_name: Option<String>,
        no_stream: bool,
        format: String,
    },
    Show { id: String, events: bool },
    Rebuild,
    Archive { days: u32, dry_run: bool },
    Validate { strict: bool },
    Shell,
    Complete { id: String, resolution: String },
    Reopen { id: String },
    Update {
        id: String,
        title: Option<String>,
        description: Option<String>,
        priority: Option<String>,
        stream: Option<String>,
    },
    Assign { id: String, assignee: String },
    Claim { id: String },
    Stream { command: StreamCommands },
    Free { id: String },
}

/// The stream subcommands.
#[allow(inconsistent_fields)]
pub enum StreamCommands {
    Add { name: String, description: Option<String> },
    List { format: String },
    Show { id: Option<String>, name: Option<String> },
    Update { id: String, name: Option<String>, description: Option<String> },
    Delete { id: String },
}

/// One option a subcommand accepts: `--long`, perhaps `-s`, with or
/// without a value.
pub struct OptDesc {
    pub long: &'static str,
    pub short: Option<char>,
    pub takes_value: bool,
}

pub struct OptView {
    pub long: Seq<char>,
    pub short: Option<char>,
    pub takes_value: bool,
}

pub open spec fn opt_views(os: Seq<OptDesc>) -> Seq<OptView> {
    os.map_values(|o: OptDesc| OptView { long: o.long@, short: o.short, takes_value: o.takes_value })
}

/// Whether token `t` names option `o`.
pub open spec fn names_option(t: Seq<char>, o: OptView) -> bool {
    t == "--"@ + o.long || (o.short matches Some(c) && t == seq!['-', c])
}

/// The first option that token `t` names, if any.
pub open spec fn lookup(t: Seq<char>, os: Seq<OptView>) -> Option<int>
    decreases os.len(),
{
    if os.len() == 0 {
        None
    } else {
        match lookup(t, os.drop_last()) {
            Some(k) => Some(k),
            None => if names_option(t, os.last()) { Some(os.len() - 1) } else { None },
        }
    }
}

/// A token that looks like an option: a dash followed by something.
pub open spec fn dashed(t: Seq<char>) -> bool {
    t.len() > 1 && t[0] == '-'
}

/// The positional arguments and the option uses of a token list, in order.
pub struct Scanned {
    pub pos: Seq<Seq<char>>,
    pub hits: Seq<(int, Seq<char>)>,
}

/// Reads tokens: an option with a value takes the next token; an unknown
/// dashed token, or a value-taking option at the end, is an error.
pub open spec fn scan(ts: Seq<Seq<char>>, os: Seq<OptView>) -> Option<Scanned>
    decreases ts.len(),
{
    if ts.len() == 0 {
        Some(Scanned { pos: Seq::empty(), hits: Seq::empty() })
    } else {
        let t = ts[0];
        match lookup(t, os) {
            Some(k) => if os[k].takes_value {
                if ts.len() < 2 {
                    None
                } else {
                    match scan(ts.subrange(2, ts.len() as int), os) {
                        Some(s) => Some(Scanned { hits: seq![(k, ts[1])] + s.hits, ..s }),
                        None => None,
                    }
                }
            } else {
                match scan(ts.subrange(1, ts.len() as int), os) {
                    Some(s) => Some(Scanned { hits: seq![(k, Seq::<char>::empty())] + s.hits, ..s }),
                    None => None,
                }
            },
            None => if dashed(t) {
                None
            } else {
                match scan(ts.subrange(1, ts.len() as int), os) {
                    Some(s) => Some(Scanned { pos: seq![t] + s.pos, ..s }),
                    None => None,
                }
            },
        }
    }
}

/// The value of the last use of option `k`.
pub open spec fn last_value(hits: Seq<(int, Seq<char>)>, k: int) -> Option<Seq<char>>
    decreases hits.len(),
{
    if hits.len() == 0 {
        None
    } else if hits.last().0 == k {
        Some(hits.last().1)
    } else {
        last_value(hits.drop_last(), k)
    }
}

/// The values of every use of option `k`, in order.
pub open spec fn all_values(hits: Seq<(int, Seq<char>)>, k: int) -> Seq<Seq<char>>
    decreases hits.len(),
{
    if hits.len() == 0 {
        Seq::empty()
    } else if hits.last().0 == k {
        all_values(hits.drop_last(), k).push(hits.last().1)
    } else {
        all_values(hits.drop_last(), k)
    }
}

/// Whether option `k` was used.
pub open spec fn used(hits: Seq<(int, Seq<char>)>, k: int) -> bool {
    exists|i: int| 0 <= i < hits.len() && #[trigger] hits[i].0 == k
}

/// A decimal number that fits in 32 bits, digits only.
pub open spec fn decimal_value(s: Seq<char>) -> Option<nat>
    decreases s.len(),
{
    if s.len() == 0 {
        None
    } else {
        let d = s.last();
        if !('0' <= d && d <= '9') {
            None
        } else {
            let digit = (d as nat - '0' as nat) as nat;
            if s.len() == 1 {
                Some(digit)
            } else {
                match decimal_value(s.drop_last()) {
                    Some(v) => if v * 10 + digit <= u32::MAX { Some(v * 10 + digit) } else { None },
                    None => None,
                }
            }
        }
    }
}

pub open spec fn or_default(o: Option<Seq<char>>, d: Seq<char>) -> Seq<char> {
    match o {
        Some(s) => s,
        None => d,
    }
}

/// The subcommands, stream ones included.
#[derive(Debug, Clone, Copy, PartialEq, Eq, Structural)]
pub enum Sub {
    Init,
    Add,
    List,
    Show,
    Rebuild,
    Archive,
    Validate,
    Shell,
    Complete,
    Reopen,
    Update,
    Assign,
    Claim,
    Free,
    StreamAdd,
    StreamList,
    StreamShow,
    StreamUpdate,
    StreamDelete,
}

/// The subcommand a name selects at the top level.
pub open spec fn top_sub(t: Seq<char>) -> Option<Sub> {
    if t == "init"@ { Some(Sub::Init) }
    else if t == "add"@ { Some(Sub::Add) }
    else if t == "list"@ { Some(Sub::List) }
    else if t == "show"@ { Some(Sub::Show) }
    else if t == "rebuild"@ { Some(Sub::Rebuild) }
    else if t == "archive"@ { Some(Sub::Archive) }
    else if t == "validate"@ { Some(Sub::Validate) }
    else if t == "shell"@ { Some(Sub::Shell) }
    else if t == "complete"@ { Some(Sub::Complete) }
    else if t == "reopen"@ { Some(Sub::Reopen) }
    else if t == "update"@ { Some(Sub::Update) }
    else if t == "assign"@ { Some(Sub::Assign) }
    else if t == "claim"@ { Some(Sub::Claim) }
    else if t == "free"@ { Some(Sub::Free) }
    else { None }
}

/// The subcommand a name selects after `stream`.
pub open spec fn stream_sub(t: Seq<char>) -> Option<Sub> {
    if t == "add"@ { Some(Sub::StreamAdd) }
    else if t == "list"@ { Some(Sub::StreamList) }
    else if t == "show"@ { Some(Sub::StreamShow) }
    else if t == "update"@ { Some(Sub::StreamUpdate) }
    else if t == "delete"@ { Some(Sub::StreamDelete) }
    else { None }
}

/// The options each subcommand accepts.
pub open spec fn table(sub: Sub) -> Seq<OptView> {
    match sub {
        Sub::Add => seq![
            OptView { long: "description"@, short: Some('d'), takes_value: true },
            OptView { long: "priority"@, short: Some('p'), takes_value: true },
            OptView { long: "assignee"@, short: Some('a'), takes_value: true },
            OptView { long: "tag"@, short: Some('t'), takes_value: true },
            OptView { long: "stream"@, short: None, takes_value: true },
        ],
        Sub::List => seq![
            OptView { long: "status"@, short: Some('s'), takes_value: true },
            OptView { long: "assignee"@, short: Some('a'), takes_value: true },
            OptView { long: "tag"@, short: Some('t'), takes_value: true },
            OptView { long: "priority"@, short: Some('p'), takes_value: true },
            OptView { long: "stream"@, short: None, takes_value: true },
            OptView { long: "stream-name"@, short: None, takes_value: true },
            OptView { long: "no-stream"@, short: None, takes_value: false },
            OptView { long: "format"@, short: Some('f'), takes_value: true },
        ],
        Sub::Show => seq![OptView { long: "events"@, short: None, takes_value: false }],
        Sub::Archive => seq![
            OptView { long: "days"@, short: Some('d'), takes_value: true },
            OptView { long: "dry-run"@, short: None, takes_value: false },
        ],
        Sub::Validate => seq![OptView { long: "strict"@, short: None, takes_value: false }],
        Sub::Complete => seq![OptView { long: "resolution"@, short: Some('r'), takes_value: true }],
        Sub::Update => seq![
            OptView { long: "title"@, short: Some('t'), takes_value: true },
            OptView { long: "description"@, short: Some('d'), takes_value: true },
            OptView { long: "priority"@, short: Some('p'), takes_value: true },
            OptView { long: "stream"@, short: None, takes_value: true },
        ],
        Sub::StreamAdd => seq![OptView { long: "description"@, short: Some('d'), takes_value: true }],
        Sub::StreamList => seq![OptView { long: "format"@, short: Some('f'), takes_value: true }],
        Sub::StreamShow => seq![OptView { long: "name"@, short: Some('n'), takes_value: true }],
        Sub::StreamUpdate => seq![
            OptView { long: "name"@, short: Some('n'), takes_value: true },
            OptView { long: "description"@, short: Some('d'), takes_value: true },
        ],
        _ => Seq::empty(),
    }
}

/// The number of positional arguments each subcommand takes, at least and
/// at most.
pub open spec fn arity(sub: Sub) -> (int, int) {
    match sub {
        Sub::Add | Sub::Show | Sub::Complete | Sub::Reopen | Sub::Update | Sub::Claim | Sub::Free
        | Sub::StreamAdd | Sub::StreamUpdate | Sub::StreamDelete => (1, 1),
        Sub::Assign => (2, 2),
        Sub::StreamShow => (0, 1),
        _ => (0, 0),
    }
}

/// Which subcommand an argument vector names, and where its own tokens
/// begin.
pub open spec fn selected(args: Seq<Seq<char>>) -> Option<(Sub, int)> {
    if args.len() < 2 {
        None
    } else if args[1] == "stream"@ {
        if args.len() >= 3 && stream_sub(args[2]) is Some {
            Some((stream_sub(args[2]).unwrap(), 3))
        } else {
            None
        }
    } else {
        match top_sub(args[1]) {
            Some(sub) => Some((sub, 2)),
            None => None,
        }
    }
}

/// The reading of the argument vector, when it is well formed.
pub open spec fn reading(args: Seq<Seq<char>>) -> Option<(Sub, Scanned)> {
    match selected(args) {
        Some((sub, start)) => match scan(args.subrange(start, args.len() as int), table(sub)) {
            Some(s) => if arity(sub).0 <= s.pos.len() <= arity(sub).1 && (sub == Sub::Archive ==> (
                last_value(s.hits, 0) matches Some(d) ==> decimal_value(d) is Some)) {
                Some((sub, s))
            } else {
                None
            },
            None => None,
        },
        None => None,
    }
}

/// Whether `c` is what the reading `(sub, s)` describes.
pub open spec fn describes(sub: Sub, s: Scanned, c: Commands) -> bool {
    let h = s.hits;
    match c {
        Commands::Init => sub == Sub::Init,
        Commands::Add { title, description, priority, assignee, tag, stream } => sub == Sub::Add
            && title@ == s.pos[0] && opt_view(description) == last_value(h, 0)
            && opt_view(priority) == last_value(h, 1) && opt_view(assignee) == last_value(h, 2)
            && tag.deep_view() == all_values(h, 3) && opt_view(stream) == last_value(h, 4),
        Commands::List { status, assignee, tag, priority, stream, stream_name, no_stream, format } => sub == Sub::List
            && status@ == or_default(last_value(h, 0), "open"@) && opt_view(assignee) == last_value(h, 1)
            && opt_view(tag) == last_value(h, 2) && opt_view(priority) == last_value(h, 3)
            && opt_view(stream) == last_value(h, 4) && opt_view(stream_name) == last_value(h, 5)
            && no_stream == used(h, 6) && format@ == or_default(last_value(h, 7), "table"@),
        Commands::Show { id, events } => sub == Sub::Show && id@ == s.pos[0] && events == used(h, 0),
        Commands::Rebuild => sub == Sub::Rebuild,
        Commands::Archive { days, dry_run } => sub == Sub::Archive && dry_run == used(h, 1) && match last_value(h, 0) {
            Some(d) => decimal_value(d) == Some(days as nat),
            None => days == 30,
        },
        Commands::Validate { strict } => sub == Sub::Validate && strict == used(h, 0),
        Commands::Shell => sub == Sub::Shell,
        Commands::Complete { id, resolution } => sub == Sub::Complete && id@ == s.pos[0]
            && resolution@ == or_default(last_value(h, 0), "done"@),
        Commands::Reopen { id } => sub == Sub::Reopen && id@ == s.pos[0],
        Commands::Update { id, title, description, priority, stream } => sub == Sub::Update && id@ == s.pos[0]
            && opt_view(title) == last_value(h, 0) && opt_view(description) == last_value(h, 1)
            && opt_view(priority) == last_value(h, 2) && opt_view(stream) == last_value(h, 3),
        Commands::Assign { id, assignee } => sub == Sub::Assign && id@ == s.pos[0] && assignee@ == s.pos[1],
        Commands::Claim { id } => sub == Sub::Claim && id@ == s.pos[0],
        Commands::Free { id } => sub == Sub::Free && id@ == s.pos[0],
        Commands::Stream { command } => match command {
            StreamCommands::Add { name, description } => sub == Sub::StreamAdd && name@ == s.pos[0]
                && opt_view(description) == last_value(h, 0),
            StreamCommands::List { format } => sub == Sub::StreamList
                && format@ == or_default(last_value(h, 0), "table"@),
            StreamCommands::Show { id, name } => sub == Sub::StreamShow
                && opt_view(id) == (if s.pos.len() > 0 { Some(s.pos[0]) } else { None })
                && opt_view(name) == last_value(h, 0),
            StreamCommands::Update { id, name, description } => sub == Sub::StreamUpdate && id@ == s.pos[0]
                && opt_view(name) == last_value(h, 0) && opt_view(description) == last_value(h, 1),
            StreamCommands::Delete { id } => sub == Sub::StreamDelete && id@ == s.pos[0],
        },
    }
}

pub open spec fn arg_views(args: Seq<&str>) -> Seq<Seq<char>> {
    args.map_values(|a: &str| a@)
}

pub open spec fn hit_views(hits: Seq<(usize, String)>) -> Seq<(int, Seq<char>)> {
    hits.map_values(|h: (usize, String)| (h.0 as int, h.1@))
}

fn option_table(sub: Sub) -> (r: Vec<OptDesc>)
    ensures
        opt_views(r@) == table(sub),
{
    let r = match sub {
        Sub::Add => vec![
            OptDesc { long: "description", short: Some('d'), takes_value: true },
            OptDesc { long: "priority", short: Some('p'), takes_value: true },
            OptDesc { long: "assignee", short: Some('a'), takes_value: true },
            OptDesc { long: "tag", short: Some('t'), takes_value: true },
            OptDesc { long: "stream", short: None, takes_value: true },
        ],
        Sub::List => vec![
            OptDesc { long: "status", short: Some('s'), takes_value: true },
            OptDesc { long: "assignee", short: Some('a'), takes_value: true },
            OptDesc { long: "tag", short: Some('t'), takes_value: true },
            OptDesc { long: "priority", short: Some('p'), takes_value: true },
            OptDesc { long: "stream", short: None, takes_value: true },
            OptDesc { long: "stream-name", short: None, takes_value: true },
            OptDesc { long: "no-stream", short: None, takes_value: false },
            OptDesc { long: "format", short: Some('f'), takes_value: true },
        ],
        Sub::Show => vec![OptDesc { long: "events", short: None, takes_value: false }],
        Sub::Archive => vec![
            OptDesc { long: "days", short: Some('d'), takes_value: true },
            OptDesc { long: "dry-run", short: None, takes_value: false },
        ],
        Sub::Validate => vec![OptDesc { long: "strict", short: None, takes_value: false }],
        Sub::Complete => vec![OptDesc { long: "resolution", short: Some('r'), takes_value: true }],
        Sub::Update => vec![
            OptDesc { long: "title", short: Some('t'), takes_value: true },
            OptDesc { long: "description", short: Some('d'), takes_value: true },
            OptDesc { long: "priority", short: Some('p'), takes_value: true },
            OptDesc { long: "stream", short: None, takes_value: true },
        ],
        Sub::StreamAdd => vec![OptDesc { long: "description", short: Some('d'), takes_value: true }],
        Sub::StreamList => vec![OptDesc { long: "format", short: Some('f'), takes_value: true }],
        Sub::StreamShow => vec![OptDesc { long: "name", short: Some('n'), takes_value: true }],
        Sub::StreamUpdate => vec![
            OptDesc { long: "name", short: Some('n'), takes_value: true },
            OptDesc { long: "description", short: Some('d'), takes_value: true },
        ],
        _ => Vec::new(),
    };
    assert(opt_views(r@) =~= table(sub));
    r
}

fn names_opt(t: &str, o: &OptDesc) -> (r: bool)
    ensures
        r == names_option(t@, OptView { long: o.long@, short: o.short, takes_value: o.takes_value }),
{
    let mut long = "--".to_owned();
    long.append(o.long);
    proof {
        reveal_strlit("--");
    }
    if str_eq(t, long.as_str()) {
        return true;
    }
    match o.short {
        Some(c) => {
            if t.unicode_len() == 2 && t.get_char(0) == '-' && t.get_char(1) == c {
                assert(t@ =~= seq!['-', c]);
                true
            } else {
                assert(t@ != seq!['-', c]) by {
                    if t@ == seq!['-', c] {
                        assert(t@.len() == 2);
                        assert(t@[0] == '-');
                        assert(t@[1] == c);
                    }
                }
                false
            }
        },
        None => false,
    }
}

proof fn lemma_lookup_prefix(t: Seq<char>, os: Seq<OptView>, n: int)
    requires
        0 <= n <= os.len(),
        lookup(t, os.subrange(0, n)) is Some,
    ensures
        lookup(t, os) == lookup(t, os.subrange(0, n)),
    decreases os.len() - n,
{
    if n < os.len() {
        let s = os.subrange(0, n + 1);
        assert(s.drop_last() =~= os.subrange(0, n));
        lemma_lookup_prefix(t, os, n + 1);
    } else {
        assert(os.subrange(0, n) =~= os);
    }
}

proof fn lemma_lookup_range(t: Seq<char>, os: Seq<OptView>)
    ensures
        lookup(t, os) matches Some(k) ==> 0 <= k < os.len(),
    decreases os.len(),
{
    if os.len() > 0 {
        lemma_lookup_range(t, os.drop_last());
    }
}

fn find_option(t: &str, os: &Vec<OptDesc>) -> (r: Option<usize>)
    ensures
        match r {
            Some(k) => k < os@.len() && lookup(t@, opt_views(os@)) == Some(k as int),
            None => lookup(t@, opt_views(os@)) is None,
        },
{
    let ghost ov = opt_views(os@);
    let mut k: usize = 0;
    assert(ov.subrange(0, 0) =~= Seq::<OptView>::empty());
    while k < os.len()
        invariant
            0 <= k <= os@.len(),
            ov == opt_views(os@),
            lookup(t@, ov.subrange(0, k as int)) is None,
        decreases os.len() - k,
    {
        let ghost s = ov.subrange(0, k + 1);
        assert(s.drop_last() =~= ov.subrange(0, k as int));
        if names_opt(t, &os[k]) {
            proof {
                lemma_lookup_prefix(t@, ov, k + 1);
            }
            return Some(k);
        }
        k = k + 1;
    }
    assert(ov.subrange(0, os@.len() as int) =~= ov);
    None
}

fn is_dashed(t: &str) -> (r: bool)
    ensures
        r == dashed(t@),
{
    t.unicode_len() > 1 && t.get_char(0) == '-'
}

/// The continuation of a scan whose first part produced `pos` and `hits`.
pub open spec fn after(pos: Seq<Seq<char>>, hits: Seq<(int, Seq<char>)>, rest: Option<Scanned>) -> Option<Scanned> {
    match rest {
        Some(s) => Some(Scanned { pos: pos + s.pos, hits: hits + s.hits }),
        None => None,
    }
}

fn scan_tokens(args: &[&str], start: usize, os: &Vec<OptDesc>) -> (r: Option<(Vec<String>, Vec<(usize, String)>)>)
    requires
        start <= args@.len(),
    ensures
        match scan(arg_views(args@).subrange(start as int, args@.len() as int), opt_views(os@)) {
            Some(s) => r matches Some((p, h)) && p.deep_view() == s.pos && hit_views(h@) == s.hits,
            None => r is None,
        },
{
    let ghost ts = arg_views(args@).subrange(start as int, args@.len() as int);
    let ghost ov = opt_views(os@);
    let mut pos: Vec<String> = Vec::new();
    let mut hits: Vec<(usize, String)> = Vec::new();
    let mut i: usize = start;
    assert(ts =~= arg_views(args@).subrange(i as int, args@.len() as int));
    assert(pos.deep_view() =~= Seq::<Seq<char>>::empty());
    assert(hit_views(hits@) =~= Seq::<(int, Seq<char>)>::empty());
    proof {
        let e = Seq::<Seq<char>>::empty();
        let eh = Seq::<(int, Seq<char>)>::empty();
        match scan(ts, ov) {
            Some(s) => {
                assert(e + s.pos =~= s.pos);
                assert(eh + s.hits =~= s.hits);
            },
            None => {},
        }
    }
    while i < args.len()
        invariant
            start <= i <= args@.len(),
            ov == opt_views(os@),
            ts == arg_views(args@).subrange(start as int, args@.len() as int),
            scan(ts, ov) == after(pos.deep_view(), hit_views(hits@), scan(arg_views(args@).subrange(i as int, args@.len() as int), ov)),
        decreases args.len() - i,
    {
        let ghost rest = arg_views(args@).subrange(i as int, args@.len() as int);
        let t = args[i];
        assert(rest[0] == t@);
        match find_option(t, os) {
            Some(k) => {
                proof { lemma_lookup_range(t@, ov); }
                assert(ov[k as int].takes_value == os@[k as int].takes_value);
                if os[k].takes_value {
                    if i + 1 >= args.len() {
                        assert(scan(rest, ov) is None);
                        return None;
                    }
                    let v = args[i + 1];
                    assert(rest[1] == v@);
                    assert(rest.subrange(2, rest.len() as int) =~= arg_views(args@).subrange(i + 2, args@.len() as int));
                    let ghost p0 = pos.deep_view();
                    let ghost h0 = hit_views(hits@);
                    hits.push((k, v.to_owned()));
                    proof {
                        assert(hit_views(hits@) =~= h0.push((k as int, v@)));
                        match scan(arg_views(args@).subrange(i + 2, args@.len() as int), ov) {
                            Some(s) => {
                                assert(h0 + (seq![(k as int, v@)] + s.hits) =~= h0.push((k as int, v@)) + s.hits);
                            },
                            None => {},
                        }
                    }
                    i = i + 2;
                } else {
                    assert(rest.subrange(1, rest.len() as int) =~= arg_views(args@).subrange(i + 1, args@.len() as int));
                    let ghost h0 = hit_views(hits@);
                    hits.push((k, String::new()));
                    proof {
                        assert(hit_views(hits@) =~= h0.push((k as int, Seq::<char>::empty())));
                        match scan(arg_views(args@).subrange(i + 1, args@.len() as int), ov) {
                            Some(s) => {
                                assert(h0 + (seq![(k as int, Seq::<char>::empty())] + s.hits)
                                    =~= h0.push((k as int, Seq::<char>::empty())) + s.hits);
                            },
                            None => {},
                        }
                    }
                    i = i + 1;
                }
            },
            None => {
                if is_dashed(t) {
                    assert(scan(rest, ov) is None);
                    return None;
                }
                assert(rest.subrange(1, rest.len() as int) =~= arg_views(args@).subrange(i + 1, args@.len() as int));
                let ghost p0 = pos.deep_view();
                pos.push(t.to_owned());
                proof {
                    assert(pos.deep_view() =~= p0.push(t@));
                    match scan(arg_views(args@).subrange(i + 1, args@.len() as int), ov) {
                        Some(s) => {
                            assert(p0 + (seq![t@] + s.pos) =~= p0.push(t@) + s.pos);
                        },
                        None => {},
                    }
                }
                i = i + 1;
            },
        }
    }
    proof {
        let empty_rest = arg_views(args@).subrange(i as int, args@.len() as int);
        assert(empty_rest.len() == 0);
        assert(pos.deep_view() + Seq::<Seq<char>>::empty() =~= pos.deep_view());
        assert(hit_views(hits@) + Seq::<(int, Seq<char>)>::empty() =~= hit_views(hits@));
        assert(scan(empty_rest, ov) == Some(Scanned { pos: Seq::empty(), hits: Seq::empty() }));
        assert(scan(ts, ov) == Some(Scanned { pos: pos.deep_view(), hits: hit_views(hits@) }));
    }
    Some((pos, hits))
}

fn last_of(hits: &Vec<(usize, String)>, k: usize) -> (r: Option<String>)
    ensures
        opt_view(r) == last_value(hit_views(hits@), k as int),
{
    let ghost hv = hit_views(hits@);
    let mut i: usize = hits.len();
    assert(hv.subrange(0, i as int) =~= hv);
    while i > 0
        invariant
            0 <= i <= hits@.len(),
            hv == hit_views(hits@),
            last_value(hv, k as int) == last_value(hv.subrange(0, i as int), k as int),
        decreases i,
    {
        let ghost s = hv.subrange(0, i as int);
        assert(s.drop_last() =~= hv.subrange(0, i - 1));
        assert(s.last() == (hits@[i - 1].0 as int, hits@[i - 1].1@));
        if hits[i - 1].0 == k {
            return Some(hits[i - 1].1.clone());
        }
        i = i - 1;
    }
    None
}

fn all_of(hits: &Vec<(usize, String)>, k: usize) -> (r: Vec<String>)
    ensures
        r.deep_view() == all_values(hit_views(hits@), k as int),
{
    let ghost hv = hit_views(hits@);
    let mut out: Vec<String> = Vec::new();
    let mut i: usize = 0;
    assert(out.deep_view() =~= all_values(hv.subrange(0, 0), k as int));
    while i < hits.len()
        invariant
            0 <= i <= hits@.len(),
            hv == hit_views(hits@),
            out.deep_view() == all_values(hv.subrange(0, i as int), k as int),
        decreases hits.len() - i,
    {
        let ghost s = hv.subrange(0, i + 1);
        assert(s.drop_last() =~= hv.subrange(0, i as int));
        assert(s.last() == (hits@[i as int].0 as int, hits@[i as int].1@));
        if hits[i].0 == k {
            let ghost o0 = out.deep_view();
            out.push(hits[i].1.clone());
            assert(out.deep_view() =~= o0.push(hits@[i as int].1@));
        }
        i = i + 1;
    }
    assert(hv.subrange(0, hits@.len() as int) =~= hv);
    out
}

fn was_used(hits: &Vec<(usize, String)>, k: usize) -> (r: bool)
    ensures
        r == used(hit_views(hits@), k as int),
{
    let mut i: usize = 0;
    while i < hits.len()
        invariant
            0 <= i <= hits@.len(),
            forall|j: int| 0 <= j < i ==> hits@[j].0 != k,
        decreases hits.len() - i,
    {
        if hits[i].0 == k {
            assert(hit_views(hits@)[i as int].0 == k as int);
            return true;
        }
        i = i + 1;
    }
    proof {
        let hv = hit_views(hits@);
        assert forall|j: int| 0 <= j < hv.len() implies #[trigger] hv[j].0 != k as int by {
            assert(hv[j].0 == hits@[j].0 as int);
        }
    }
    false
}

/// Reads a decimal number of at most 32 bits.
pub fn parse_u32(s: &str) -> (r: Option<u32>)
    ensures
        match decimal_value(s@) {
            Some(v) => r == Some(v as u32),
            None => r is None,
        },
{
    let n = s.unicode_len();
    if n == 0 {
        return None;
    }
    let mut v: u32 = 0;
    let mut i: usize = 0;
    while i < n
        invariant
            n == s@.len(),
            n > 0,
            0 <= i <= n,
            i > 0 ==> decimal_value(s@.subrange(0, i as int)) == Some(v as nat),
            i == 0 ==> v == 0,
        decreases n - i,
    {
        let c = s.get_char(i);
        let ghost pre = s@.subrange(0, i + 1);
        assert(pre.drop_last() =~= s@.subrange(0, i as int));
        assert(pre.last() == c);
        if !('0' <= c && c <= '9') {
            proof { lemma_decimal_none_extends(s@, i + 1); }
            return None;
        }
        let d = (c as u32) - ('0' as u32);
        if i > 0 && (v > 429496729 || (v == 429496729 && d > 5)) {
            proof { lemma_decimal_none_extends(s@, i + 1); }
            return None;
        }
        v = v * 10 + d;
        i = i + 1;
    }
    assert(s@.subrange(0, n as int) =~= s@);
    Some(v)
}

proof fn lemma_decimal_none_extends(s: Seq<char>, n: int)
    requires
        0 < n <= s.len(),
        decimal_value(s.subrange(0, n)) is None,
    ensures
        decimal_value(s) is None,
    decreases s.len() - n,
{
    if n < s.len() {
        let t = s.subrange(0, n + 1);
        assert(t.drop_last() =~= s.subrange(0, n));
        lemma_decimal_none_extends(s, n + 1);
    } else {
        assert(s.subrange(0, n) =~= s);
    }
}

fn or_default_str(o: Option<String>, d: &str) -> (r: String)
    ensures
        r@ == or_default(opt_view(o), d@),
{
    match o {
        Some(s) => s,
        None => d.to_owned(),
    }
}

fn top_sub_of(t: &str) -> (r: Option<Sub>)
    ensures
        r == top_sub(t@),
{
    if str_eq(t, "init") { Some(Sub::Init) }
    else if str_eq(t, "add") { Some(Sub::Add) }
    else if str_eq(t, "list") { Some(Sub::List) }
    else if str_eq(t, "show") { Some(Sub::Show) }
    else if str_eq(t, "rebuild") { Some(Sub::Rebuild) }
    else if str_eq(t, "archive") { Some(Sub::Archive) }
    else if str_eq(t, "validate") { Some(Sub::Validate) }
    else if str_eq(t, "shell") { Some(Sub::Shell) }
    else if str_eq(t, "complete") { Some(Sub::Complete) }
    else if str_eq(t, "reopen") { Some(Sub::Reopen) }
    else if str_eq(t, "update") { Some(Sub::Update) }
    else if str_eq(t, "assign") { Some(Sub::Assign) }
    else if str_eq(t, "claim") { Some(Sub::Claim) }
    else if str_eq(t, "free") { Some(Sub::Free) }
    else { None }
}

fn stream_sub_of(t: &str) -> (r: Option<Sub>)
    ensures
        r == stream_sub(t@),
{
    if str_eq(t, "add") { Some(Sub::StreamAdd) }
    else if str_eq(t, "list") { Some(Sub::StreamList) }
    else if str_eq(t, "show") { Some(Sub::StreamShow) }
    else if str_eq(t, "update") { Some(Sub::StreamUpdate) }
    else if str_eq(t, "delete") { Some(Sub::StreamDelete) }
    else { None }
}

fn take_first(pos: Vec<String>) -> (r: String)
    requires
        pos@.len() >= 1,
    ensures
        r@ == pos.deep_view()[0],
{
    pos[0].clone()
}

impl Cli {
    /// Reads an argument vector whose first entry is the program name.
    pub fn try_parse_from(args: &[&str]) -> (r: Result<Cli, String>)
        ensures
            match reading(arg_views(args@)) {
                Some((sub, s)) => r matches Ok(c) && describes(sub, s, c.command),
                None => r is Err,
            },
    {
        let ghost av = arg_views(args@);
        if args.len() < 2 {
            return Err("a subcommand is required".to_owned());
        }
        assert(av[1] == args@[1]@);
        let sub: Sub;
        let start: usize;
        if str_eq(args[1], "stream") {
            if args.len() < 3 {
                return Err("a stream subcommand is required".to_owned());
            }
            assert(av[2] == args@[2]@);
            match stream_sub_of(args[2]) {
                Some(x) => {
                    sub = x;
                },
                None => {
                    return Err("unknown stream subcommand".to_owned());
                },
            }
            start = 3;
        } else {
            match top_sub_of(args[1]) {
                Some(x) => {
                    sub = x;
                },
                None => {
                    return Err("unknown subcommand".to_owned());
                },
            }
            start = 2;
        }
        assert(selected(av) == Some((sub, start as int)));
        let os = option_table(sub);
        let scanned = scan_tokens(args, start, &os);
        let (pos, hits) = match scanned {
            Some(ph) => ph,
            None => {
                return Err("unexpected or incomplete option".to_owned());
            },
        };
        let np = pos.len();
        let (lo, hi): (usize, usize) = match sub {
            Sub::Add | Sub::Show | Sub::Complete | Sub::Reopen | Sub::Update | Sub::Claim | Sub::Free
            | Sub::StreamAdd | Sub::StreamUpdate | Sub::StreamDelete => (1, 1),
            Sub::Assign => (2, 2),
            Sub::StreamShow => (0, 1),
            _ => (0, 0),
        };
        if np < lo || np > hi {
            return Err("wrong number of arguments".to_owned());
        }
        let command = match sub {
            Sub::Init => Commands::Init,
            Sub::Add => Commands::Add {
                title: take_first(pos),
                description: last_of(&hits, 0),
                priority: last_of(&hits, 1),
                assignee: last_of(&hits, 2),
                tag: all_of(&hits, 3),
                stream: last_of(&hits, 4),
            },
            Sub::List => Commands::List {
                status: or_default_str(last_of(&hits, 0), "open"),
                assignee: last_of(&hits, 1),
                tag: last_of(&hits, 2),
                priority: last_of(&hits, 3),
                stream: last_of(&hits, 4),
                stream_name: last_of(&hits, 5),
                no_stream: was_used(&hits, 6),
                format: or_default_str(last_of(&hits, 7), "table"),
            },
            Sub::Show => Commands::Show { id: take_first(pos), events: was_used(&hits, 0) },
            Sub::Rebuild => Commands::Rebuild,
            Sub::Archive => {
                let days = match last_of(&hits, 0) {
                    Some(d) => match parse_u32(d.as_str()) {
                        Some(v) => v,
                        None => {
                            return Err("days must be a whole number".to_owned());
                        },
                    },
                    None => 30,
                };
                Commands::Archive { days, dry_run: was_used(&hits, 1) }
            },
            Sub::Validate => Commands::Validate { strict: was_used(&hits, 0) },
            Sub::Shell => Commands::Shell,
            Sub::Complete => Commands::Complete {
                id: take_first(pos),
                resolution: or_default_str(last_of(&hits, 0), "done"),
            },
            Sub::Reopen => Commands::Reopen { id: take_first(pos) },
            Sub::Update => Commands::Update {
                id: take_first(pos),
                title: last_of(&hits, 0),
                description: last_of(&hits, 1),
                priority: last_of(&hits, 2),
                stream: last_of(&hits, 3),
            },
            Sub::Assign => {
                let id = pos[0].clone();
                let assignee = pos[1].clone();
                Commands::Assign { id, assignee }
            },
            Sub::Claim => Commands::Claim { id: take_first(pos) },
            Sub::Free => Commands::Free { id: take_first(pos) },
            Sub::StreamAdd => Commands::Stream {
                command: StreamCommands::Add { name: take_first(pos), description: last_of(&hits, 0) },
            },
            Sub::StreamList => Commands::Stream {
                command: StreamCommands::List { format: or_default_str(last_of(&hits, 0), "table") },
            },
            Sub::StreamShow => {
                let id = if np > 0 { Some(pos[0].clone()) } else { None };
                Commands::Stream { command: StreamCommands::Show { id, name: last_of(&hits, 0) } }
            },
            Sub::StreamUpdate => Commands::Stream {
                command: StreamCommands::Update {
                    id: take_first(pos),
                    name: last_of(&hits, 0),
                    description: last_of(&hits, 1),
                },
            },
            Sub::StreamDelete => Commands::Stream { command: StreamCommands::Delete { id: take_first(pos) } },
        };
        Ok(Cli { command })
    }
}

} // verus!
