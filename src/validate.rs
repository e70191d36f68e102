//! The streaming validator: per-line structural errors and semantic
//! warnings, cross-task reference warnings, and strict mode.
use vstd::prelude::*;
use crate::id::{radix_encode, radix_text};
use crate::replay::{has_task, push_unique, State};
use crate::text::{contains_str, str_eq};
use crate::time::{is_rfc3339, rfc3339_valid};

verus! {

/// The top-level fields of a line that parsed as JSON, as far as
/// validation reads them.
pub struct LineFields {
    /// Every key of the top-level object.
    pub keys: Vec<String>,
    /// `v`, when it is an unsigned integer.
    pub version: Option<u64>,
    /// `op`, when it is a string.
    pub op: Option<String>,
    /// `id`, when it is a string.
    pub id: Option<String>,
    /// `ts`, when it is a string.
    pub ts: Option<String>,
}

/// One line of a log file, as the JSON reader saw it.
pub enum LineShape {
    /// Empty or only whitespace: skipped.
    Blank,
    /// Not JSON; the reader's message.
    Unparseable(String),
    /// A JSON value.
    Parsed(LineFields),
}

/// Errors and warnings found, in the order they were found.
pub struct ValidationResult {
    pub errors: Vec<String>,
    pub warnings: Vec<String>,
}

/// The keys every event must carry, in the order they are checked.
pub open spec fn required_keys() -> Seq<Seq<char>> {
    seq!["v"@, "op"@, "id"@, "ts"@, "by"@, "branch"@, "d"@]
}

pub open spec fn decimal(n: nat) -> Seq<char> {
    radix_text(n, 10)
}

/// `file:line: ` before each message.
pub open spec fn at(file: Seq<char>, line: nat) -> Seq<char> {
    file + ":"@ + decimal(line) + ": "@
}

/// The missing-key errors of a parsed line, among the first `k` required keys.
pub open spec fn missing_key_errors(file: Seq<char>, line: nat, keys: Seq<Seq<char>>, k: int) -> Seq<Seq<char>>
    decreases k,
{
    if k <= 0 {
        Seq::empty()
    } else {
        let prev = missing_key_errors(file, line, keys, k - 1);
        let key = required_keys()[k - 1];
        if keys.contains(key) {
            prev
        } else {
            prev.push(at(file, line) + "Missing required field '"@ + key + "'"@)
        }
    }
}

/// The errors of one line.
pub open spec fn line_errors(file: Seq<char>, line: nat, shape: LineShape) -> Seq<Seq<char>> {
    match shape {
        LineShape::Blank => Seq::empty(),
        LineShape::Unparseable(m) => seq![at(file, line) + "Invalid JSON: "@ + m@],
        LineShape::Parsed(f) => {
            let missing = missing_key_errors(file, line, f.keys.deep_view(), 7);
            match f.ts {
                Some(ts) => if rfc3339_valid(ts@) {
                    missing
                } else {
                    missing.push(at(file, line) + "Invalid timestamp format: "@ + ts@)
                },
                None => missing,
            }
        },
    }
}

/// The warnings of one line, given the ids created on earlier lines.
pub open spec fn line_warnings(file: Seq<char>, line: nat, shape: LineShape, created: Seq<Seq<char>>) -> Seq<Seq<char>> {
    match shape {
        LineShape::Parsed(f) => {
            let version = match f.version {
                Some(v) => if v != 1 {
                    seq![at(file, line) + "Unknown schema version "@ + decimal(v as nat)]
                } else {
                    Seq::empty()
                },
                None => Seq::empty(),
            };
            match (f.op, f.id) {
                (Some(op), Some(id)) => if op@ == "create"@ {
                    if created.contains(id@) {
                        version.push(at(file, line) + "Duplicate create for task "@ + id@)
                    } else {
                        version
                    }
                } else if !created.contains(id@) {
                    version.push(at(file, line) + "Event for task "@ + id@ + " before create"@)
                } else {
                    version
                },
                _ => version,
            }
        },
        _ => Seq::empty(),
    }
}

/// The created ids after one line.
pub open spec fn created_after(shape: LineShape, created: Seq<Seq<char>>) -> Seq<Seq<char>> {
    match shape {
        LineShape::Parsed(f) => match (f.op, f.id) {
            (Some(op), Some(id)) => if op@ == "create"@ {
                push_unique(created, id@)
            } else {
                created
            },
            _ => created,
        },
        _ => created,
    }
}

/// Errors, warnings and created ids after the first `n` lines of a file,
/// starting from `created`.
pub open spec fn scan(file: Seq<char>, lines: Seq<LineShape>, n: int, created: Seq<Seq<char>>) -> (Seq<Seq<char>>, Seq<Seq<char>>, Seq<Seq<char>>)
    decreases n,
{
    if n <= 0 {
        (Seq::empty(), Seq::empty(), created)
    } else {
        let (e, w, c) = scan(file, lines, n - 1, created);
        (
            e + line_errors(file, n as nat, lines[n - 1]),
            w + line_warnings(file, n as nat, lines[n - 1], c),
            created_after(lines[n - 1], c),
        )
    }
}

fn at_text(file: &str, line: usize) -> (r: String)
    ensures
        r@ == at(file@, line as nat),
{
    let mut s = file.to_owned();
    s.append(":");
    let d = radix_encode(line as u128, 10);
    s.append(d.as_str());
    s.append(": ");
    s
}

fn missing_keys(file: &str, line: usize, keys: &Vec<String>, errors: &mut Vec<String>)
    ensures
        final(errors).deep_view() == old(errors).deep_view() + missing_key_errors(file@, line as nat, keys.deep_view(), 7),
{
    let required = ["v", "op", "id", "ts", "by", "branch", "d"];
    let mut k: usize = 0;
    while k < 7
        invariant
            0 <= k <= 7,
            required@.len() == 7,
            forall|i: int| 0 <= i < 7 ==> (#[trigger] required@[i])@ == required_keys()[i],
            errors.deep_view() == old(errors).deep_view() + missing_key_errors(file@, line as nat, keys.deep_view(), k as int),
        decreases 7 - k,
    {
        let key = required[k];
        if !contains_str(keys, key) {
            let mut m = at_text(file, line);
            m.append("Missing required field '");
            m.append(key);
            m.append("'");
            assert(key@ == required_keys()[k as int]);
            assert(m@ == at(file@, line as nat) + "Missing required field '"@ + required_keys()[k as int] + "'"@);
            let ghost e0 = errors.deep_view();
            errors.push(m);
            assert(errors.deep_view() =~= e0.push(m@));
            assert(errors.deep_view() =~= old(errors).deep_view() + missing_key_errors(file@, line as nat, keys.deep_view(), k + 1));
        } else {
            assert(errors.deep_view() =~= old(errors).deep_view() + missing_key_errors(file@, line as nat, keys.deep_view(), k + 1));
        }
        k = k + 1;
    }
}

fn check_line(
    file: &str,
    line: usize,
    shape: &LineShape,
    created: &mut Vec<String>,
    errors: &mut Vec<String>,
    warnings: &mut Vec<String>,
)
    ensures
        final(errors).deep_view() == old(errors).deep_view() + line_errors(file@, line as nat, *shape),
        final(warnings).deep_view() == old(warnings).deep_view() + line_warnings(file@, line as nat, *shape, old(created).deep_view()),
        final(created).deep_view() == created_after(*shape, old(created).deep_view()),
{
    match shape {
        LineShape::Blank => {
            assert(errors.deep_view() =~= old(errors).deep_view() + Seq::<Seq<char>>::empty());
            assert(warnings.deep_view() =~= old(warnings).deep_view() + Seq::<Seq<char>>::empty());
        },
        LineShape::Unparseable(m) => {
            let mut s = at_text(file, line);
            s.append("Invalid JSON: ");
            s.append(m.as_str());
            errors.push(s);
            assert(errors.deep_view() =~= old(errors).deep_view() + line_errors(file@, line as nat, *shape));
            assert(warnings.deep_view() =~= old(warnings).deep_view() + Seq::<Seq<char>>::empty());
        },
        LineShape::Parsed(f) => {
            missing_keys(file, line, &f.keys, errors);
            let ghost w0 = warnings.deep_view();
            if let Some(v) = f.version {
                if v != 1 {
                    let mut s = at_text(file, line);
                    s.append("Unknown schema version ");
                    let d = radix_encode(v as u128, 10);
                    s.append(d.as_str());
                    warnings.push(s);
                }
            }
            let ghost w1 = warnings.deep_view();
            if let (Some(op), Some(id)) = (&f.op, &f.id) {
                if str_eq(op.as_str(), "create") {
                    if contains_str(created, id.as_str()) {
                        let mut s = at_text(file, line);
                        s.append("Duplicate create for task ");
                        s.append(id.as_str());
                        warnings.push(s);
                    } else {
                        created.push(id.clone());
                        assert(created.deep_view() =~= old(created).deep_view().push(id@));
                    }
                } else if !contains_str(created, id.as_str()) {
                    let mut s = at_text(file, line);
                    s.append("Event for task ");
                    s.append(id.as_str());
                    s.append(" before create");
                    warnings.push(s);
                }
            }
            assert(warnings.deep_view() =~= old(warnings).deep_view() + line_warnings(file@, line as nat, *shape, old(created).deep_view()));
            let ghost e0 = errors.deep_view();
            if let Some(ts) = &f.ts {
                if !is_rfc3339(ts.as_str()) {
                    let mut s = at_text(file, line);
                    s.append("Invalid timestamp format: ");
                    s.append(ts.as_str());
                    let ghost sv = s@;
                    errors.push(s);
                    assert(errors.deep_view() =~= e0.push(sv));
                }
            }
            assert(errors.deep_view() =~= old(errors).deep_view() + line_errors(file@, line as nat, *shape));
        },
    }
}

/// Checks the lines of one file, numbering them from 1, adding what it finds
/// to `errors` and `warnings` and the ids it sees created to `created`.
pub fn validate_event_file(
    file: &str,
    lines: &Vec<LineShape>,
    errors: &mut Vec<String>,
    warnings: &mut Vec<String>,
    created: &mut Vec<String>,
)
    requires
        lines@.len() < usize::MAX,
    ensures
        ({
            let (e, w, c) = scan(file@, lines@, lines@.len() as int, old(created).deep_view());
            &&& final(errors).deep_view() == old(errors).deep_view() + e
            &&& final(warnings).deep_view() == old(warnings).deep_view() + w
            &&& final(created).deep_view() == c
        }),
{
    let mut i: usize = 0;
    assert(old(errors).deep_view() + Seq::<Seq<char>>::empty() =~= old(errors).deep_view());
    assert(old(warnings).deep_view() + Seq::<Seq<char>>::empty() =~= old(warnings).deep_view());
    while i < lines.len()
        invariant
            0 <= i <= lines@.len(),
            lines@.len() < usize::MAX,
            ({
                let (e, w, c) = scan(file@, lines@, i as int, old(created).deep_view());
                &&& errors.deep_view() == old(errors).deep_view() + e
                &&& warnings.deep_view() == old(warnings).deep_view() + w
                &&& created.deep_view() == c
            }),
        decreases lines.len() - i,
    {
        let ghost (e, w, c) = scan(file@, lines@, i as int, old(created).deep_view());
        check_line(file, i + 1, &lines[i], created, errors, warnings);
        proof {
            assert(old(errors).deep_view() + e + line_errors(file@, (i + 1) as nat, lines@[i as int])
                =~= old(errors).deep_view() + (e + line_errors(file@, (i + 1) as nat, lines@[i as int])));
            assert(old(warnings).deep_view() + w + line_warnings(file@, (i + 1) as nat, lines@[i as int], c)
                =~= old(warnings).deep_view() + (w + line_warnings(file@, (i + 1) as nat, lines@[i as int], c)));
        }
        i = i + 1;
    }
}

/// The reference warnings of one task: each `blocked_by`, then each
/// `blocks`, then the parent, that names no task of `ts`.
pub open spec fn task_reference_warnings(ts: Seq<crate::model::TaskView>, t: crate::model::TaskView) -> Seq<Seq<char>> {
    let bb = t.blocked_by.filter(|x: Seq<char>| !has_task(ts, x)).map_values(
        |x: Seq<char>| "Task "@ + t.id + " references non-existent blocked_by: "@ + x,
    );
    let bl = t.blocks.filter(|x: Seq<char>| !has_task(ts, x)).map_values(
        |x: Seq<char>| "Task "@ + t.id + " references non-existent blocks: "@ + x,
    );
    let pa = match t.parent {
        Some(p) => if has_task(ts, p) {
            Seq::empty()
        } else {
            seq!["Task "@ + t.id + " references non-existent parent: "@ + p]
        },
        None => Seq::empty(),
    };
    bb + bl + pa
}

/// The reference warnings of the first `n` tasks, in state order.
pub open spec fn reference_warnings(ts: Seq<crate::model::TaskView>, n: int) -> Seq<Seq<char>>
    decreases n,
{
    if n <= 0 {
        Seq::empty()
    } else {
        reference_warnings(ts, n - 1) + task_reference_warnings(ts, ts[n - 1])
    }
}

fn dangling(
    state: &State,
    owner: &String,
    targets: &Vec<String>,
    label: &str,
    warnings: &mut Vec<String>,
)
    ensures
        final(warnings).deep_view() == old(warnings).deep_view() + targets.deep_view().filter(
            |x: Seq<char>| !has_task(state.projection().tasks, x),
        ).map_values(|x: Seq<char>| "Task "@ + owner@ + label@ + x),
{
    let ghost ts = state.projection().tasks;
    let ghost pred = |x: Seq<char>| !has_task(ts, x);
    let ghost msg = |x: Seq<char>| "Task "@ + owner@ + label@ + x;
    let mut i: usize = 0;
    while i < targets.len()
        invariant
            0 <= i <= targets@.len(),
            ts == state.projection().tasks,
            pred == (|x: Seq<char>| !has_task(ts, x)),
            msg == (|x: Seq<char>| "Task "@ + owner@ + label@ + x),
            warnings.deep_view() == old(warnings).deep_view() + targets.deep_view().subrange(0, i as int).filter(pred).map_values(msg),
        decreases targets.len() - i,
    {
        proof {
            let pre = targets.deep_view().subrange(0, i as int);
            assert(targets.deep_view().subrange(0, i + 1) =~= pre.push(targets.deep_view()[i as int]));
            pre.lemma_filter_push(targets.deep_view()[i as int], pred);
        }
        let found = state.get_task(targets[i].as_str());
        if found.is_none() {
            let mut s = "Task ".to_owned();
            s.append(owner.as_str());
            s.append(label);
            s.append(targets[i].as_str());
            let ghost w0 = warnings.deep_view();
            let ghost sv = s@;
            warnings.push(s);
            assert(warnings.deep_view() =~= w0.push(sv));
            proof {
                let pre = targets.deep_view().subrange(0, i as int);
                assert(pre.filter(pred).push(targets.deep_view()[i as int]).map_values(msg)
                    =~= pre.filter(pred).map_values(msg).push(msg(targets.deep_view()[i as int])));
            }
            assert(warnings.deep_view() =~= old(warnings).deep_view() + targets.deep_view().subrange(0, i + 1).filter(pred).map_values(msg));
        } else {
            proof {
                let t = found.unwrap();
                let k = choose|k: int| 0 <= k < ts.len() && ts[k] == t@;
                assert(ts[k].id == targets.deep_view()[i as int]);
            }
        }
        i = i + 1;
    }
    assert(targets.deep_view().subrange(0, targets@.len() as int) =~= targets.deep_view());
}

/// Warnings for every `blocked_by`, `blocks` and `parent` reference that
/// names no task of the state.
pub fn orphan_warnings(state: &State) -> (r: Vec<String>)
    ensures
        r.deep_view() == reference_warnings(state.projection().tasks, state.tasks@.len() as int),
{
    let ghost ts = state.projection().tasks;
    let mut out: Vec<String> = Vec::new();
    let mut i: usize = 0;
    assert(out.deep_view() =~= reference_warnings(ts, 0));
    while i < state.tasks.len()
        invariant
            0 <= i <= state.tasks@.len(),
            ts == state.projection().tasks,
            out.deep_view() == reference_warnings(ts, i as int),
        decreases state.tasks.len() - i,
    {
        let t = &state.tasks[i];
        assert(ts[i as int] == t@);
        let ghost before = out.deep_view();
        dangling(state, &t.id, &t.blocked_by, " references non-existent blocked_by: ", &mut out);
        dangling(state, &t.id, &t.blocks, " references non-existent blocks: ", &mut out);
        let ghost mid = out.deep_view();
        if let Some(p) = &t.parent {
            match state.get_task(p.as_str()) {
                None => {
                    let mut s = "Task ".to_owned();
                    s.append(t.id.as_str());
                    s.append(" references non-existent parent: ");
                    s.append(p.as_str());
                    let ghost sv = s@;
                    out.push(s);
                    assert(out.deep_view() =~= mid.push(sv));
                },
                Some(u) => {
                    proof {
                        let k = choose|k: int| 0 <= k < ts.len() && ts[k] == u@;
                        assert(ts[k].id == p@);
                    }
                },
            }
        }
        proof {
            let tv = t@;
            let bb = tv.blocked_by.filter(|x: Seq<char>| !has_task(ts, x)).map_values(
                |x: Seq<char>| "Task "@ + tv.id + " references non-existent blocked_by: "@ + x,
            );
            let bl = tv.blocks.filter(|x: Seq<char>| !has_task(ts, x)).map_values(
                |x: Seq<char>| "Task "@ + tv.id + " references non-existent blocks: "@ + x,
            );
            assert(bb =~= t.blocked_by.deep_view().filter(|x: Seq<char>| !has_task(ts, x)).map_values(
                |x: Seq<char>| "Task "@ + t.id@ + " references non-existent blocked_by: "@ + x,
            ));
            assert(bl =~= t.blocks.deep_view().filter(|x: Seq<char>| !has_task(ts, x)).map_values(
                |x: Seq<char>| "Task "@ + t.id@ + " references non-existent blocks: "@ + x,
            ));
            assert(mid =~= before + bb + bl);
            assert(out.deep_view() =~= before + task_reference_warnings(ts, tv));
        }
        i = i + 1;
    }
    out
}

/// Strict mode: errors fail the run first, then warnings; each failure
/// carries its own count.
pub fn strict_outcome(result: &ValidationResult, strict: bool) -> (r: Result<(), String>)
    ensures
        !strict ==> r is Ok,
        strict && result.errors@.len() > 0 ==> (r matches Err(m)
            && m@ == "Validation failed with "@ + decimal(result.errors@.len() as nat) + " errors"@),
        strict && result.errors@.len() == 0 && result.warnings@.len() > 0 ==> (r matches Err(m)
            && m@ == "Validation failed with "@ + decimal(result.warnings@.len() as nat)
                + " warnings (--strict mode)"@),
        strict && result.errors@.len() == 0 && result.warnings@.len() == 0 ==> r is Ok,
{
    if strict && result.errors.len() > 0 {
        let mut m = "Validation failed with ".to_owned();
        let d = radix_encode(result.errors.len() as u128, 10);
        m.append(d.as_str());
        m.append(" errors");
        return Err(m);
    }
    if strict && result.warnings.len() > 0 {
        let mut m = "Validation failed with ".to_owned();
        let d = radix_encode(result.warnings.len() as u128, 10);
        m.append(d.as_str());
        m.append(" warnings (--strict mode)");
        return Err(m);
    }
    Ok(())
}

/// Errors, warnings and created ids after the first `n` files, each
/// checked from its first line.
pub open spec fn scan_files(fs: Seq<(String, Vec<LineShape>)>, n: int) -> (Seq<Seq<char>>, Seq<Seq<char>>, Seq<Seq<char>>)
    decreases n,
{
    if n <= 0 {
        (Seq::empty(), Seq::empty(), Seq::empty())
    } else {
        let (e, w, c) = scan_files(fs, n - 1);
        let f = fs[n - 1];
        let (e2, w2, c2) = scan(f.0@, f.1@, f.1@.len() as int, c);
        (e + e2, w + w2, c2)
    }
}

/// Validates the files in order (daily files, then archive files). The
/// reference check runs only when no structural error was found and a
/// replayed state is at hand. Strict mode turns errors, then warnings, into
/// a failure.
pub fn validate(files: &Vec<(String, Vec<LineShape>)>, state: Option<&State>, strict: bool) -> (r: (ValidationResult, Result<(), String>))
    requires
        forall|i: int| 0 <= i < files@.len() ==> (#[trigger] files@[i]).1@.len() < usize::MAX,
    ensures
        ({
            let (e, w, _c) = scan_files(files@, files@.len() as int);
            &&& r.0.errors.deep_view() == e
            &&& r.0.warnings.deep_view() == match state {
                Some(st) => if e.len() == 0 {
                    w + reference_warnings(st.projection().tasks, st.tasks@.len() as int)
                } else {
                    w
                },
                None => w,
            }
        }),
        !strict ==> r.1 is Ok,
        strict && r.0.errors@.len() > 0 ==> (r.1 matches Err(m)
            && m@ == "Validation failed with "@ + decimal(r.0.errors@.len() as nat) + " errors"@),
        strict && r.0.errors@.len() == 0 && r.0.warnings@.len() > 0 ==> (r.1 matches Err(m)
            && m@ == "Validation failed with "@ + decimal(r.0.warnings@.len() as nat)
                + " warnings (--strict mode)"@),
        strict && r.0.errors@.len() == 0 && r.0.warnings@.len() == 0 ==> r.1 is Ok,
{
    let mut errors: Vec<String> = Vec::new();
    let mut warnings: Vec<String> = Vec::new();
    let mut created: Vec<String> = Vec::new();
    let mut i: usize = 0;
    assert(errors.deep_view() =~= Seq::<Seq<char>>::empty());
    assert(warnings.deep_view() =~= Seq::<Seq<char>>::empty());
    assert(created.deep_view() =~= Seq::<Seq<char>>::empty());
    while i < files.len()
        invariant
            0 <= i <= files@.len(),
            forall|j: int| 0 <= j < files@.len() ==> (#[trigger] files@[j]).1@.len() < usize::MAX,
            ({
                let (e, w, c) = scan_files(files@, i as int);
                &&& errors.deep_view() == e
                &&& warnings.deep_view() == w
                &&& created.deep_view() == c
            }),
        decreases files.len() - i,
    {
        let f = &files[i];
        validate_event_file(f.0.as_str(), &f.1, &mut errors, &mut warnings, &mut created);
        i = i + 1;
    }
    if errors.len() == 0 {
        if let Some(st) = state {
            let extra = orphan_warnings(st);
            let ghost w0 = warnings.deep_view();
            let mut k: usize = 0;
            while k < extra.len()
                invariant
                    0 <= k <= extra@.len(),
                    warnings.deep_view() == w0 + extra.deep_view().subrange(0, k as int),
                decreases extra.len() - k,
            {
                let ghost before = warnings.deep_view();
                let x = extra[k].clone();
                let ghost xv = x@;
                warnings.push(x);
                assert(warnings.deep_view() =~= before.push(xv));
                assert(extra.deep_view()[k as int] == xv);
                assert(warnings.deep_view() =~= w0 + extra.deep_view().subrange(0, k + 1));
                k = k + 1;
            }
            assert(extra.deep_view().subrange(0, extra@.len() as int) =~= extra.deep_view());
        }
    }
    let result = ValidationResult { errors, warnings };
    let outcome = strict_outcome(&result, strict);
    (result, outcome)
}

/// A line that is not JSON yields exactly one error, the invalid-JSON one,
/// and no warning.
pub proof fn unparseable_line_has_one_error(file: Seq<char>, line: nat, m: String, created: Seq<Seq<char>>)
    ensures
        line_errors(file, line, LineShape::Unparseable(m)) == seq![at(file, line) + "Invalid JSON: "@ + m@],
        line_warnings(file, line, LineShape::Unparseable(m), created).len() == 0,
{
}

/// A parsed line whose timestamp is absent or valid yields one error per
/// required key it lacks.
pub proof fn one_error_per_missing_key(file: Seq<char>, line: nat, f: LineFields)
    requires
        f.ts matches Some(ts) ==> rfc3339_valid(ts@),
    ensures
        line_errors(file, line, LineShape::Parsed(f)).len()
            == required_keys().filter(|k: Seq<char>| !f.keys.deep_view().contains(k)).len(),
{
    lemma_missing_count(file, line, f.keys.deep_view(), 7);
    assert(required_keys().subrange(0, 7) =~= required_keys());
}

proof fn lemma_missing_count(file: Seq<char>, line: nat, keys: Seq<Seq<char>>, k: int)
    requires
        0 <= k <= 7,
    ensures
        missing_key_errors(file, line, keys, k).len()
            == required_keys().subrange(0, k).filter(|x: Seq<char>| !keys.contains(x)).len(),
    decreases k,
{
    if k == 0 {
        assert(required_keys().subrange(0, 0) =~= Seq::<Seq<char>>::empty());
        assert(Seq::<Seq<char>>::empty().filter(|x: Seq<char>| !keys.contains(x)) =~= Seq::<Seq<char>>::empty()) by {
            reveal(Seq::filter);
        }
    } else {
        lemma_missing_count(file, line, keys, k - 1);
        let pre = required_keys().subrange(0, k - 1);
        assert(required_keys().subrange(0, k) =~= pre.push(required_keys()[k - 1]));
        pre.lemma_filter_push(required_keys()[k - 1], |x: Seq<char>| !keys.contains(x));
    }
}

/// A second create for an id yields a duplicate-create warning.
pub proof fn second_create_warns(file: Seq<char>, line: nat, f: LineFields, created: Seq<Seq<char>>)
    requires
        f.op matches Some(op) && op@ == "create"@,
        f.id matches Some(id) && created.contains(id@),
    ensures
        line_warnings(file, line, LineShape::Parsed(f), created).contains(
            at(file, line) + "Duplicate create for task "@ + f.id.unwrap()@,
        ),
{
    let w = line_warnings(file, line, LineShape::Parsed(f), created);
    assert(w.last() == at(file, line) + "Duplicate create for task "@ + f.id.unwrap()@);
    assert(w[w.len() - 1] == w.last());
}

/// An operation other than create on an id not yet created yields a
/// before-create warning.
pub proof fn event_before_create_warns(file: Seq<char>, line: nat, f: LineFields, created: Seq<Seq<char>>)
    requires
        f.op matches Some(op) && op@ != "create"@,
        f.id matches Some(id) && !created.contains(id@),
    ensures
        line_warnings(file, line, LineShape::Parsed(f), created).contains(
            at(file, line) + "Event for task "@ + f.id.unwrap()@ + " before create"@,
        ),
{
    let w = line_warnings(file, line, LineShape::Parsed(f), created);
    assert(w[w.len() - 1] == at(file, line) + "Event for task "@ + f.id.unwrap()@ + " before create"@);
}

} // verus!
