//! Optimistic concurrency for writes: content fingerprints of the last event
//! of a subject, the version check made under the advisory lock, lock
//! staleness, and the retry-with-backoff decisions.
use vstd::prelude::*;
use crate::id::{digit_alphabet, radix_encode, radix_text};
use vstd::string::StringSliceAdditionalSpecFns;
use crate::model::{Event, EventView, Operation, Timestamp, MAX_SECS, MIN_SECS};
use crate::replay::{event_views, file_views};
use crate::text::str_eq;
use crate::time::{is_rfc3339, rfc3339, rfc3339_secs, rfc3339_secs_of, rfc3339_text, rfc3339_valid};

verus! {

/// The fingerprint of a byte string: a wrapping polynomial over its bytes.
pub open spec fn fingerprint(b: Seq<u8>) -> u128
    decreases b.len(),
{
    if b.len() == 0 {
        0
    } else {
        let i = (b.len() - 1) as u128;
        let h = fingerprint(b.drop_last());
        h.wrapping_add((b.last() as u128).wrapping_mul(i.wrapping_add(1))).wrapping_mul(31)
    }
}

/// The fingerprint of the UTF-8 bytes of `input`.
pub fn md5_hash(input: &str) -> (r: u128)
    ensures
        r == fingerprint(input.spec_bytes()),
{
    let bytes = input.as_bytes();
    let mut hash: u128 = 0;
    let mut i: usize = 0;
    while i < bytes.len()
        invariant
            0 <= i <= bytes@.len(),
            bytes@ == input.spec_bytes(),
            hash == fingerprint(bytes@.subrange(0, i as int)),
        decreases bytes.len() - i,
    {
        let b = bytes[i];
        proof {
            let s = bytes@.subrange(0, i + 1);
            assert(s.drop_last() =~= bytes@.subrange(0, i as int));
            assert(s.last() == b);
        }
        hash = hash.wrapping_add((b as u128).wrapping_mul((i as u128).wrapping_add(1)));
        hash = hash.wrapping_mul(31);
        i = i + 1;
    }
    assert(bytes@.subrange(0, bytes@.len() as int) =~= bytes@);
    hash
}

/// What a writer believed about the subject it writes: the last event that
/// touched it.
#[derive(Debug, Clone)]
pub struct Version {
    /// Position in the issuing controller's sequence.
    pub seq: u64,
    /// Time of the last event, RFC 3339.
    pub ts: String,
    /// Hexadecimal fingerprint of the last event's wire text.
    pub last_event_hash: String,
}

/// Outcome of a write attempt.
#[derive(Debug)]
pub enum WriteResult {
    Success,
    Conflict { expected_version: Version, actual_version: Version },
    Error(String),
}

/// Hands out versions, numbering them in the order they were issued.
pub struct ConcurrencyController {
    pub next_seq: u64,
}

impl ConcurrencyController {
    /// A controller whose first version gets number 0.
    pub fn new() -> (r: ConcurrencyController)
        ensures
            r.next_seq == 0,
    {
        ConcurrencyController { next_seq: 0 }
    }

    /// The version of a subject whose last event has wire text `event_json`
    /// and time `ts`.
    pub fn version_of(&mut self, event_json: &str, ts: &Timestamp) -> (r: Version)
        requires
            ts.wf(),
            old(self).next_seq < u64::MAX,
        ensures
            r.seq == old(self).next_seq,
            final(self).next_seq == old(self).next_seq + 1,
            r.ts@ == rfc3339_text(ts.secs, ts.nanos),
            r.last_event_hash@ == radix_text(fingerprint(event_json.spec_bytes()) as nat, 16),
    {
        let seq = self.next_seq;
        self.next_seq = self.next_seq + 1;
        Version { seq, ts: rfc3339(ts), last_event_hash: radix_encode(md5_hash(event_json), 16) }
    }
}

/// The last event of the log, files in order and lines in order, whose
/// subject is `id`.
pub open spec fn last_touching(es: Seq<EventView>, id: Seq<char>) -> Option<EventView>
    decreases es.len(),
{
    if es.len() == 0 {
        None
    } else if es.last().id == id {
        Some(es.last())
    } else {
        last_touching(es.drop_last(), id)
    }
}

/// Scans the files newest first, and each file from its last line, for the
/// most recent event touching `id`.
pub fn find_last_event<'a>(files: &'a Vec<Vec<Event>>, id: &str) -> (r: Option<&'a Event>)
    ensures
        match r {
            Some(e) => last_touching(file_views(files@).flatten_alt(), id@) == Some(e@),
            None => last_touching(file_views(files@).flatten_alt(), id@) is None,
        },
{
    let ghost fv = file_views(files@);
    let mut i: usize = files.len();
    assert(fv.subrange(0, i as int) =~= fv);
    while i > 0
        invariant
            0 <= i <= files.len(),
            fv == file_views(files@),
            last_touching(fv.flatten_alt(), id@) == last_touching(fv.subrange(0, i as int).flatten_alt(), id@),
        decreases i,
    {
        let f = &files[i - 1];
        let ghost prefix = fv.subrange(0, i - 1).flatten_alt();
        proof {
            let s = fv.subrange(0, i as int);
            assert(s.drop_last() =~= fv.subrange(0, i - 1));
            assert(s.last() == event_views(f@));
        }
        let mut j: usize = f.len();
        assert(event_views(f@).subrange(0, j as int) =~= event_views(f@));
        while j > 0
            invariant
                0 <= j <= f.len(),
                fv == file_views(files@),
                last_touching(fv.flatten_alt(), id@) == last_touching(prefix + event_views(f@).subrange(0, j as int), id@),
            decreases j,
        {
            let ghost s = prefix + event_views(f@).subrange(0, j as int);
            assert(s.drop_last() =~= prefix + event_views(f@).subrange(0, j - 1));
            assert(s.last() == f@[j - 1]@);
            if str_eq(f[j - 1].id.as_str(), id) {
                return Some(&f[j - 1]);
            }
            j = j - 1;
        }
        assert(prefix + event_views(f@).subrange(0, 0) =~= prefix);
        i = i - 1;
    }
    assert(fv.subrange(0, 0).flatten_alt() =~= Seq::<EventView>::empty());
    None
}

/// Whether a write may go ahead, given the version the writer expected and
/// the one found under the lock. `None` means: append the event. Otherwise
/// the outcome to report, with nothing written.
pub fn check_write(op: Operation, expected: Option<&Version>, actual: Option<&Version>) -> (r: Option<WriteResult>)
    ensures
        match (expected, actual) {
            (Some(x), Some(a)) => if x.last_event_hash@ == a.last_event_hash@ {
                r is None
            } else {
                r matches Some(WriteResult::Conflict { expected_version, actual_version })
                    && expected_version.last_event_hash@ == x.last_event_hash@
                    && actual_version.last_event_hash@ == a.last_event_hash@
                    && expected_version.seq == x.seq && actual_version.seq == a.seq
                    && expected_version.ts@ == x.ts@ && actual_version.ts@ == a.ts@
            },
            (Some(_), None) => if op == Operation::Create {
                r is None
            } else {
                r matches Some(WriteResult::Error(m)) && m@ == "Task does not exist but expected version provided"@
            },
            (None, Some(_)) => if op == Operation::Create {
                r matches Some(WriteResult::Error(m)) && m@ == "Task already exists"@
            } else {
                r matches Some(WriteResult::Error(m)) && m@ == "Task was created concurrently"@
            },
            (None, None) => if op == Operation::Create {
                r is None
            } else {
                r matches Some(WriteResult::Error(m)) && m@ == "Task does not exist"@
            },
        },
{
    match (expected, actual) {
        (Some(x), Some(a)) => {
            if str_eq(x.last_event_hash.as_str(), a.last_event_hash.as_str()) {
                None
            } else {
                Some(WriteResult::Conflict { expected_version: copy_version(x), actual_version: copy_version(a) })
            }
        },
        (Some(_), None) => {
            if op == Operation::Create {
                None
            } else {
                Some(WriteResult::Error("Task does not exist but expected version provided".to_owned()))
            }
        },
        (None, Some(_)) => {
            if op == Operation::Create {
                Some(WriteResult::Error("Task already exists".to_owned()))
            } else {
                Some(WriteResult::Error("Task was created concurrently".to_owned()))
            }
        },
        (None, None) => {
            if op == Operation::Create {
                None
            } else {
                Some(WriteResult::Error("Task does not exist".to_owned()))
            }
        },
    }
}

fn copy_version(v: &Version) -> (r: Version)
    ensures
        r.seq == v.seq,
        r.ts@ == v.ts@,
        r.last_event_hash@ == v.last_event_hash@,
{
    Version { seq: v.seq, ts: v.ts.clone(), last_event_hash: v.last_event_hash.clone() }
}

/// Age in seconds past which a lock is presumed abandoned.
pub const LOCK_STALE_SECS: i64 = 60;

/// The text after the first `:` of a lock file, which holds `pid:acquired-at`.
pub open spec fn lock_time_text(content: Seq<char>) -> Option<Seq<char>> {
    if exists|i: int| 0 <= i < content.len() && content[i] == ':' {
        let i = choose|i: int|
            0 <= i < content.len() && content[i] == ':' && forall|j: int| 0 <= j < i ==> content[j] != ':';
        Some(content.subrange(i + 1, content.len() as int))
    } else {
        None
    }
}

pub open spec fn is_space(c: char) -> bool {
    c == ' ' || c == '\t' || c == '\n' || c == '\r'
}

/// `s` without trailing spaces, tabs and line breaks.
pub open spec fn trim_end(s: Seq<char>) -> Seq<char>
    decreases s.len(),
{
    if s.len() > 0 && is_space(s.last()) {
        trim_end(s.drop_last())
    } else {
        s
    }
}

/// Whether a lock written with `content` is stale at `now`: its acquisition
/// time reads as RFC 3339 and lies more than a minute back.
pub open spec fn lock_is_stale_spec(content: Seq<char>, now: Timestamp) -> bool {
    &&& lock_time_text(content) matches Some(t)
    &&& rfc3339_valid(trim_end(t))
    &&& now.wf()
    &&& MIN_SECS <= rfc3339_secs_of(trim_end(t)) <= MAX_SECS
    &&& now.secs - rfc3339_secs_of(trim_end(t)) > LOCK_STALE_SECS
}

/// Whether the lock whose file holds `content` may be removed at `now`.
pub fn lock_is_stale(content: &str, now: &Timestamp) -> (r: bool)
    ensures
        r == lock_is_stale_spec(content@, *now),
{
    let n = content.unicode_len();
    let mut i: usize = 0;
    while i < n && content.get_char(i) != ':'
        invariant
            n == content@.len(),
            0 <= i <= n,
            forall|j: int| 0 <= j < i ==> content@[j] != ':',
        decreases n - i,
    {
        i = i + 1;
    }
    if i == n {
        return false;
    }
    let ghost c = content@;
    proof {
        assert(exists|k: int| 0 <= k < c.len() && c[k] == ':') by {
            assert(c[i as int] == ':');
        }
        let k = choose|k: int| 0 <= k < c.len() && c[k] == ':' && forall|j: int| 0 <= j < k ==> c[j] != ':';
        assert(c[i as int] == ':');
        if k < i {
        } else if k > i {
            assert(c[i as int] != ':');
        }
        assert(k == i);
    }
    let mut end: usize = n;
    let ghost t = c.subrange(i + 1, n as int);
    assert(t.subrange(0, (end - i - 1) as int) =~= t);
    while end > i + 1 && is_space_char(content.get_char(end - 1))
        invariant
            n == c.len(),
            c == content@,
            i < n,
            i + 1 <= end <= n,
            t == c.subrange(i + 1, n as int),
            trim_end(t) == trim_end(c.subrange(i + 1, end as int)),
        decreases end,
    {
        proof {
            let u = c.subrange(i + 1, end as int);
            assert(u.drop_last() =~= c.subrange(i + 1, end - 1));
        }
        end = end - 1;
    }
    proof {
        let u = c.subrange(i + 1, end as int);
        assert(trim_end(u) == u);
    }
    let text = content.substring_char(i + 1, end);
    if !is_rfc3339(text) {
        return false;
    }
    let at = rfc3339_secs(text);
    if now.secs < MIN_SECS || now.secs > MAX_SECS || now.nanos >= 1_000_000_000 || at < MIN_SECS || at > MAX_SECS {
        return false;
    }
    now.secs - at > LOCK_STALE_SECS
}

fn is_space_char(c: char) -> (r: bool)
    ensures
        r == is_space(c),
{
    c == ' ' || c == '\t' || c == '\n' || c == '\r'
}

/// The first backoff delay, in milliseconds.
pub const FIRST_BACKOFF_MS: u64 = 10;

/// Where a retrying writer stands: how many retries it has made and how
/// long it waits before the next.
pub struct RetryState {
    pub retries: u32,
    pub delay_ms: u64,
}

/// What a retrying writer does after an attempt.
#[derive(Debug, Clone, Copy, PartialEq, Eq, Structural)]
pub enum RetryAction {
    /// Report the attempt's outcome.
    Finish,
    /// Sleep this many milliseconds, rebuild the event and its expected
    /// version, and try again.
    RetryAfter(u64),
}

/// The delay that follows `d`: twice as long, capped at the largest value.
pub open spec fn doubled(d: u64) -> u64 {
    if d <= u64::MAX / 2 { (d * 2) as u64 } else { u64::MAX }
}

impl RetryState {
    /// Before the first attempt.
    pub fn new() -> (r: RetryState)
        ensures
            r.retries == 0,
            r.delay_ms == FIRST_BACKOFF_MS,
    {
        RetryState { retries: 0, delay_ms: FIRST_BACKOFF_MS }
    }

    /// Decides after an attempt: only a conflict is retried, and only while
    /// fewer than `max_retries` retries have been made.
    pub fn next(&mut self, outcome: &WriteResult, max_retries: u32) -> (r: RetryAction)
        ensures
            if outcome is Conflict && old(self).retries < max_retries {
                &&& r == RetryAction::RetryAfter(old(self).delay_ms)
                &&& final(self).retries == old(self).retries + 1
                &&& final(self).delay_ms == doubled(old(self).delay_ms)
            } else {
                &&& r == RetryAction::Finish
                &&& final(self).retries == old(self).retries
                &&& final(self).delay_ms == old(self).delay_ms
            },
    {
        match outcome {
            WriteResult::Conflict { .. } => {
                if self.retries < max_retries {
                    let d = self.delay_ms;
                    self.retries = self.retries + 1;
                    self.delay_ms = if d <= u64::MAX / 2 { d * 2 } else { u64::MAX };
                    RetryAction::RetryAfter(d)
                } else {
                    RetryAction::Finish
                }
            },
            _ => RetryAction::Finish,
        }
    }
}

/// The retries a writer makes when its attempts come out as `conflicts`
/// says (true for a conflict), having made `done` retries already.
pub open spec fn retries_made(done: nat, conflicts: Seq<bool>, max_retries: nat) -> nat
    decreases conflicts.len(),
{
    if conflicts.len() == 0 {
        done
    } else if conflicts[0] && done < max_retries {
        retries_made(done + 1, conflicts.drop_first(), max_retries)
    } else {
        done
    }
}

/// A writer configured with `max_retries` makes at most that many retries,
/// whatever the outcomes of its attempts.
pub proof fn retries_are_bounded(conflicts: Seq<bool>, max_retries: nat)
    ensures
        retries_made(0, conflicts, max_retries) <= max_retries,
{
    lemma_retries_bounded(0, conflicts, max_retries);
}

proof fn lemma_retries_bounded(done: nat, conflicts: Seq<bool>, max_retries: nat)
    requires
        done <= max_retries,
    ensures
        retries_made(done, conflicts, max_retries) <= max_retries,
    decreases conflicts.len(),
{
    if conflicts.len() > 0 && conflicts[0] && done < max_retries {
        lemma_retries_bounded(done + 1, conflicts.drop_first(), max_retries);
    }
}

/// When every attempt conflicts, the writer makes exactly `max_retries`
/// retries and then reports the last conflict.
pub proof fn persistent_conflict_exhausts_retries(conflicts: Seq<bool>, max_retries: nat)
    requires
        conflicts.len() > max_retries,
        forall|k: int| 0 <= k < conflicts.len() ==> conflicts[k],
    ensures
        retries_made(0, conflicts, max_retries) == max_retries,
{
    lemma_exhausts(0, conflicts, max_retries);
}

proof fn lemma_exhausts(done: nat, conflicts: Seq<bool>, max_retries: nat)
    requires
        done <= max_retries,
        conflicts.len() + done > max_retries,
        forall|k: int| 0 <= k < conflicts.len() ==> conflicts[k],
    ensures
        retries_made(done, conflicts, max_retries) == max_retries,
    decreases conflicts.len(),
{
    if done < max_retries {
        assert(conflicts[0]);
        let rest = conflicts.drop_first();
        assert forall|k: int| 0 <= k < rest.len() implies rest[k] by {
            assert(rest[k] == conflicts[k + 1]);
        }
        lemma_exhausts(done + 1, rest, max_retries);
    }
}

/// Two numbers with the same rendering in a base are equal.
pub proof fn radix_text_injective(n: nat, m: nat, b: nat)
    requires
        2 <= b <= 36,
        radix_text(n, b) == radix_text(m, b),
    ensures
        n == m,
    decreases n + m,
{
    reveal_strlit("0123456789abcdefghijklmnopqrstuvwxyz");
    let alpha = digit_alphabet();
    assert(forall|i: int, j: int| 0 <= i < 36 && 0 <= j < 36 && i != j ==> alpha[i] != alpha[j]);
    lemma_radix_len(n, b);
    lemma_radix_len(m, b);
    if n < b && m < b {
        assert(radix_text(n, b)[0] == alpha[n as int]);
        assert(radix_text(m, b)[0] == alpha[m as int]);
    } else if n >= b && m >= b {
        let tn = radix_text(n, b);
        let tm = radix_text(m, b);
        assert(tn.last() == alpha[(n % b) as int]);
        assert(tm.last() == alpha[(m % b) as int]);
        assert(tn.drop_last() =~= radix_text(n / b, b));
        assert(tm.drop_last() =~= radix_text(m / b, b));
        vstd::arithmetic::div_mod::lemma_div_decreases(n as int, b as int);
        vstd::arithmetic::div_mod::lemma_div_decreases(m as int, b as int);
        radix_text_injective(n / b, m / b, b);
        vstd::arithmetic::div_mod::lemma_fundamental_div_mod(n as int, b as int);
        vstd::arithmetic::div_mod::lemma_fundamental_div_mod(m as int, b as int);
    } else if n < b {
        lemma_radix_len(m / b, b);
        vstd::arithmetic::div_mod::lemma_div_decreases(m as int, b as int);
        assert(radix_text(m, b).len() >= 2);
    } else {
        lemma_radix_len(n / b, b);
        vstd::arithmetic::div_mod::lemma_div_decreases(n as int, b as int);
        assert(radix_text(n, b).len() >= 2);
    }
}

proof fn lemma_radix_len(n: nat, b: nat)
    requires
        2 <= b <= 36,
    ensures
        radix_text(n, b).len() >= 1,
    decreases n,
{
    if n >= b {
        vstd::arithmetic::div_mod::lemma_div_decreases(n as int, b as int);
        lemma_radix_len(n / b, b);
    }
}

/// Versions taken from last events whose fingerprints differ carry different
/// hashes, so a writer holding the older one meets a conflict.
pub proof fn stale_version_conflicts(older: Seq<u8>, newer: Seq<u8>)
    requires
        fingerprint(older) != fingerprint(newer),
    ensures
        radix_text(fingerprint(older) as nat, 16) != radix_text(fingerprint(newer) as nat, 16),
{
    if radix_text(fingerprint(older) as nat, 16) == radix_text(fingerprint(newer) as nat, 16) {
        radix_text_injective(fingerprint(older) as nat, fingerprint(newer) as nat, 16);
    }
}

} // verus!
