//! Small verified helpers on strings and lists of strings.
use vstd::prelude::*;

verus! {

/// Character-wise equality of two strings.
pub fn str_eq(a: &str, b: &str) -> (r: bool)
    ensures
        r == (a@ == b@),
{
    let n = a.unicode_len();
    if n != b.unicode_len() {
        return false;
    }
    let mut i: usize = 0;
    while i < n
        invariant
            n == a@.len(),
            n == b@.len(),
            0 <= i <= n,
            forall|j: int| 0 <= j < i ==> a@[j] == b@[j],
        decreases n - i,
    {
        if a.get_char(i) != b.get_char(i) {
            return false;
        }
        i = i + 1;
    }
    assert(a@ =~= b@);
    true
}

/// A copy of an optional string.
pub fn copy_opt(o: &Option<String>) -> (r: Option<String>)
    ensures
        crate::model::opt_view(*o) == crate::model::opt_view(r),
{
    match o {
        Some(s) => Some(s.clone()),
        None => None,
    }
}

/// A copy of a list of strings.
pub fn copy_strs(v: &Vec<String>) -> (r: Vec<String>)
    ensures
        r.deep_view() == v.deep_view(),
{
    let mut out: Vec<String> = Vec::new();
    let mut i: usize = 0;
    while i < v.len()
        invariant
            0 <= i <= v.len(),
            out@.len() == i,
            forall|j: int| 0 <= j < i ==> out@[j]@ == v@[j]@,
        decreases v.len() - i,
    {
        let c = v[i].clone();
        out.push(c);
        i = i + 1;
    }
    assert(out.deep_view() =~= v.deep_view());
    out
}

/// Whether a list of strings holds one equal to `s`.
pub fn contains_str(v: &Vec<String>, s: &str) -> (r: bool)
    ensures
        r == v.deep_view().contains(s@),
{
    let mut i: usize = 0;
    while i < v.len()
        invariant
            0 <= i <= v.len(),
            forall|j: int| 0 <= j < i ==> v.deep_view()[j] != s@,
        decreases v.len() - i,
    {
        if str_eq(v[i].as_str(), s) {
            assert(v.deep_view()[i as int] == s@);
            return true;
        }
        i = i + 1;
    }
    false
}

/// The list without any entry equal to `s`, order kept.
pub open spec fn without(v: Seq<Seq<char>>, s: Seq<char>) -> Seq<Seq<char>> {
    v.filter(|x: Seq<char>| x != s)
}

/// Removes every entry equal to `s`, keeping the order of the rest.
pub fn remove_all(v: &Vec<String>, s: &str) -> (r: Vec<String>)
    ensures
        r.deep_view() == without(v.deep_view(), s@),
{
    let mut out: Vec<String> = Vec::new();
    let mut i: usize = 0;
    while i < v.len()
        invariant
            0 <= i <= v.len(),
            out.deep_view() == without(v.deep_view().subrange(0, i as int), s@),
        decreases v.len() - i,
    {
        proof {
            let pre = v.deep_view().subrange(0, i as int);
            assert(v.deep_view().subrange(0, i + 1) =~= pre.push(v.deep_view()[i as int]));
            pre.lemma_filter_push(v.deep_view()[i as int], |x: Seq<char>| x != s@);
        }
        if !str_eq(v[i].as_str(), s) {
            out.push(v[i].clone());
        }
        proof {
            assert(out.deep_view() =~= without(v.deep_view().subrange(0, i + 1), s@));
        }
        i = i + 1;
    }
    assert(v.deep_view().subrange(0, v.len() as int) =~= v.deep_view());
    out
}

} // verus!
