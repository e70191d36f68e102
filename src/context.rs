//! Where a store's files live, relative to its root directory.
use vstd::prelude::*;

verus! {

/// `dir/name`, with one separator between them.
pub open spec fn joined_path(dir: Seq<char>, name: Seq<char>) -> Seq<char> {
    if dir.len() > 0 && dir.last() == '/' {
        dir + name
    } else {
        dir + "/"@ + name
    }
}

/// The directories of a store.
pub struct FabricContext {
    pub root: String,
    pub events_dir: String,
    pub archive_dir: String,
}

fn join(dir: &str, name: &str) -> (r: String)
    ensures
        r@ == joined_path(dir@, name@),
{
    let n = dir.unicode_len();
    let mut out = dir.to_owned();
    if !(n > 0 && dir.get_char(n - 1) == '/') {
        out.append("/");
    }
    out.append(name);
    out
}

impl FabricContext {
    /// The store rooted at `root`: daily logs under `events`, monthly
    /// rollups under `archive`.
    pub fn new(root: &str) -> (r: FabricContext)
        ensures
            r.root@ == root@,
            r.events_dir@ == joined_path(root@, "events"@),
            r.archive_dir@ == joined_path(root@, "archive"@),
    {
        FabricContext { root: root.to_owned(), events_dir: join(root, "events"), archive_dir: join(root, "archive") }
    }

    /// The cached index.
    pub fn index_path(&self) -> (r: String)
        ensures
            r@ == joined_path(self.root@, ".index.json"@),
    {
        join(self.root.as_str(), ".index.json")
    }

    /// The cached state.
    pub fn state_path(&self) -> (r: String)
        ensures
            r@ == joined_path(self.root@, ".state.json"@),
    {
        join(self.root.as_str(), ".state.json")
    }

    /// The daily log of `day` (`YYYY-MM-DD`).
    pub fn daily_file(&self, day: &str) -> (r: String)
        ensures
            r@ == joined_path(self.events_dir@, day@ + ".jsonl"@),
    {
        let mut name = day.to_owned();
        name.append(".jsonl");
        join(self.events_dir.as_str(), name.as_str())
    }

    /// The rollup of `month` (`YYYY-MM`).
    pub fn archive_file(&self, month: &str) -> (r: String)
        ensures
            r@ == joined_path(self.archive_dir@, month@ + ".jsonl"@),
    {
        let mut name = month.to_owned();
        name.append(".jsonl");
        join(self.archive_dir.as_str(), name.as_str())
    }
}

} // verus!
