//! The small state enums of the terminal interface and its text fitting.
use vstd::prelude::*;

verus! {

/// The screen shown.
#[derive(Debug, Clone, Copy, PartialEq, Eq, Structural)]
pub enum Screen {
    Tasks,
    Streams,
    History,
}

/// Which pane takes keys.
#[derive(Debug, Clone, Copy, PartialEq, Eq, Structural)]
pub enum Focus {
    TaskList,
    Detail,
}

/// Which tasks the list shows.
#[derive(Debug, Clone, Copy, PartialEq, Eq, Structural)]
pub enum StatusFilter {
    Open,
    Complete,
    All,
}

impl StatusFilter {
    pub fn label(&self) -> (r: &'static str)
        ensures
            *self == StatusFilter::Open ==> r@ == "Open"@,
            *self == StatusFilter::Complete ==> r@ == "Complete"@,
            *self == StatusFilter::All ==> r@ == "All"@,
    {
        match self {
            StatusFilter::Open => "Open",
            StatusFilter::Complete => "Complete",
            StatusFilter::All => "All",
        }
    }

    /// Open, then Complete, then All, then Open again.
    pub fn next(&self) -> (r: StatusFilter)
        ensures
            *self == StatusFilter::Open ==> r == StatusFilter::Complete,
            *self == StatusFilter::Complete ==> r == StatusFilter::All,
            *self == StatusFilter::All ==> r == StatusFilter::Open,
    {
        match self {
            StatusFilter::Open => StatusFilter::Complete,
            StatusFilter::Complete => StatusFilter::All,
            StatusFilter::All => StatusFilter::Open,
        }
    }
}

/// The order of the task list.
#[derive(Debug, Clone, Copy, PartialEq, Eq, Structural)]
pub enum SortBy {
    Priority,
    Created,
    Title,
}

impl SortBy {
    pub fn label(&self) -> (r: &'static str)
        ensures
            *self == SortBy::Priority ==> r@ == "Priority"@,
            *self == SortBy::Created ==> r@ == "Created"@,
            *self == SortBy::Title ==> r@ == "Title"@,
    {
        match self {
            SortBy::Priority => "Priority",
            SortBy::Created => "Created",
            SortBy::Title => "Title",
        }
    }

    /// Priority, then Created, then Title, then Priority again.
    pub fn next(&self) -> (r: SortBy)
        ensures
            *self == SortBy::Priority ==> r == SortBy::Created,
            *self == SortBy::Created ==> r == SortBy::Title,
            *self == SortBy::Title ==> r == SortBy::Priority,
    {
        match self {
            SortBy::Priority => SortBy::Created,
            SortBy::Created => SortBy::Title,
            SortBy::Title => SortBy::Priority,
        }
    }
}

/// What typed text goes to.
#[derive(Debug, Clone, Copy, PartialEq, Eq, Structural)]
pub enum InputMode {
    Normal,
    NewTask,
    NewStream,
    EditTaskTitle,
    EditTaskPriority,
    EditStreamName,
    AssignTask,
}

/// The task fields the edit menu offers.
#[derive(Debug, Clone, Copy, PartialEq, Eq, Structural)]
pub enum EditField {
    Title,
    Priority,
}

impl EditField {
    /// Every field, in menu order.
    pub fn all() -> (r: Vec<EditField>)
        ensures
            r@ == seq![EditField::Title, EditField::Priority],
    {
        let r = vec![EditField::Title, EditField::Priority];
        assert(r@ =~= seq![EditField::Title, EditField::Priority]);
        r
    }

    pub fn label(&self) -> (r: &'static str)
        ensures
            *self == EditField::Title ==> r@ == "Title"@,
            *self == EditField::Priority ==> r@ == "Priority"@,
    {
        match self {
            EditField::Title => "Title",
            EditField::Priority => "Priority",
        }
    }
}

/// The entries of the command palette.
#[derive(Debug, Clone, Copy, PartialEq, Eq, Structural)]
pub enum Command {
    Rebuild,
    Validate,
    Archive,
}

impl Command {
    pub fn label(&self) -> (r: &'static str)
        ensures
            *self == Command::Rebuild ==> r@ == "Rebuild cache"@,
            *self == Command::Validate ==> r@ == "Validate events"@,
            *self == Command::Archive ==> r@ == "Archive old tasks"@,
    {
        match self {
            Command::Rebuild => "Rebuild cache",
            Command::Validate => "Validate events",
            Command::Archive => "Archive old tasks",
        }
    }

    /// Every command, in palette order.
    pub fn all() -> (r: Vec<Command>)
        ensures
            r@ == seq![Command::Rebuild, Command::Validate, Command::Archive],
    {
        let r = vec![Command::Rebuild, Command::Validate, Command::Archive];
        assert(r@ =~= seq![Command::Rebuild, Command::Validate, Command::Archive]);
        r
    }
}

/// `s` cut to `max_len` characters, the last of them a `~`, when longer.
pub open spec fn truncated(s: Seq<char>, max_len: nat) -> Seq<char> {
    if s.len() > max_len {
        s.subrange(0, if max_len > 0 { max_len - 1 } else { 0 }).push('~')
    } else {
        s
    }
}

/// Shortens text that does not fit, marking the cut with `~`.
pub fn truncate_str(s: &str, max_len: usize) -> (r: String)
    ensures
        r@ == truncated(s@, max_len as nat),
{
    let n = s.unicode_len();
    if n > max_len {
        let keep = if max_len > 0 { max_len - 1 } else { 0 };
        let mut out = s.substring_char(0, keep).to_owned();
        out.append("~");
        proof {
            reveal_strlit("~");
        }
        assert(out@ =~= s@.subrange(0, keep as int).push('~'));
        out
    } else {
        s.to_owned()
    }
}

/// `s` brought to exactly `width` characters: cut with `~`, or padded with dots.
pub open spec fn fitted(s: Seq<char>, width: nat) -> Seq<char> {
    if s.len() > width {
        truncated(s, width)
    } else {
        s + Seq::new((width - s.len()) as nat, |_i: int| '.')
    }
}

/// Fits text to a column: cut with `~` or padded with `.`.
pub fn fixed_width(s: &str, width: usize) -> (r: String)
    ensures
        r@ == fitted(s@, width as nat),
{
    let n = s.unicode_len();
    if n > width {
        return truncate_str(s, width);
    }
    let mut out = s.to_owned();
    let mut k: usize = n;
    proof {
        reveal_strlit(".");
    }
    while k < width
        invariant
            n == s@.len(),
            n <= k <= width,
            out@ == s@ + Seq::new((k - n) as nat, |_i: int| '.'),
        decreases width - k,
    {
        out.append(".");
        proof {
            reveal_strlit(".");
        }
        assert(out@ =~= s@ + Seq::new((k + 1 - n) as nat, |_i: int| '.'));
        k = k + 1;
    }
    out
}

} // verus!
