//! The data of a file diff, as a repository back end reports it.

use vstd::prelude::*;

verus! {

/// The kind of a line of a diff.
#[derive(Clone, Copy, PartialEq, Eq, Debug, Structural)]
pub enum DiffLineType {
    /// A line that both sides share.
    Context,
    /// The header of a hunk.
    Header,
    /// A line that only the new side has.
    Add,
    /// A line that only the old side has.
    Delete,
}

/// The line numbers of a diff line on both sides, counted from one.
#[derive(Clone, Copy, PartialEq, Eq, Debug, Structural)]
pub struct DiffLinePosition {
    pub old_lineno: Option<u32>,
    pub new_lineno: Option<u32>,
}

/// One line of a diff.
#[derive(Debug)]
pub struct DiffLine {
    pub content: String,
    pub line_type: DiffLineType,
    pub position: DiffLinePosition,
}

/// A run of neighbouring diff lines under one header.
#[derive(Debug)]
pub struct Hunk {
    pub header_hash: u64,
    pub lines: Vec<DiffLine>,
}

/// The diff of one file.
#[derive(Debug)]
pub struct FileDiff {
    pub hunks: Vec<Hunk>,
    /// The number of lines over all hunks, as the back end counted it.
    pub lines: usize,
    pub untracked: bool,
    /// The file's size before and after.
    pub sizes: (u64, u64),
    pub size_delta: i64,
}

/// The lines of the first `k` hunks, one after another.
pub open spec fn lines_of_hunks(hunks: Seq<Hunk>, k: int) -> Seq<DiffLine>
    decreases k,
{
    if k <= 0 {
        Seq::empty()
    } else {
        lines_of_hunks(hunks, k - 1) + hunks[k - 1].lines@
    }
}

/// Whether a line is an addition or a deletion.
pub open spec fn is_change(line_type: DiffLineType) -> bool {
    line_type == DiffLineType::Add || line_type == DiffLineType::Delete
}

impl FileDiff {
    /// All lines of the diff in order: a raw line is named by its index here.
    pub open spec fn raw_lines(self) -> Seq<DiffLine> {
        lines_of_hunks(self.hunks@, self.hunks@.len() as int)
    }

    /// The raw index of the first line of hunk `k`.
    pub open spec fn hunk_start(self, k: int) -> int {
        lines_of_hunks(self.hunks@, k).len() as int
    }

    /// The line count fits the machine: every raw index, and the one past the
    /// last, has a successor.
    pub open spec fn fits(self) -> bool {
        self.raw_lines().len() < usize::MAX
    }

    /// Whether the line count fits the machine.
    pub fn line_count_fits(&self) -> (fits: bool)
        ensures
            fits == self.fits(),
    {
        let mut room: usize = usize::MAX - 1;
        for i in 0..self.hunks.len()
            invariant
                room + self.hunk_start(i as int) == usize::MAX - 1,
        {
            let len: usize = self.hunks[i].lines.len();
            if len > room {
                proof {
                    lemma_lines_of_hunks_grow(self.hunks@, i + 1, self.hunks@.len() as int);
                }
                return false;
            }
            room = room - len;
        }
        true
    }

    /// Raw line `i` stands in hunk `h`.
    pub open spec fn in_hunk(self, i: int, h: int) -> bool {
        0 <= h < self.hunks@.len() && self.hunk_start(h) <= i < self.hunk_start(h + 1)
    }
}

pub proof fn lemma_lines_of_hunks_grow(hunks: Seq<Hunk>, j: int, k: int)
    requires
        0 <= j <= k,
    ensures
        lines_of_hunks(hunks, j).len() <= lines_of_hunks(hunks, k).len(),
        forall|i: int|
            0 <= i < lines_of_hunks(hunks, j).len() ==> #[trigger] lines_of_hunks(hunks, k)[i]
                == lines_of_hunks(hunks, j)[i],
    decreases k,
{
    if j < k {
        lemma_lines_of_hunks_grow(hunks, j, k - 1);
    }
}

/// Line `i` of hunk `h` is the raw line `hunk_start(h) + i`.
pub proof fn lemma_raw_line_of_hunk(diff: FileDiff, h: int, i: int)
    requires
        0 <= h < diff.hunks@.len(),
        0 <= i < diff.hunks@[h].lines@.len(),
    ensures
        diff.in_hunk(diff.hunk_start(h) + i, h),
        diff.hunk_start(h) + i < diff.raw_lines().len(),
        diff.raw_lines()[diff.hunk_start(h) + i] == diff.hunks@[h].lines@[i],
{
    lemma_lines_of_hunks_grow(diff.hunks@, h + 1, diff.hunks@.len() as int);
}

/// The lines of a diff are those of its hunks, one hunk after another: the first
/// hunk starts at the first line, and each of the others where the one before it
/// ends.
pub proof fn law_hunks_follow_each_other(diff: FileDiff, h: int, i: int)
    requires
        0 <= h < diff.hunks@.len(),
    ensures
        diff.hunk_start(0) == 0,
        diff.hunk_start(h + 1) == diff.hunk_start(h) + diff.hunks@[h].lines@.len(),
        diff.hunk_start(diff.hunks@.len() as int) == diff.raw_lines().len(),
        0 <= i < diff.hunks@[h].lines@.len() ==> diff.raw_lines()[diff.hunk_start(h) + i]
            == diff.hunks@[h].lines@[i],
        diff.in_hunk(i, h) <==> diff.hunk_start(h) <= i < diff.hunk_start(h)
            + diff.hunks@[h].lines@.len(),
{
    if 0 <= i < diff.hunks@[h].lines@.len() {
        lemma_raw_line_of_hunk(diff, h, i);
    }
}

/// No raw line stands in two hunks.
pub proof fn lemma_one_hunk_per_line(diff: FileDiff, i: int, g: int, h: int)
    requires
        diff.in_hunk(i, g),
        diff.in_hunk(i, h),
    ensures
        g == h,
{
    if g < h {
        lemma_lines_of_hunks_grow(diff.hunks@, g + 1, h);
    } else if h < g {
        lemma_lines_of_hunks_grow(diff.hunks@, h + 1, g);
    }
}

/// Every raw line stands in exactly one hunk.
pub proof fn law_line_has_one_hunk(diff: FileDiff, i: int) -> (h: int)
    requires
        0 <= i < diff.raw_lines().len(),
    ensures
        diff.in_hunk(i, h),
        forall|g: int| #[trigger] diff.in_hunk(i, g) ==> g == h,
{
    let h = lemma_line_has_hunk_below(diff, i, diff.hunks@.len() as int);
    assert forall|g: int| #[trigger] diff.in_hunk(i, g) implies g == h by {
        lemma_one_hunk_per_line(diff, i, g, h);
    }
    h
}

proof fn lemma_line_has_hunk_below(diff: FileDiff, i: int, k: int) -> (h: int)
    requires
        0 <= k <= diff.hunks@.len(),
        0 <= i < diff.hunk_start(k),
    ensures
        diff.in_hunk(i, h),
    decreases k,
{
    if diff.hunk_start(k - 1) <= i {
        k - 1
    } else {
        lemma_line_has_hunk_below(diff, i, k - 1)
    }
}

/// How a diff is computed.
#[derive(Clone, Copy, PartialEq, Eq, Debug, Structural)]
pub struct DiffOptions {
    pub ignore_whitespace: bool,
    /// Unchanged lines shown around a change.
    pub context: u32,
    /// Unchanged lines up to which neighbouring hunks are joined.
    pub interhunk_lines: u32,
}

impl Default for DiffOptions {
    fn default() -> (options: Self)
        ensures
            options == (DiffOptions { ignore_whitespace: false, context: 1, interhunk_lines: 0 }),
    {
        DiffOptions { ignore_whitespace: false, context: 1, interhunk_lines: 0 }
    }
}

/// The name of a commit.
#[derive(Clone, Copy, PartialEq, Eq, Debug)]
pub struct CommitId {
    pub id: [u8; 20],
}

/// What a diff compares.
#[derive(Clone, Copy, PartialEq, Eq, Debug)]
pub enum DiffType {
    /// Two commits.
    Commits { old: CommitId, new: CommitId },
    /// A commit with its parent.
    Commit(CommitId),
    /// The index with the working directory.
    WorkDir,
    /// The last commit with the index.
    Stage,
}

/// What a diff was asked for.
#[derive(Debug)]
pub struct DiffParams {
    pub path: String,
    pub diff_type: DiffType,
    pub options: DiffOptions,
}

/// One version of a file as text.
#[derive(Debug)]
pub struct FileContent {
    pub path: String,
    pub content: String,
    pub bytes: u64,
}

/// Counts of added and deleted lines.
#[derive(Clone, Copy, PartialEq, Eq, Debug, Structural)]
pub struct LineStats {
    pub additions: usize,
    pub deletions: usize,
}

/// How far a background job has come, in percent.
#[derive(Clone, Copy, PartialEq, Eq, Debug, Structural)]
pub struct ProgressPercent {
    pub progress: u8,
}

impl ProgressPercent {
    /// The progress of a job that has only just started.
    pub fn empty() -> (progress: Self)
        ensures
            progress.progress == 0,
    {
        ProgressPercent { progress: 0 }
    }
}

/// Which untracked files the status list shows.
#[derive(Clone, Copy, PartialEq, Eq, Debug, Structural)]
pub enum ShowUntrackedFilesConfig {
    No,
    Normal,
    All,
}

} // verus!
