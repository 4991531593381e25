//! The job that highlights both versions of a diffed file.

use vstd::prelude::*;

use crate::model::{CommitId, DiffType, FileContent};
use crate::string_utils::{expand_tabs, tabs_to_spaces};
use crate::ui::diff_syntax::{
    highlighted_line_texts, highlighted_texts, FileView, HighlightSkipReason, HighlightStatus,
    HighlightedDiff, HighlightedDiffKey, HighlightedFile, HighlightedLine, HighlightedSpan,
};
use crate::ui::style::SpanText;

verus! {

/// What is asked of a highlighting job.
#[derive(Debug)]
pub struct DiffSyntaxRequest {
    pub key: HighlightedDiffKey,
    pub diff_type: DiffType,
    pub max_file_bytes: u64,
    pub max_file_lines: usize,
}

/// What a highlighting job holds: a request, and later its answer.
#[derive(Debug)]
pub enum DiffSyntaxJobState {
    Request(DiffSyntaxRequest),
    Response(HighlightedDiff),
}

#[derive(Debug)]
pub struct AsyncDiffSyntaxJob {
    pub state: Option<DiffSyntaxJobState>,
}

impl AsyncDiffSyntaxJob {
    pub fn new(
        key: HighlightedDiffKey,
        diff_type: DiffType,
        max_file_bytes: u64,
        max_file_lines: usize,
    ) -> (job: Self)
        ensures
            job.state == Some(
                DiffSyntaxJobState::Request(
                    DiffSyntaxRequest { key, diff_type, max_file_bytes, max_file_lines },
                ),
            ),
    {
        AsyncDiffSyntaxJob {
            state: Some(
                DiffSyntaxJobState::Request(
                    DiffSyntaxRequest { key, diff_type, max_file_bytes, max_file_lines },
                ),
            ),
        }
    }

    /// Takes the answer out of the job, if there is one. Nothing is left in the
    /// job, not even a request.
    pub fn result(&mut self) -> (answer: Option<HighlightedDiff>)
        ensures
            job_answer(*old(self), *final(self), answer),
    {
        match self.state.take() {
            Some(DiffSyntaxJobState::Response(diff)) => Some(diff),
            _ => None,
        }
    }

    /// Takes the request out of the job at the start of a run. Nothing is left
    /// in the job, not even an answer.
    pub fn take_request(&mut self) -> (request: Option<DiffSyntaxRequest>)
        ensures
            final(self).state is None,
            match old(self).state {
                Some(DiffSyntaxJobState::Request(asked)) => request == Some(asked),
                _ => request is None,
            },
    {
        match self.state.take() {
            Some(DiffSyntaxJobState::Request(request)) => Some(request),
            _ => None,
        }
    }

    /// Leaves the answer in the job at the end of a run: the highlighted diff,
    /// or a failed one that carries the message of the error.
    pub fn finish(&mut self, key: HighlightedDiffKey, outcome: Result<HighlightedDiff, String>)
        ensures
            final(self).state == Some(
                DiffSyntaxJobState::Response(
                    match outcome {
                        Ok(diff) => diff,
                        Err(message) => HighlightedDiff {
                            key,
                            old: None,
                            new: None,
                            status: HighlightStatus::Failed(message),
                        },
                    },
                ),
            ),
    {
        let diff = match outcome {
            Ok(diff) => diff,
            Err(message) => HighlightedDiff {
                key,
                old: None,
                new: None,
                status: HighlightStatus::Failed(message),
            },
        };
        self.state = Some(DiffSyntaxJobState::Response(diff));
    }
}

/// A job that was run hands out its answer once.
pub proof fn law_answer_is_taken_once(
    before: AsyncDiffSyntaxJob,
    taken: AsyncDiffSyntaxJob,
    again: AsyncDiffSyntaxJob,
    first: Option<HighlightedDiff>,
    second: Option<HighlightedDiff>,
)
    requires
        before.state is Some,
        job_answer(before, taken, first),
        job_answer(taken, again, second),
    ensures
        first == match before.state->0 {
            DiffSyntaxJobState::Response(diff) => Some(diff),
            DiffSyntaxJobState::Request(_) => None,
        },
        second is None,
{
}

/// What taking the answer out of a job does.
pub open spec fn job_answer(
    before: AsyncDiffSyntaxJob,
    after: AsyncDiffSyntaxJob,
    answer: Option<HighlightedDiff>,
) -> bool {
    &&& after.state is None
    &&& answer == match before.state {
        Some(DiffSyntaxJobState::Response(diff)) => Some(diff),
        _ => None,
    }
}

/// Where a version of a file is read from.
#[derive(Clone, Copy, PartialEq, Eq, Debug)]
pub enum ContentSource {
    Head,
    Index,
    WorkTree,
    Commit(CommitId),
}

/// Why a version of a file could not be read.
#[derive(PartialEq, Eq, Debug)]
pub enum ContentError {
    BinaryFile,
    Other(String),
}

/// The commit whose parent has to be known before the sources of a diff are.
pub fn parent_needed(diff_type: &DiffType) -> (commit: Option<CommitId>)
    ensures
        commit == match diff_type {
            DiffType::Commit(commit) => Some(*commit),
            _ => None,
        },
{
    match diff_type {
        DiffType::Commit(commit) => Some(*commit),
        _ => None,
    }
}

/// Where the old and the new version of a diffed file are read from. `parent` is
/// the parent of the commit that is looked at, if it has one.
pub open spec fn diff_sources(diff_type: DiffType, parent: Option<CommitId>) -> (
    Option<ContentSource>,
    Option<ContentSource>,
) {
    match diff_type {
        DiffType::WorkDir => (Some(ContentSource::Index), Some(ContentSource::WorkTree)),
        DiffType::Stage => (Some(ContentSource::Head), Some(ContentSource::Index)),
        DiffType::Commit(commit) => (
            match parent {
                Some(parent) => Some(ContentSource::Commit(parent)),
                None => None,
            },
            Some(ContentSource::Commit(commit)),
        ),
        DiffType::Commits { old, new } => (
            Some(ContentSource::Commit(old)),
            Some(ContentSource::Commit(new)),
        ),
    }
}

pub fn diff_content_sources(diff_type: &DiffType, parent: Option<CommitId>) -> (sources: (
    Option<ContentSource>,
    Option<ContentSource>,
))
    ensures
        sources == diff_sources(*diff_type, parent),
{
    match diff_type {
        DiffType::WorkDir => (Some(ContentSource::Index), Some(ContentSource::WorkTree)),
        DiffType::Stage => (Some(ContentSource::Head), Some(ContentSource::Index)),
        DiffType::Commit(commit) => (
            match parent {
                Some(parent) => Some(ContentSource::Commit(parent)),
                None => None,
            },
            Some(ContentSource::Commit(*commit)),
        ),
        DiffType::Commits { old, new } => (
            Some(ContentSource::Commit(*old)),
            Some(ContentSource::Commit(*new)),
        ),
    }
}

/// The number of line feeds in a text.
pub open spec fn line_feeds(text: Seq<char>) -> nat
    decreases text.len(),
{
    if text.len() == 0 {
        0
    } else {
        line_feeds(text.drop_last()) + (if text.last() == '\n' { 1nat } else { 0 })
    }
}

/// The number of lines of a text: each line feed ends one, and what follows the
/// last line feed is a line too unless it is empty.
pub open spec fn line_count(text: Seq<char>) -> nat {
    line_feeds(text) + (if text.len() > 0 && text.last() != '\n' { 1nat } else { 0 })
}

proof fn lemma_line_feeds_bound(text: Seq<char>)
    ensures
        line_feeds(text) <= text.len(),
        line_count(text) <= text.len(),
    decreases text.len(),
{
    if text.len() > 0 {
        lemma_line_feeds_bound(text.drop_last());
    }
}

/// A text has as many lines as line feeds, and one more if something follows the
/// last of them.
pub proof fn law_lines_end_in_line_feeds(text: Seq<char>)
    ensures
        line_feeds(text) == text.filter(|c: char| c == '\n').len(),
        text.len() == 0 || text.last() == '\n' ==> line_count(text) == line_feeds(text),
        text.len() > 0 && text.last() != '\n' ==> line_count(text) == line_feeds(text) + 1,
    decreases text.len(),
{
    reveal(Seq::filter);
    if text.len() > 0 {
        law_lines_end_in_line_feeds(text.drop_last());
    }
}

/// The working directory is compared with the index, the index with the last
/// commit, and a commit with its parent, if it has one; of two commits the old one
/// is the old side.
pub proof fn law_sides_are_read_from_what_is_compared(
    commit: CommitId,
    other: CommitId,
    parent: Option<CommitId>,
)
    ensures
        diff_sources(DiffType::WorkDir, parent) == (
            Some(ContentSource::Index),
            Some(ContentSource::WorkTree),
        ),
        diff_sources(DiffType::Stage, parent) == (
            Some(ContentSource::Head),
            Some(ContentSource::Index),
        ),
        diff_sources(DiffType::Commit(commit), None) == (
            None::<ContentSource>,
            Some(ContentSource::Commit(commit)),
        ),
        diff_sources(DiffType::Commit(commit), Some(other)) == (
            Some(ContentSource::Commit(other)),
            Some(ContentSource::Commit(commit)),
        ),
        diff_sources(DiffType::Commits { old: other, new: commit }, parent) == (
            Some(ContentSource::Commit(other)),
            Some(ContentSource::Commit(commit)),
        ),
{
}

/// Counts the lines of a text.
pub fn count_lines(text: &str) -> (count: usize)
    ensures
        count == line_count(text@),
{
    let len: usize = text.unicode_len();
    let mut feeds: usize = 0;
    let mut open: bool = false;
    for c in it: text.chars()
        invariant
            len == text@.len(),
            it.seq() == text@,
            feeds == line_feeds(text@.take(it.index() as int)),
            feeds <= it.index() <= len,
            open == (it.index() > 0 && text@[it.index() - 1] != '\n'),
    {
        assert(text@.take(it.index() + 1).drop_last() == text@.take(it.index() as int));
        if c == '\n' {
            feeds = feeds + 1;
            open = false;
        } else {
            open = true;
        }
    }
    proof {
        assert(text@.take(text@.len() as int) == text@);
        lemma_line_feeds_bound(text@);
    }
    if open { feeds + 1 } else { feeds }
}

/// Why a file is not highlighted: it has too many bytes or else too many lines.
pub open spec fn skip_reason(
    content: FileContent,
    max_file_bytes: u64,
    max_file_lines: usize,
) -> Option<HighlightSkipReason> {
    if content.bytes > max_file_bytes {
        Some(HighlightSkipReason::TooLarge { bytes: content.bytes, max_bytes: max_file_bytes })
    } else if line_count(content.content@) > max_file_lines {
        Some(
            HighlightSkipReason::TooManyLines {
                lines: line_count(content.content@) as usize,
                max_lines: max_file_lines,
            },
        )
    } else {
        None
    }
}

pub fn should_skip(content: &FileContent, max_file_bytes: u64, max_file_lines: usize) -> (reason:
    Option<HighlightSkipReason>)
    ensures
        reason == skip_reason(*content, max_file_bytes, max_file_lines),
        reason matches Some(HighlightSkipReason::TooManyLines { lines, .. }) ==> lines
            == line_count(content.content@),
        content.bytes > max_file_bytes ==> reason == Some(
            HighlightSkipReason::TooLarge { bytes: content.bytes, max_bytes: max_file_bytes },
        ),
        content.bytes <= max_file_bytes && line_count(content.content@) > max_file_lines ==> reason
            == Some(
            HighlightSkipReason::TooManyLines {
                lines: line_count(content.content@) as usize,
                max_lines: max_file_lines,
            },
        ),
        content.bytes <= max_file_bytes && line_count(content.content@) <= max_file_lines
            ==> reason is None,
{
    if content.bytes > max_file_bytes {
        return Some(
            HighlightSkipReason::TooLarge { bytes: content.bytes, max_bytes: max_file_bytes },
        );
    }
    let lines: usize = count_lines(content.content.as_str());
    if lines > max_file_lines {
        return Some(HighlightSkipReason::TooManyLines { lines, max_lines: max_file_lines });
    }
    None
}

/// What is to be done once both versions of a file were read.
#[derive(Debug)]
pub enum HighlightPlan {
    /// There is nothing to highlight: this is the answer.
    Answer(HighlightedDiff),
    /// Both versions are to be highlighted.
    Highlight { key: HighlightedDiffKey, old: Option<FileContent>, new: Option<FileContent> },
}

/// Why a file is not highlighted, given what was read of it: the old version is
/// looked at before the new one.
pub open spec fn skip_of_versions(
    old: Option<FileContent>,
    new: Option<FileContent>,
    max_file_bytes: u64,
    max_file_lines: usize,
) -> Option<HighlightSkipReason> {
    let old_reason = match old {
        Some(content) => skip_reason(content, max_file_bytes, max_file_lines),
        None => None,
    };
    let new_reason = match new {
        Some(content) => skip_reason(content, max_file_bytes, max_file_lines),
        None => None,
    };
    if old_reason is Some {
        old_reason
    } else if new_reason is Some {
        new_reason
    } else if old is None && new is None {
        Some(HighlightSkipReason::MissingContent)
    } else {
        None
    }
}

/// A file is left out for its old version, if that is too large or too long, else
/// for its new version, else if it has neither. It is highlighted exactly when it
/// has a version and none is too large or too long.
pub proof fn law_file_is_left_out_for_its_versions(
    old: Option<FileContent>,
    new: Option<FileContent>,
    max_file_bytes: u64,
    max_file_lines: usize,
)
    ensures
        ({
            let reason = skip_of_versions(old, new, max_file_bytes, max_file_lines);
            let old_large = old is Some && old->0.bytes > max_file_bytes;
            let old_long = old is Some && line_count(old->0.content@) > max_file_lines;
            let new_large = new is Some && new->0.bytes > max_file_bytes;
            let new_long = new is Some && line_count(new->0.content@) > max_file_lines;
            &&& reason is None <==> (old is Some || new is Some) && !old_large && !old_long
                && !new_large && !new_long
            &&& old is None && new is None ==> reason == Some(HighlightSkipReason::MissingContent)
            &&& old_large ==> reason == Some(
                HighlightSkipReason::TooLarge { bytes: old->0.bytes, max_bytes: max_file_bytes },
            )
            &&& !old_large && old_long ==> reason == Some(
                HighlightSkipReason::TooManyLines {
                    lines: line_count(old->0.content@) as usize,
                    max_lines: max_file_lines,
                },
            )
            &&& !old_large && !old_long && new_large ==> reason == Some(
                HighlightSkipReason::TooLarge { bytes: new->0.bytes, max_bytes: max_file_bytes },
            )
            &&& !old_large && !old_long && !new_large && new_long ==> reason == Some(
                HighlightSkipReason::TooManyLines {
                    lines: line_count(new->0.content@) as usize,
                    max_lines: max_file_lines,
                },
            )
        }),
{
}

/// A file that is left out is answered without either version, under the key that
/// was asked for, with the reason.
pub proof fn law_left_out_file_is_answered(key: HighlightedDiffKey, reason: HighlightSkipReason)
    ensures
        skipped_diff(key, reason).key == key,
        skipped_diff(key, reason).old is None,
        skipped_diff(key, reason).new is None,
        skipped_diff(key, reason).status == HighlightStatus::Skipped(reason),
{
}

/// The answer to a request that is not highlighted.
pub open spec fn skipped_diff(key: HighlightedDiffKey, reason: HighlightSkipReason) -> HighlightedDiff {
    HighlightedDiff { key, old: None, new: None, status: HighlightStatus::Skipped(reason) }
}

fn skipped(key: HighlightedDiffKey, reason: HighlightSkipReason) -> (diff: HighlightedDiff)
    ensures
        diff == skipped_diff(key, reason),
{
    HighlightedDiff { key, old: None, new: None, status: HighlightStatus::Skipped(reason) }
}

/// Decides what to do with what was read of a file: a binary, too large or
/// missing file is answered at once, the message of any other error is handed on,
/// and everything else is to be highlighted.
pub fn build_highlighted_diff(
    request: DiffSyntaxRequest,
    loaded: Result<(Option<FileContent>, Option<FileContent>), ContentError>,
) -> (plan: Result<HighlightPlan, String>)
    ensures
        match loaded {
            Err(ContentError::BinaryFile) => plan == Ok::<HighlightPlan, String>(
                HighlightPlan::Answer(skipped_diff(request.key, HighlightSkipReason::Binary)),
            ),
            Err(ContentError::Other(message)) => plan == Err::<HighlightPlan, String>(message),
            Ok((old, new)) => match skip_of_versions(
                old,
                new,
                request.max_file_bytes,
                request.max_file_lines,
            ) {
                Some(reason) => plan == Ok::<HighlightPlan, String>(
                    HighlightPlan::Answer(skipped_diff(request.key, reason)),
                ),
                None => plan == Ok::<HighlightPlan, String>(
                    HighlightPlan::Highlight { key: request.key, old, new },
                ),
            },
        },
{
    let (old, new) = match loaded {
        Ok(content) => content,
        Err(ContentError::BinaryFile) => {
            return Ok(HighlightPlan::Answer(skipped(request.key, HighlightSkipReason::Binary)));
        },
        Err(ContentError::Other(message)) => return Err(message),
    };
    if let Some(content) = &old {
        if let Some(reason) = should_skip(content, request.max_file_bytes, request.max_file_lines) {
            return Ok(HighlightPlan::Answer(skipped(request.key, reason)));
        }
    }
    if let Some(content) = &new {
        if let Some(reason) = should_skip(content, request.max_file_bytes, request.max_file_lines) {
            return Ok(HighlightPlan::Answer(skipped(request.key, reason)));
        }
    }
    if old.is_none() && new.is_none() {
        return Ok(
            HighlightPlan::Answer(skipped(request.key, HighlightSkipReason::MissingContent)),
        );
    }
    Ok(HighlightPlan::Highlight { key: request.key, old, new })
}

/// The text of a file as it is handed to the highlighter, with its tabs
/// replaced.
pub fn prepare_content(content: FileContent) -> (prepared: FileContent)
    ensures
        prepared.path == content.path,
        prepared.bytes == content.bytes,
        prepared.content@ == expand_tabs(content.content@),
{
    FileContent {
        path: content.path,
        content: tabs_to_spaces(content.content),
        bytes: content.bytes,
    }
}

/// The pieces of the lines that a highlighter has spans for.
pub open spec fn present_lines(lines: Seq<Option<Vec<HighlightedSpan>>>) -> Seq<Seq<SpanText>>
    decreases lines.len(),
{
    if lines.len() == 0 {
        Seq::empty()
    } else {
        match lines.last() {
            Some(spans) => present_lines(lines.drop_last()).push(highlighted_texts(spans@)),
            None => present_lines(lines.drop_last()),
        }
    }
}

/// The lines that there are spans for are kept in their order, each with all its
/// pieces, and the others leave no trace.
pub proof fn law_lines_with_spans_are_kept(
    a: Seq<Option<Vec<HighlightedSpan>>>,
    b: Seq<Option<Vec<HighlightedSpan>>>,
    spans: Vec<HighlightedSpan>,
)
    ensures
        present_lines(a + b) == present_lines(a) + present_lines(b),
        present_lines(seq![Some(spans)]) == seq![highlighted_texts(spans@)],
        present_lines(seq![None]) == Seq::<Seq<SpanText>>::empty(),
    decreases b.len(),
{
    reveal_with_fuel(present_lines, 2);
    assert(seq![Some(spans)].drop_last() =~= Seq::<Option<Vec<HighlightedSpan>>>::empty());
    assert(seq![None::<Vec<HighlightedSpan>>].drop_last() =~= Seq::<
        Option<Vec<HighlightedSpan>>,
    >::empty());
    assert(present_lines(seq![Some(spans)]) =~= seq![highlighted_texts(spans@)]);
    if b.len() == 0 {
        assert(a + b == a);
        assert(present_lines(a) + present_lines(b) =~= present_lines(a));
    } else {
        law_lines_with_spans_are_kept(a, b.drop_last(), spans);
        assert((a + b).drop_last() == a + b.drop_last());
        assert((a + b).last() == b.last());
        assert(present_lines(a + b) =~= present_lines(a) + present_lines(b));
    }
}

/// Puts a highlighted file together from what the highlighter says of each
/// line; lines that it has no spans for are left out.
pub fn highlight_file(path: String, line_spans: Vec<Option<Vec<HighlightedSpan>>>) -> (file:
    HighlightedFile)
    ensures
        file@ == (FileView {
            path: path@,
            line_count: line_spans@.len() as usize,
            lines: present_lines(line_spans@),
        }),
        file@.line_count == line_spans@.len(),
{
    let line_count: usize = line_spans.len();
    let ghost all = line_spans@;
    let mut lines: Vec<HighlightedLine> = Vec::new();
    assert(highlighted_line_texts(lines@) =~= present_lines(all.take(0)));
    for entry in it: line_spans
        invariant
            it.seq() == all,
            highlighted_line_texts(lines@) == present_lines(all.take(it.index() as int)),
    {
        assert(all.take(it.index() + 1).drop_last() == all.take(it.index() as int));
        assert(all.take(it.index() + 1).last() == entry);
        let ghost before = highlighted_line_texts(lines@);
        if let Some(spans) = entry {
            lines.push(HighlightedLine { spans });
            assert(highlighted_line_texts(lines@) =~= before.push(highlighted_texts(spans@)));
        }
    }
    assert(all.take(all.len() as int) == all);
    HighlightedFile { path, line_count, lines }
}

/// The highlighted version of a file that there is, if highlighting did not fail.
pub open spec fn version_of(side: Option<Result<HighlightedFile, String>>) -> Option<
    HighlightedFile,
> {
    match side {
        Some(Ok(file)) => Some(file),
        _ => None,
    }
}

/// The answer to a request whose file was highlighted: the error of the old
/// version, otherwise that of the new one, otherwise both versions as far as
/// there were any to highlight.
pub fn highlighted_diff(
    key: HighlightedDiffKey,
    old: Option<Result<HighlightedFile, String>>,
    new: Option<Result<HighlightedFile, String>>,
) -> (answer: Result<HighlightedDiff, String>)
    ensures
        answer == match (old, new) {
            (Some(Err(message)), _) => Err::<HighlightedDiff, String>(message),
            (_, Some(Err(message))) => Err::<HighlightedDiff, String>(message),
            _ => Ok::<HighlightedDiff, String>(
                HighlightedDiff {
                    key,
                    old: version_of(old),
                    new: version_of(new),
                    status: HighlightStatus::Ready,
                },
            ),
        },
        answer matches Ok(diff) ==> (diff.old is Some <==> old is Some) && (diff.new is Some
            <==> new is Some),
        answer is Ok <==> !(old matches Some(Err(_))) && !(new matches Some(Err(_))),
        answer matches Ok(diff) ==> diff.key == key && diff.status == HighlightStatus::Ready && (
        old matches Some(Ok(file)) ==> diff.old == Some(file)) && (new matches Some(Ok(file))
            ==> diff.new == Some(file)),
{
    let old = match old {
        Some(Ok(file)) => Some(file),
        Some(Err(message)) => return Err(message),
        None => None,
    };
    let new = match new {
        Some(Ok(file)) => Some(file),
        Some(Err(message)) => return Err(message),
        None => None,
    };
    Ok(HighlightedDiff { key, old, new, status: HighlightStatus::Ready })
}

} // verus!
