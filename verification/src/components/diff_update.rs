//! New diffs for the diff component, and their syntax highlighting.

use vstd::prelude::*;
use vstd::utf8::encode_utf8;

use crate::components::diff::{Current, DiffComponent, HashedParams, ScrollOffsets};
use crate::components::selection::Selection;
use crate::model::{DiffLine, DiffType, FileDiff, ProgressPercent};
use crate::options::Options;
use crate::string_utils::{expand_tabs, tabs_to_spaces};
use crate::ui::diff_syntax::{
    HighlightStatus, HighlightedDiff, HighlightedDiffKey, HighlightedDiffView, KeyView,
};
use crate::ui::highlight_cache::{
    cache_highlighted_diff, cached_highlighted_diff, diff_views, find_key, lemma_find_key, stored,
    touched, HighlightedDiffCache,
};
use crate::ui::highlight_job::DiffSyntaxRequest;

verus! {

/// The number of spaces that a tab is replaced by.
pub const TAB_WIDTH: usize = 2;

/// News about the highlighting job.
#[derive(Debug)]
pub enum SyntaxNotification {
    /// The job has come further; this far, if that is known.
    Progress(Option<ProgressPercent>),
    /// The job is done; this is its answer, if it left one.
    Done(Option<HighlightedDiff>),
    /// News about something else.
    Other,
}

/// What is left to do once a diff is shown.
#[derive(Debug)]
pub struct UpdateOutcome {
    /// The diff is of another file: the view scrolls to its top.
    pub scroll_to_top: bool,
    /// The highlighting job to be started, if there is one.
    pub request: Option<DiffSyntaxRequest>,
}

/// The bytes of a line once its tabs are replaced.
pub open spec fn byte_len(line: DiffLine) -> usize {
    encode_utf8(expand_tabs(line.content@)).len() as usize
}

/// The bytes of the longest of the first `n` lines.
pub open spec fn longest_of(lines: Seq<DiffLine>, n: int) -> usize
    decreases n,
{
    if n <= 0 {
        0
    } else {
        let before = longest_of(lines, n - 1);
        if byte_len(lines[n - 1]) > before { byte_len(lines[n - 1]) } else { before }
    }
}

/// The width that horizontal scrolling reckons with: that of the longest line
/// and of the marker column, or nothing without lines.
pub open spec fn scroll_width(diff: FileDiff) -> usize {
    let lines = diff.raw_lines();
    if lines.len() == 0 {
        0
    } else {
        let longest = longest_of(lines, lines.len() as int);
        if longest < usize::MAX { (longest + 1) as usize } else { longest }
    }
}

fn longest_line(diff: &FileDiff) -> (width: usize)
    ensures
        width == scroll_width(*diff),
{
    let lines = crate::components::diff_display::raw_diff_lines(diff);
    let ghost raw = diff.raw_lines();
    let mut longest: usize = 0;
    for i in 0..lines.len()
        invariant
            lines@.unref() == raw,
            longest == longest_of(raw, i as int),
    {
        assert(lines@.unref()[i as int] == *lines@[i as int]);
        let len: usize = tabs_to_spaces(lines[i].content.clone()).as_str().len();
        if len > longest {
            longest = len;
        }
    }
    assert(lines@.len() == raw.len());
    if lines.is_empty() { 0 } else { longest.saturating_add(1) }
}

impl DiffComponent {
    /// What a highlighted diff of the given file is remembered under.
    pub open spec fn key_for(self, path: Seq<char>, diff_hash: u64, params_hash: u64) -> KeyView {
        KeyView {
            path,
            diff_hash,
            diff_params_hash: params_hash,
            syntax_theme: self.theme.syntax@,
            tab_width: TAB_WIDTH,
        }
    }

    pub fn highlight_key(&self, path: String, diff_hash: u64, params_hash: u64) -> (key:
        HighlightedDiffKey)
        ensures
            key@ == self.key_for(path@, diff_hash, params_hash),
            key.path@ == path@,
            key.diff_hash == diff_hash,
            key.diff_params_hash == params_hash,
            key.syntax_theme@ == self.theme.syntax@,
            key.tab_width == 2,
    {
        HighlightedDiffKey::new(path, diff_hash, params_hash, self.theme.syntax.clone(), TAB_WIDTH)
    }

    /// What a highlighted diff of the file on show is remembered under.
    pub open spec fn current_key(self) -> Option<KeyView> {
        match self.current_diff_params {
            Some(params) => Some(self.key_for(self.current.path@, self.current.hash, params.hash)),
            None => None,
        }
    }

    pub fn current_highlight_key(&self) -> (key: Option<HighlightedDiffKey>)
        ensures
            match key {
                Some(key) => self.current_key() == Some(key@),
                None => self.current_key() is None,
            },
    {
        match &self.current_diff_params {
            Some(params) => Some(
                self.highlight_key(self.current.path.clone(), self.current.hash, params.hash),
            ),
            None => None,
        }
    }

    /// The component holds a highlighted diff for the key, in whatever state.
    pub open spec fn holds_syntax_for(self, key: KeyView) -> bool {
        self.syntax_cache matches Some(cache) && cache@.key == key
    }

    pub fn syntax_cache_matches(&self, key: &HighlightedDiffKey) -> (matches: bool)
        ensures
            matches == self.holds_syntax_for(key@),
            matches == (self.syntax_cache is Some && self.syntax_cache->0.key@ == key@),
    {
        match &self.syntax_cache {
            Some(cache) => cache.key.same(key),
            None => false,
        }
    }

    /// Highlighting is to be looked for: it is switched on, there is something
    /// to highlight, and it is not there yet.
    pub open spec fn wants_syntax(self, key: KeyView, has_hunks: bool, options: Options) -> bool {
        options.data.diff_syntax_highlight && has_hunks && !self.holds_syntax_for(key)
    }

    /// What asking for highlighting does: nothing where it is not wanted; a
    /// remembered answer is taken over; otherwise a job is asked for, and a
    /// placeholder stands in until it is done.
    pub open spec fn syntax_step(
        before: DiffComponent,
        after: DiffComponent,
        key: KeyView,
        diff_type: DiffType,
        has_hunks: bool,
        options: Options,
        cache: Seq<HighlightedDiffView>,
        cache_after: Seq<HighlightedDiffView>,
        request: Option<DiffSyntaxRequest>,
    ) -> bool {
        if !before.wants_syntax(key, has_hunks, options) {
            after == before && cache_after == cache && request is None
        } else {
            &&& cache_after == touched(cache, key)
            &&& after == (DiffComponent {
                syntax_cache: after.syntax_cache,
                syntax_progress: after.syntax_progress,
                ..before
            })
            &&& after.syntax_cache is Some
            &&& match find_key(cache, key, 0) {
                Some(i) => {
                    &&& after.syntax_progress is None
                    &&& after.syntax_cache->0@ == cache[i]
                    &&& request is None
                },
                None => {
                    &&& after.syntax_progress == Some(ProgressPercent { progress: 0 })
                    &&& after.syntax_cache->0.key@ == key
                    &&& after.syntax_cache->0.old is None
                    &&& after.syntax_cache->0.new is None
                    &&& after.syntax_cache->0.status is Loading
                    &&& request is Some
                    &&& request->0.key@ == key
                    &&& request->0.diff_type == diff_type
                    &&& request->0.max_file_bytes == options.data.diff_syntax_max_file_bytes
                    &&& request->0.max_file_lines == options.data.diff_syntax_max_file_lines
                },
            }
        }
    }

    /// Looks for highlighting; returns the job to be started, if there is one.
    pub fn request_syntax_highlight(
        &mut self,
        key: HighlightedDiffKey,
        diff_type: DiffType,
        has_hunks: bool,
        options: &Options,
        cache: &mut HighlightedDiffCache,
    ) -> (request: Option<DiffSyntaxRequest>)
        ensures
            !options.data.diff_syntax_highlight || !has_hunks || (old(self).syntax_cache is Some
                && old(self).syntax_cache->0.key@ == key@) ==> request is None && *final(self)
                == *old(self) && final(cache)@ == old(cache)@,
            options.data.diff_syntax_highlight && has_hunks && !(old(self).syntax_cache is Some
                && old(self).syntax_cache->0.key@ == key@) ==> if exists|i: int|
                0 <= i < old(cache)@.len() && (#[trigger] old(cache)@[i]).key == key@ {
                &&& request is None
                &&& final(self).syntax_progress is None
                &&& final(self).syntax_cache is Some
                &&& final(self).syntax_cache->0@.key == key@
                &&& old(cache)@.contains(final(self).syntax_cache->0@)
            } else {
                &&& request is Some
                &&& request->0.key@ == key@
                &&& request->0.diff_type == diff_type
                &&& request->0.max_file_bytes == options.data.diff_syntax_max_file_bytes
                &&& request->0.max_file_lines == options.data.diff_syntax_max_file_lines
                &&& final(self).syntax_progress == Some(ProgressPercent { progress: 0 })
                &&& final(self).syntax_cache is Some
                &&& final(self).syntax_cache->0@.key == key@
                &&& final(self).syntax_cache->0@.status is Loading
                &&& final(cache)@ == old(cache)@
            },
            Self::syntax_step(
                *old(self),
                *final(self),
                key@,
                diff_type,
                has_hunks,
                *options,
                old(cache)@,
                final(cache)@,
                request,
            ),
    {
        if !options.diff_syntax_highlight() || !has_hunks || self.syntax_cache_matches(&key) {
            return None;
        }
        proof {
            lemma_find_key(cache@, key@, 0);
        }
        if let Some(highlighted) = cached_highlighted_diff(cache, &key) {
            self.syntax_progress = None;
            self.syntax_cache = Some(highlighted);
            return None;
        }
        self.syntax_progress = Some(ProgressPercent::empty());
        self.syntax_cache = Some(
            HighlightedDiff {
                key: key.clone(),
                old: None,
                new: None,
                status: HighlightStatus::Loading,
            },
        );
        Some(
            DiffSyntaxRequest {
                key,
                diff_type,
                max_file_bytes: options.diff_syntax_max_file_bytes(),
                max_file_lines: options.diff_syntax_max_file_lines(),
            },
        )
    }

    /// The diff on show is not the given one.
    pub open spec fn differs(self, path: String, is_stage: bool, hash: u64) -> bool {
        self.current.hash != hash || self.current.path@ != path@ || self.current.is_stage
            != is_stage
    }

    /// The component after it was given a diff. A diff of another file is shown
    /// from its start; in one of the same file the selection stays where it was,
    /// as far as there are lines.
    pub open spec fn refreshed(
        self,
        path: String,
        is_stage: bool,
        diff: FileDiff,
        hash: u64,
    ) -> DiffComponent {
        let idle = DiffComponent { pending: false, ..self };
        if self.differs(path, is_stage, hash) {
            let shown = DiffComponent {
                current: Current { path, is_stage, hash },
                diff: Some(diff),
                longest_line: scroll_width(diff),
                ..idle
            };
            if self.current.path@ != path@ {
                DiffComponent {
                    scroll: ScrollOffsets { top: 0, ..self.scroll },
                    selection: Selection::Single(0),
                    ..shown
                }.selected(0)
            } else {
                shown.selected(self.selection.start())
            }
        } else {
            idle
        }
    }

    /// Returns whether the diff is of another file.
    fn refresh(&mut self, path: String, is_stage: bool, diff: FileDiff, hash: u64) -> (other_path:
        bool)
        requires
            old(self).wf(),
            diff.fits(),
        ensures
            other_path == (old(self).current.path@ != path@),
            final(self).wf(),
            *final(self) == old(self).refreshed(path, is_stage, diff, hash),
    {
        self.pending = false;
        let other_path = self.current.path != path;
        if self.current.hash != hash || other_path || self.current.is_stage != is_stage {
            self.current = Current { path, is_stage, hash };
            self.longest_line = longest_line(&diff);
            self.diff = Some(diff);
            if other_path {
                self.scroll.top = 0;
                self.selection = Selection::Single(0);
                self.selected_hunk = None;
                self.update_selection(0);
            } else {
                let line = self.selection.get_start();
                self.selected_hunk = None;
                self.update_selection(line);
            }
        }
        other_path
    }

    /// Shows a diff. `diff_hash` is what the diff hashes to.
    pub fn update(
        &mut self,
        path: String,
        is_stage: bool,
        diff: FileDiff,
        diff_hash: u64,
        diff_params: HashedParams,
        options: &Options,
        cache: &mut HighlightedDiffCache,
    ) -> (outcome: UpdateOutcome)
        requires
            old(self).wf(),
            diff.fits(),
        ensures
            final(self).wf(),
            outcome.scroll_to_top == (old(self).current.path@ != path@),
            final(self).current.path@ == path@,
            final(self).current.is_stage == is_stage,
            final(self).current.hash == diff_hash,
            final(self).current_diff_params == Some(diff_params),
            !final(self).pending,
            old(self).current.path@ != path@ || old(self).current.is_stage != is_stage
                || old(self).current.hash != diff_hash ==> final(self).diff == Some(diff),
            old(self).current.path@ == path@ && old(self).current.is_stage == is_stage
                && old(self).current.hash == diff_hash ==> final(self).diff == old(self).diff
                && final(self).selection == old(self).selection && final(self).selected_hunk
                == old(self).selected_hunk && final(self).scroll == old(self).scroll,
            *final(self) == (DiffComponent {
                theme: old(self).theme,
                focused: old(self).focused,
                is_immutable: old(self).is_immutable,
                view_mode: old(self).view_mode,
                render_view_mode_override: old(self).render_view_mode_override,
                current_size: old(self).current_size,
                ..*final(self)
            }),
            ({
                let shown = DiffComponent {
                    current_diff_params: Some(diff_params),
                    ..old(self).refreshed(path, is_stage, diff, diff_hash)
                };
                Self::syntax_step(
                    shown,
                    *final(self),
                    old(self).key_for(path@, diff_hash, diff_params.hash),
                    diff_params.params.diff_type,
                    shown.diff matches Some(on_show) && on_show.hunks@.len() > 0,
                    *options,
                    old(cache)@,
                    final(cache)@,
                    outcome.request,
                )
            }),
    {
        let key = self.highlight_key(path.clone(), diff_hash, diff_params.hash);
        let scroll_to_top = self.refresh(path, is_stage, diff, diff_hash);
        let diff_type = diff_params.params.diff_type;
        self.current_diff_params = Some(diff_params);
        let has_hunks = match &self.diff {
            Some(diff) => !diff.hunks.is_empty(),
            None => false,
        };
        let request = self.request_syntax_highlight(key, diff_type, has_hunks, options, cache);
        UpdateOutcome { scroll_to_top, request }
    }

    /// The component after news about the highlighting job: an answer is taken
    /// over where it is for the diff on show.
    pub open spec fn notified(self, news: SyntaxNotification) -> DiffComponent {
        match news {
            SyntaxNotification::Progress(progress) => DiffComponent {
                syntax_progress: progress,
                ..self
            },
            SyntaxNotification::Done(answer) => DiffComponent {
                syntax_progress: None,
                syntax_cache: if answer matches Some(diff) && self.current_key() == Some(
                    diff@.key,
                ) {
                    answer
                } else {
                    self.syntax_cache
                },
                ..self
            },
            SyntaxNotification::Other => self,
        }
    }

    /// Takes news about the highlighting job. An answer is remembered whether it
    /// is for the diff on show or not; returned is what is then to be written to
    /// the cache file.
    pub fn update_async(&mut self, news: SyntaxNotification, cache: &mut HighlightedDiffCache) -> (snapshot:
        Option<Vec<HighlightedDiff>>)
        ensures
            *final(self) == old(self).notified(news),
            old(self).wf() ==> final(self).wf(),
            match news {
                SyntaxNotification::Done(Some(diff)) => {
                    &&& final(cache)@ == stored(old(cache)@, diff@)
                    &&& match snapshot {
                        Some(entries) => !(diff@.status is Loading) && diff_views(entries@)
                            == final(cache)@,
                        None => diff@.status is Loading,
                    }
                },
                _ => final(cache)@ == old(cache)@ && snapshot is None,
            },
    {
        match news {
            SyntaxNotification::Progress(progress) => {
                self.syntax_progress = progress;
                None
            },
            SyntaxNotification::Done(answer) => {
                self.syntax_progress = None;
                match answer {
                    Some(highlighted) => {
                        let snapshot = cache_highlighted_diff(cache, highlighted.clone());
                        if let Some(key) = self.current_highlight_key() {
                            if key.same(&highlighted.key) {
                                self.syntax_cache = Some(highlighted);
                            }
                        }
                        snapshot
                    },
                    None => None,
                }
            },
            SyntaxNotification::Other => None,
        }
    }
}

/// Once a diff was given to the component, it names what it was given, and no
/// longer waits. A diff that differs in its file, its stage or its hash from the
/// one on show takes that one's place; otherwise the one on show stays.
pub proof fn law_component_shows_what_it_was_given(
    component: DiffComponent,
    path: String,
    is_stage: bool,
    diff: FileDiff,
    hash: u64,
)
    ensures
        ({
            let after = component.refreshed(path, is_stage, diff, hash);
            let known = component.current.path@ == path@ && component.current.is_stage == is_stage
                && component.current.hash == hash;
            &&& after.current.path@ == path@
            &&& after.current.is_stage == is_stage
            &&& after.current.hash == hash
            &&& !after.pending
            &&& after.diff == if known { component.diff } else { Some(diff) }
            &&& known ==> after.longest_line == component.longest_line
            &&& after == (DiffComponent {
                theme: component.theme,
                focused: component.focused,
                is_immutable: component.is_immutable,
                view_mode: component.view_mode,
                render_view_mode_override: component.render_view_mode_override,
                current_size: component.current_size,
                syntax_cache: component.syntax_cache,
                syntax_progress: component.syntax_progress,
                current_diff_params: component.current_diff_params,
                ..after
            })
        }),
{
}

/// A diff of another file is shown with the hunk of its first line selected, a new
/// diff of the same file with the hunk of the line that stays selected.
pub proof fn law_shown_diff_selects_hunk_of_line(
    component: DiffComponent,
    path: String,
    is_stage: bool,
    diff: FileDiff,
    hash: u64,
)
    requires
        component.differs(path, is_stage, hash),
    ensures
        ({
            let after = component.refreshed(path, is_stage, diff, hash);
            after.selected_hunk == after.hunk_at(diff, after.selection.start())
        }),
        component.differs(path, is_stage, hash) <==> component.current.path@ != path@
            || component.current.is_stage != is_stage || component.current.hash != hash,
        component.current.path@ != path@ ==> component.refreshed(
            path,
            is_stage,
            diff,
            hash,
        ).scroll.right == component.scroll.right,
{
    crate::components::diff_display::law_layout_not_longer(diff);
}

proof fn lemma_longest(lines: Seq<DiffLine>, n: int)
    requires
        0 <= n <= lines.len(),
    ensures
        forall|i: int| 0 <= i < n ==> byte_len(#[trigger] lines[i]) <= longest_of(lines, n),
        n > 0 ==> exists|i: int|
            0 <= i < n && byte_len(#[trigger] lines[i]) == longest_of(lines, n),
    decreases n,
{
    if n > 0 {
        lemma_longest(lines, n - 1);
        if n > 1 && byte_len(lines[n - 1]) <= longest_of(lines, n - 1) {
            let i = choose|i: int|
                0 <= i < n - 1 && byte_len(#[trigger] lines[i]) == longest_of(lines, n - 1);
            assert(byte_len(lines[i]) == longest_of(lines, n));
        } else {
            assert(byte_len(lines[n - 1]) == longest_of(lines, n));
        }
    }
}

/// The width that a new diff is scrolled in holds every line with its tabs
/// replaced and one column more, and is no larger than the longest one needs.
pub proof fn law_longest_line_is_measured(diff: FileDiff) -> (longest: int)
    requires
        diff.raw_lines().len() > 0,
    ensures
        0 <= longest < diff.raw_lines().len(),
        ({
            let bytes = encode_utf8(expand_tabs(diff.raw_lines()[longest].content@)).len() as usize;
            &&& bytes < usize::MAX ==> scroll_width(diff) == bytes + 1
            &&& bytes == usize::MAX ==> scroll_width(diff) == bytes
            &&& forall|i: int|
                0 <= i < diff.raw_lines().len() ==> encode_utf8(
                    expand_tabs((#[trigger] diff.raw_lines()[i]).content@),
                ).len() as usize <= bytes
        }),
{
    let lines = diff.raw_lines();
    let n = lines.len() as int;
    lemma_longest(lines, n);
    let longest = choose|i: int|
        0 <= i < n && byte_len(#[trigger] lines[i]) == longest_of(lines, n);
    assert forall|i: int| 0 <= i < n implies encode_utf8(
        expand_tabs((#[trigger] lines[i]).content@),
    ).len() as usize <= byte_len(lines[longest]) by {
        assert(byte_len(lines[i]) <= longest_of(lines, n));
    }
    longest
}

/// A diff without lines needs no width. A diff that is taken over sets the width
/// that the view scrolls in.
pub proof fn law_shown_diff_sets_width(
    component: DiffComponent,
    path: String,
    is_stage: bool,
    diff: FileDiff,
    hash: u64,
)
    requires
        component.differs(path, is_stage, hash),
    ensures
        component.refreshed(path, is_stage, diff, hash).longest_line == scroll_width(diff),
        diff.raw_lines().len() == 0 ==> scroll_width(diff) == 0,
{
}

/// News of progress sets the progress and nothing else. An answer ends it, and is
/// taken over exactly when it was made for the file on show, for the hashes of its
/// diff and of its parameters, and for the theme in use.
pub proof fn law_news_are_taken_over(
    component: DiffComponent,
    progress: Option<ProgressPercent>,
    answer: HighlightedDiff,
)
    ensures
        component.notified(SyntaxNotification::Progress(progress)) == (DiffComponent {
            syntax_progress: progress,
            ..component
        }),
        component.notified(SyntaxNotification::Other) == component,
        component.notified(SyntaxNotification::Done(None)) == (DiffComponent {
            syntax_progress: None,
            ..component
        }),
        component.notified(SyntaxNotification::Done(Some(answer))) == (DiffComponent {
            syntax_progress: None,
            syntax_cache: if component.current_diff_params is Some && answer.key.path@
                == component.current.path@ && answer.key.diff_hash == component.current.hash
                && answer.key.diff_params_hash == component.current_diff_params->0.hash
                && answer.key.syntax_theme@ == component.theme.syntax@ && answer.key.tab_width
                == 2 {
                Some(answer)
            } else {
                component.syntax_cache
            },
            ..component
        }),
{
}

/// Being given the diff that is already on show changes nothing but that the
/// component no longer waits.
pub proof fn law_same_diff_changes_nothing(
    component: DiffComponent,
    path: String,
    is_stage: bool,
    diff: FileDiff,
    hash: u64,
)
    requires
        component.current.path@ == path@,
        component.current.is_stage == is_stage,
        component.current.hash == hash,
    ensures
        component.refreshed(path, is_stage, diff, hash) == (DiffComponent {
            pending: false,
            ..component
        }),
{
}

/// A new diff of the file on show keeps the line that the selection started in,
/// as far as there are so many lines, and keeps how far the view is scrolled.
pub proof fn law_same_file_keeps_selection(
    component: DiffComponent,
    path: String,
    is_stage: bool,
    diff: FileDiff,
    hash: u64,
)
    requires
        component.current.path@ == path@,
        component.differs(path, is_stage, hash),
    ensures
        ({
            let after = component.refreshed(path, is_stage, diff, hash);
            &&& after.selection.start() == if component.selection.start() < after.line_total() {
                component.selection.start()
            } else if after.line_total() > 0 {
                after.line_total() - 1
            } else {
                0
            }
            &&& after.selection is Single
            &&& after.scroll == component.scroll
        }),
{
    crate::components::diff_display::law_layout_not_longer(diff);
}

/// A diff of another file is shown from its first line on.
pub proof fn law_other_file_starts_at_top(
    component: DiffComponent,
    path: String,
    is_stage: bool,
    diff: FileDiff,
    hash: u64,
)
    requires
        component.current.path@ != path@,
    ensures
        component.refreshed(path, is_stage, diff, hash).selection == Selection::Single(0),
        component.refreshed(path, is_stage, diff, hash).scroll.top == 0,
{
}

/// The answer to the job that an update asked for is taken over as long as the
/// same diff is on show; an answer for anything else is not.
pub proof fn law_answer_is_for_diff_on_show(
    component: DiffComponent,
    path: String,
    is_stage: bool,
    diff: FileDiff,
    hash: u64,
    params: HashedParams,
    answer: HighlightedDiff,
)
    ensures
        ({
            let shown = DiffComponent {
                current_diff_params: Some(params),
                ..component.refreshed(path, is_stage, diff, hash)
            };
            let after = shown.notified(SyntaxNotification::Done(Some(answer)));
            &&& answer@.key == component.key_for(path@, hash, params.hash) ==> after.syntax_cache
                == Some(answer)
            &&& answer@.key != component.key_for(path@, hash, params.hash) ==> after.syntax_cache
                == shown.syntax_cache
        }),
{
}

/// Highlighting is asked for where it is switched on, there are hunks, and none is held
/// for the key. One that is remembered is taken over without a job. Otherwise a job is
/// asked for under the key, for the kind of diff and within the limits of the options,
/// and the progress starts at nothing. Nothing but highlighting and its progress
/// changes.
pub proof fn law_highlighting_is_asked_for_once(
    before: DiffComponent,
    after: DiffComponent,
    key: KeyView,
    diff_type: DiffType,
    has_hunks: bool,
    options: Options,
    cache: Seq<HighlightedDiffView>,
    cache_after: Seq<HighlightedDiffView>,
    request: Option<DiffSyntaxRequest>,
)
    requires
        DiffComponent::syntax_step(
            before,
            after,
            key,
            diff_type,
            has_hunks,
            options,
            cache,
            cache_after,
            request,
        ),
    ensures
        ({
            let held = before.syntax_cache is Some && before.syntax_cache->0@.key == key;
            let wanted = options.data.diff_syntax_highlight && has_hunks && !held;
            let remembered = exists|i: int|
                0 <= i < cache.len() && (#[trigger] cache[i]).key == key;
            &&& after == (DiffComponent {
                syntax_cache: after.syntax_cache,
                syntax_progress: after.syntax_progress,
                ..before
            })
            &&& request is Some <==> wanted && !remembered
            &&& !wanted ==> after == before && cache_after == cache
            &&& wanted ==> after.syntax_cache is Some && after.syntax_cache->0@.key == key
            &&& wanted && remembered ==> after.syntax_progress is None && cache.contains(
                after.syntax_cache->0@,
            )
            &&& wanted && !remembered ==> {
                &&& after.syntax_progress == Some(ProgressPercent { progress: 0 })
                &&& after.syntax_cache->0@.status is Loading
                &&& cache_after == cache
                &&& request->0.key@ == key
                &&& request->0.diff_type == diff_type
                &&& request->0.max_file_bytes == options.data.diff_syntax_max_file_bytes
                &&& request->0.max_file_lines == options.data.diff_syntax_max_file_lines
            }
        }),
{
    lemma_find_key(cache, key, 0);
}

/// A highlighted diff is remembered under the path, both hashes, the syntax theme and a
/// tab width of two.
pub proof fn law_key_names_diff_and_theme(
    component: DiffComponent,
    path: Seq<char>,
    diff_hash: u64,
    params_hash: u64,
)
    ensures
        component.key_for(path, diff_hash, params_hash) == (KeyView {
            path,
            diff_hash,
            diff_params_hash: params_hash,
            syntax_theme: component.theme.syntax@,
            tab_width: 2,
        }),
        component.current_diff_params is None ==> component.current_key() is None,
        component.current_diff_params matches Some(params) ==> component.current_key() == Some(
            component.key_for(component.current.path@, component.current.hash, params.hash),
        ),
{
}

} // verus!
