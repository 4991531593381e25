//! What can be done with the selected lines and the selected hunk.

use vstd::prelude::*;

use crate::components::diff::{smaller, DiffComponent};
use crate::components::diff_display::{
    all_show, build_side_by_side_lines, changed_positions, copy_text, decides, ints,
    raw_diff_lines, rows, side_by_side_copy_line, side_by_side_layout, side_by_side_positions,
    side_by_side_selected_positions,
};
use crate::components::selection::Selection;
use crate::model::{DiffLine, DiffLinePosition, DiffLineType, FileDiff, LineStats};
use crate::options::Options;
use crate::queue::{
    effect_view, Action, ActionView, Effect, EffectView, EventView, InternalEvent, NeedsUpdate,
    ResetItem,
};
use crate::string_utils::{trim_breaks, trim_line_breaks};

verus! {

/// The selected ones of the indices below `n`.
pub open spec fn selected_indices(selection: Selection, n: int) -> Seq<int>
    decreases n,
{
    if n <= 0 {
        Seq::empty()
    } else if selection.has(n - 1) {
        selected_indices(selection, n - 1).push(n - 1)
    } else {
        selected_indices(selection, n - 1)
    }
}

/// The positions of the changed ones among the selected raw lines.
pub open spec fn unified_positions(diff: FileDiff, selection: Selection) -> Seq<DiffLinePosition> {
    let raw = diff.raw_lines();
    changed_positions(selected_indices(selection, raw.len() as int), raw)
}

/// Texts put together with a line feed between them.
pub open spec fn join_lines(list: Seq<Seq<char>>) -> Seq<char>
    decreases list.len(),
{
    if list.len() == 0 {
        Seq::empty()
    } else if list.len() == 1 {
        list[0]
    } else {
        join_lines(list.drop_last()).push('\n') + list.last()
    }
}

/// The texts of the selected raw lines, without line breaks at their ends.
pub open spec fn unified_copy_lines(diff: FileDiff, selection: Selection) -> Seq<Seq<char>> {
    let raw = diff.raw_lines();
    selected_indices(selection, raw.len() as int).map_values(
        |i: int| trim_breaks(raw[i].content@),
    )
}

/// The texts of the selected display lines of the side-by-side view.
pub open spec fn side_by_side_copy_lines(diff: FileDiff, selection: Selection) -> Seq<Seq<char>> {
    let layout = side_by_side_layout(diff);
    selected_indices(selection, layout.len() as int).map_values(
        |i: int| copy_text(layout[i], diff.raw_lines()),
    )
}

/// The line that an editor is opened at for a diff line.
pub open spec fn editor_line(line: DiffLine) -> Option<u32> {
    if line.position.new_lineno is Some {
        line.position.new_lineno
    } else {
        line.position.old_lineno
    }
}

/// The line that an editor is opened at for a list of raw lines: the first new
/// line number there is, otherwise the first old one. An index without a line
/// ends the search with nothing.
pub open spec fn editor_line_of(
    raw: Seq<DiffLine>,
    indices: Seq<int>,
    old_lineno: Option<u32>,
) -> Option<u32>
    decreases indices.len(),
{
    if indices.len() == 0 {
        old_lineno
    } else if !(0 <= indices[0] < raw.len()) {
        None
    } else {
        let position = raw[indices[0]].position;
        if position.new_lineno is Some {
            position.new_lineno
        } else {
            editor_line_of(
                raw,
                indices.skip(1),
                if old_lineno is Some { old_lineno } else { position.old_lineno },
            )
        }
    }
}

/// The editor line of the first line from `i` on that has one.
pub open spec fn editor_line_from(raw: Seq<DiffLine>, i: int) -> Option<u32>
    decreases raw.len() - i,
{
    if i < 0 || i >= raw.len() {
        None
    } else if editor_line(raw[i]) is Some {
        editor_line(raw[i])
    } else {
        editor_line_from(raw, i + 1)
    }
}

/// The editor line of the last line before `i` that has one.
pub open spec fn editor_line_before(raw: Seq<DiffLine>, i: int) -> Option<u32>
    decreases i,
{
    if i <= 0 || i > raw.len() {
        None
    } else if editor_line(raw[i - 1]) is Some {
        editor_line(raw[i - 1])
    } else {
        editor_line_before(raw, i - 1)
    }
}

/// The line that an editor is opened at for raw line `i`: its own, otherwise
/// that of the next line that has one, otherwise that of the nearest one before.
pub open spec fn editor_line_near(raw: Seq<DiffLine>, i: int) -> Option<u32> {
    if 0 <= i < raw.len() && editor_line(raw[i]) is Some {
        editor_line(raw[i])
    } else if editor_line_from(raw, i + 1) is Some {
        editor_line_from(raw, i + 1)
    } else {
        editor_line_before(raw, smaller(i, raw.len() as int))
    }
}

/// The added and the deleted ones among the first `n` lines.
pub open spec fn count_changes(lines: Seq<DiffLine>, n: int) -> (nat, nat)
    decreases n,
{
    if n <= 0 {
        (0, 0)
    } else {
        let (additions, deletions) = count_changes(lines, n - 1);
        match lines[n - 1].line_type {
            DiffLineType::Add => (additions + 1, deletions),
            DiffLineType::Delete => (additions, deletions + 1),
            _ => (additions, deletions),
        }
    }
}

/// The distance of a signed step.
fn distance(step: isize) -> (distance: usize)
    ensures
        distance == if step >= 0 { step as int } else { -step },
{
    if step >= 0 {
        step as usize
    } else {
        (-(step + 1)) as usize + 1
    }
}

pub fn editor_line_for_line(line: &DiffLine) -> (found: Option<u32>)
    ensures
        found == editor_line(*line),
{
    if line.position.new_lineno.is_some() {
        line.position.new_lineno
    } else {
        line.position.old_lineno
    }
}

pub fn editor_line_for_raw_indices(raw_lines: &Vec<&DiffLine>, raw_indices: &Vec<usize>) -> (found:
    Option<u32>)
    ensures
        found == editor_line_of(raw_lines@.unref(), ints(raw_indices@), None),
        forall|k: int|
            0 <= k < raw_indices@.len() && (forall|j: int|
                0 <= j <= k ==> #[trigger] raw_indices@[j] < raw_lines@.len()) && (forall|j: int|
                0 <= j < k ==> raw_lines@[
                    #[trigger] raw_indices@[j] as int
                ].position.new_lineno is None) && raw_lines@[
                #[trigger] raw_indices@[k] as int
            ].position.new_lineno is Some ==> found
                == raw_lines@[raw_indices@[k] as int].position.new_lineno,
{
    let ghost raw = raw_lines@.unref();
    let ghost indices = ints(raw_indices@);
    let mut old_lineno: Option<u32> = None;
    assert(indices.skip(0) == indices);
    for i in 0..raw_indices.len()
        invariant
            raw == raw_lines@.unref(),
            indices == ints(raw_indices@),
            editor_line_of(raw, indices.skip(i as int), old_lineno) == editor_line_of(
                raw,
                indices,
                None,
            ),
            forall|j: int|
                0 <= j < i ==> raw_lines@[
                    #[trigger] raw_indices@[j] as int
                ].position.new_lineno is None,
    {
        let raw_index: usize = raw_indices[i];
        proof {
            assert(indices.skip(i as int)[0] == raw_index as int);
            assert(indices.skip(i as int).skip(1) == indices.skip(i + 1));
            assert(raw.len() == raw_lines@.len());
        }
        if raw_index >= raw_lines.len() {
            return None;
        }
        let position = raw_lines[raw_index].position;
        assert(raw[raw_index as int] == *raw_lines@[raw_index as int]);
        if position.new_lineno.is_some() {
            return position.new_lineno;
        }
        if old_lineno.is_none() {
            old_lineno = position.old_lineno;
        }
    }
    old_lineno
}

pub fn editor_line_near_raw_index(raw_lines: &Vec<&DiffLine>, raw_index: usize) -> (found: Option<
    u32,
>)
    ensures
        found == editor_line_near(raw_lines@.unref(), raw_index as int),
{
    let ghost raw = raw_lines@.unref();
    let len: usize = raw_lines.len();
    assert(raw.len() == len);
    if raw_index < len {
        assert(raw[raw_index as int] == *raw_lines@[raw_index as int]);
        let own = editor_line_for_line(raw_lines[raw_index]);
        if own.is_some() {
            return own;
        }
        let mut i: usize = raw_index + 1;
        while i < len
            invariant
                raw == raw_lines@.unref(),
                len == raw_lines@.len(),
                raw_index < i <= len,
                editor_line_from(raw, i as int) == editor_line_from(raw, raw_index + 1),
                editor_line(raw[raw_index as int]) is None,
            decreases len - i,
        {
            assert(raw[i as int] == *raw_lines@[i as int]);
            let found = editor_line_for_line(raw_lines[i]);
            if found.is_some() {
                return found;
            }
            i = i + 1;
        }
    }
    let before: usize = if raw_index <= len { raw_index } else { len };
    let mut i: usize = before;
    assert(editor_line_from(raw, raw_index + 1) is None);
    while i > 0
        invariant
            raw == raw_lines@.unref(),
            len == raw_lines@.len(),
            i <= before <= len,
            editor_line_before(raw, i as int) == editor_line_before(raw, before as int),
            before == smaller(raw_index as int, len as int),
            editor_line_from(raw, raw_index + 1) is None,
            raw_index < len ==> editor_line(raw[raw_index as int]) is None,
        decreases i,
    {
        assert(raw[i - 1] == *raw_lines@[i - 1]);
        let found = editor_line_for_line(raw_lines[i - 1]);
        if found.is_some() {
            return found;
        }
        i = i - 1;
    }
    None
}

/// Appends a line to a text that is put together of lines.
fn append_line(text: &mut String, first: bool, line: &str, Ghost(list): Ghost<Seq<Seq<char>>>)
    requires
        old(text)@ == join_lines(list),
        first == (list.len() == 0),
    ensures
        final(text)@ == join_lines(list.push(line@)),
{
    proof {
        assert(list.push(line@).drop_last() == list);
        assert(Seq::<char>::empty() + line@ == line@);
    }
    if !first {
        text.push('\n');
    }
    text.append(line);
}

impl DiffComponent {
    /// The positions of the changed lines that the selection stands for.
    pub open spec fn selected_positions(self) -> Seq<DiffLinePosition> {
        match self.diff {
            Some(diff) => if self.side_by_side() {
                side_by_side_positions(diff, self.selection.choice())
            } else {
                unified_positions(diff, self.selection)
            },
            None => Seq::empty(),
        }
    }

    pub fn selected_lines(&self) -> (positions: Vec<DiffLinePosition>)
        requires
            self.wf(),
        ensures
            positions@ == self.selected_positions(),
    {
        let diff = match &self.diff {
            Some(diff) => diff,
            None => return Vec::new(),
        };
        if self.side_by_side_model_active() {
            let selection = self.selection;
            let contains = |i: usize| -> (selected: bool)
                ensures
                    selected == selection.has(i as int),
                { selection.contains(i) };
            assert(decides(contains, selection.choice()));
            return side_by_side_selected_positions(diff, contains);
        }
        let lines = raw_diff_lines(diff);
        let ghost raw = diff.raw_lines();
        let mut positions: Vec<DiffLinePosition> = Vec::new();
        for i in 0..lines.len()
            invariant
                lines@.unref() == raw,
                positions@ == changed_positions(selected_indices(self.selection, i as int), raw),
        {
            let line = lines[i];
            assert(raw[i as int] == *line) by {
                assert(lines@.unref()[i as int] == *line);
            }
            proof {
                let before = selected_indices(self.selection, i as int);
                assert(before.push(i as int).drop_last() == before);
            }
            if self.selection.contains(i) && (line.line_type == DiffLineType::Add || line.line_type
                == DiffLineType::Delete) {
                positions.push(line.position);
            }
        }
        assert(lines@.len() == raw.len());
        positions
    }

    /// The text that copying the selection yields.
    pub open spec fn copied_text(self) -> Option<Seq<char>> {
        match self.diff {
            Some(diff) => Some(
                join_lines(
                    if self.side_by_side() {
                        side_by_side_copy_lines(diff, self.selection)
                    } else {
                        unified_copy_lines(diff, self.selection)
                    },
                ),
            ),
            None => None,
        }
    }

    /// Asks for the selected lines to be copied to the clipboard.
    pub fn copy_selection(&self) -> (effect: Option<Effect>)
        requires
            self.wf(),
        ensures
            effect_view(effect) == match self.copied_text() {
                Some(text) => Some(EffectView::CopyToClipboard(text)),
                None => None,
            },
    {
        let diff = match &self.diff {
            Some(diff) => diff,
            None => return None,
        };
        let mut text = String::new();
        let mut first: bool = true;
        let ghost raw = diff.raw_lines();
        if self.side_by_side_model_active() {
            let lines = build_side_by_side_lines(diff);
            let ghost layout = side_by_side_layout(*diff);
            let ghost copy = |i: int| copy_text(layout[i], raw);
            assert(selected_indices(self.selection, 0).map_values(copy) =~= Seq::<
                Seq<char>,
            >::empty());
            for i in 0..lines.len()
                invariant
                    rows(lines@) == layout,
                    all_show(lines@, raw),
                    copy == (|i: int| copy_text(layout[i], raw)),
                    text@ == join_lines(
                        selected_indices(self.selection, i as int).map_values(copy),
                    ),
                    first == (selected_indices(self.selection, i as int).len() == 0),
            {
                if self.selection.contains(i) {
                    let line = &lines[i];
                    let copied = side_by_side_copy_line(line);
                    let ghost before = selected_indices(self.selection, i as int);
                    proof {
                        assert(layout[i as int] == line.row());
                        assert(lines@[i as int].shows(raw));
                        assert(before.push(i as int).map_values(copy) =~= before.map_values(
                            copy,
                        ).push(copied@));
                    }
                    append_line(&mut text, first, copied.as_str(), Ghost(before.map_values(copy)));
                    first = false;
                }
            }
            assert(rows(lines@).len() == lines@.len());
        } else {
            let lines = raw_diff_lines(diff);
            let ghost copy = |i: int| trim_breaks(raw[i].content@);
            assert(selected_indices(self.selection, 0).map_values(copy) =~= Seq::<
                Seq<char>,
            >::empty());
            for i in 0..lines.len()
                invariant
                    lines@.unref() == raw,
                    copy == (|i: int| trim_breaks(raw[i].content@)),
                    text@ == join_lines(
                        selected_indices(self.selection, i as int).map_values(copy),
                    ),
                    first == (selected_indices(self.selection, i as int).len() == 0),
            {
                if self.selection.contains(i) {
                    let line = lines[i];
                    let copied = trim_line_breaks(line.content.as_str());
                    let ghost before = selected_indices(self.selection, i as int);
                    proof {
                        assert(lines@.unref()[i as int] == *line);
                        assert(before.push(i as int).map_values(copy) =~= before.map_values(
                            copy,
                        ).push(copied@));
                    }
                    append_line(&mut text, first, copied, Ghost(before.map_values(copy)));
                    first = false;
                }
            }
            assert(lines@.len() == raw.len());
        }
        Some(Effect::CopyToClipboard(text))
    }

    /// The line that an editor is opened at for the line that the selection was
    /// last moved to.
    pub open spec fn editor_target(self) -> Option<u32> {
        match self.diff {
            Some(diff) => {
                let raw = diff.raw_lines();
                let line = self.selection.end();
                if self.side_by_side() {
                    let layout = side_by_side_layout(diff);
                    if line < layout.len() {
                        let indices = layout[line].raw_indices();
                        let own = editor_line_of(raw, indices, None);
                        if own is Some {
                            own
                        } else if indices.len() > 0 {
                            editor_line_near(raw, indices[0])
                        } else {
                            None
                        }
                    } else {
                        None
                    }
                } else {
                    editor_line_near(raw, line)
                }
            },
            None => None,
        }
    }

    pub fn selected_editor_line(&self) -> (line: Option<u32>)
        requires
            self.wf(),
        ensures
            line == self.editor_target(),
    {
        let diff = match &self.diff {
            Some(diff) => diff,
            None => return None,
        };
        let raw_lines = raw_diff_lines(diff);
        let selected: usize = self.selection.get_end();
        if self.side_by_side_model_active() {
            let display_lines = build_side_by_side_lines(diff);
            let ghost layout = side_by_side_layout(*diff);
            assert(rows(display_lines@).len() == display_lines@.len());
            if selected >= display_lines.len() {
                return None;
            }
            let display_line = &display_lines[selected];
            let raw_indices = display_line.raw_diff_indices();
            proof {
                assert(layout[selected as int] == display_line.row());
                assert(display_lines@[selected as int].shows(diff.raw_lines()));
                assert(ints(raw_indices@) =~= layout[selected as int].raw_indices());
            }
            let own = editor_line_for_raw_indices(&raw_lines, &raw_indices);
            if own.is_some() {
                return own;
            }
            if raw_indices.is_empty() {
                return None;
            }
            return editor_line_near_raw_index(&raw_lines, raw_indices[0]);
        }
        editor_line_near_raw_index(&raw_lines, selected)
    }

    /// The hunk that a step by `direction` hunks goes to, without leaving the
    /// diff; the first one where none is selected.
    pub open spec fn hunk_move_target(self, direction: int) -> Option<usize> {
        match self.diff {
            Some(diff) => if diff.hunks@.len() == 0 {
                None
            } else {
                match self.selected_hunk {
                    Some(i) => Some(
                        smaller(
                            diff.hunks@.len() - 1,
                            if i + direction >= 0 { i + direction } else { 0 },
                        ) as usize,
                    ),
                    None => Some(0),
                }
            },
            None => None,
        }
    }

    pub fn calc_hunk_move_target(&self, direction: isize) -> (target: Option<usize>)
        ensures
            target == self.hunk_move_target(direction as int),
    {
        let diff = match &self.diff {
            Some(diff) => diff,
            None => return None,
        };
        if diff.hunks.is_empty() {
            return None;
        }
        let max: usize = diff.hunks.len() - 1;
        let target_index: usize = match self.selected_hunk {
            Some(i) => {
                let target: usize = if direction >= 0 {
                    i.saturating_add(distance(direction))
                } else {
                    i.saturating_sub(distance(direction))
                };
                if max <= target { max } else { target }
            },
            None => 0,
        };
        Some(target_index)
    }

    /// The component after a step to another hunk: the hunk and its first line
    /// are selected, if the step leads to another hunk that has display lines.
    pub open spec fn moved_to_hunk(self, direction: int) -> DiffComponent {
        match self.hunk_step(direction) {
            Some((hunk, start, _)) => DiffComponent {
                selection: Selection::Single(start as usize),
                selected_hunk: Some(hunk),
                ..self
            },
            None => self,
        }
    }

    /// The hunk that a step leads to and its display lines, if it is another
    /// hunk that has some.
    pub open spec fn hunk_step(self, direction: int) -> Option<(usize, int, int)> {
        let target = self.hunk_move_target(direction);
        match (self.diff, target) {
            (Some(diff), Some(hunk)) => if self.selected_hunk == target {
                None
            } else {
                match self.hunk_range(diff, hunk as int) {
                    Some((start, end)) => Some((hunk, start, end)),
                    None => None,
                }
            },
            _ => None,
        }
    }

    /// Where the view is to be scrolled after a step to another hunk.
    pub open spec fn hunk_move_effect(self, direction: int) -> Option<EffectView> {
        match self.hunk_step(direction) {
            Some((_, start, end)) => Some(
                EffectView::ScrollToVisible { height: self.current_size.1 as int, start, end },
            ),
            None => None,
        }
    }

    /// Steps to another hunk.
    pub fn diff_hunk_move_up_down(&mut self, direction: isize) -> (effect: Option<Effect>)
        requires
            old(self).wf(),
        ensures
            final(self).wf(),
            *final(self) == old(self).moved_to_hunk(direction as int),
            effect_view(effect) == old(self).hunk_move_effect(direction as int),
    {
        let target = self.calc_hunk_move_target(direction);
        let diff = match &self.diff {
            Some(diff) => diff,
            None => return None,
        };
        let hunk_index: usize = match target {
            Some(hunk_index) => hunk_index,
            None => return None,
        };
        if let Some(selected) = self.selected_hunk {
            if selected == hunk_index {
                return None;
            }
        }
        match self.hunk_range_for_mode(diff, hunk_index) {
            Some((line_index, hunk_end)) => {
                self.selection = Selection::Single(line_index);
                self.selected_hunk = Some(hunk_index);
                Some(
                    Effect::ScrollToVisible {
                        height: self.current_size.1 as usize,
                        start: line_index,
                        end: hunk_end,
                    },
                )
            },
            None => None,
        }
    }

    /// The counts of added and deleted lines of a diff that has hunks.
    pub open spec fn stats(self) -> Option<(nat, nat)> {
        match self.diff {
            Some(diff) => if diff.hunks@.len() == 0 {
                None
            } else {
                Some(count_changes(diff.raw_lines(), diff.raw_lines().len() as int))
            },
            None => None,
        }
    }

    pub fn line_stats(&self) -> (stats: Option<LineStats>)
        requires
            self.wf(),
        ensures
            match stats {
                Some(stats) => self.stats() == Some(
                    (stats.additions as nat, stats.deletions as nat),
                ),
                None => self.stats() is None,
            },
    {
        let diff = match &self.diff {
            Some(diff) => diff,
            None => return None,
        };
        if diff.hunks.is_empty() {
            return None;
        }
        let lines = raw_diff_lines(diff);
        let ghost raw = diff.raw_lines();
        let mut stats = LineStats { additions: 0, deletions: 0 };
        for i in 0..lines.len()
            invariant
                lines@.unref() == raw,
                count_changes(raw, i as int) == (stats.additions as nat, stats.deletions as nat),
                stats.additions + stats.deletions <= i,
        {
            assert(lines@.unref()[i as int] == *lines@[i as int]);
            match lines[i].line_type {
                DiffLineType::Add => {
                    stats.additions = stats.additions + 1;
                },
                DiffLineType::Delete => {
                    stats.deletions = stats.deletions + 1;
                },
                _ => {},
            }
        }
        assert(lines@.len() == raw.len());
        Some(stats)
    }
}

/// What the events of a list say.
pub open spec fn event_views(events: Seq<InternalEvent>) -> Seq<EventView> {
    events.map_values(|event: InternalEvent| event@)
}

/// The event that a failure is shown with.
pub open spec fn failure(context: Seq<char>, error: Seq<char>) -> EventView {
    EventView::ShowErrorMsg { context, error }
}

/// The event that has everything drawn anew.
pub open spec fn full_update() -> EventView {
    EventView::Update(NeedsUpdate::everything())
}

impl DiffComponent {
    /// The hash of the selected hunk's header.
    pub open spec fn selected_header(self) -> Option<u64> {
        match (self.diff, self.selected_hunk) {
            (Some(diff), Some(hunk)) => Some(diff.hunks@[hunk as int].header_hash),
            _ => None,
        }
    }

    /// What taking the selected hunk out of the index asks for.
    pub open spec fn unstaging(self, options: Options) -> Option<EffectView> {
        match self.selected_header() {
            Some(hash) => Some(
                EffectView::UnstageHunk {
                    path: self.current.path@,
                    hash,
                    options: options.data.diff,
                },
            ),
            None => None,
        }
    }

    /// What putting the selected hunk into the index asks for: a new file goes
    /// there as a whole.
    pub open spec fn staging(self, options: Options) -> Option<EffectView> {
        match self.selected_header() {
            Some(hash) => Some(
                if self.diff->0.untracked {
                    EffectView::StageFile { path: self.current.path@ }
                } else {
                    EffectView::StageHunk {
                        path: self.current.path@,
                        hash,
                        options: options.data.diff,
                    }
                },
            ),
            None => None,
        }
    }

    /// What moving the selected hunk into the index, or out of it, asks for.
    pub open spec fn hunk_staging(self, options: Options) -> Option<EffectView> {
        if self.current.is_stage { self.unstaging(options) } else { self.staging(options) }
    }

    /// Asks for the selected hunk to be taken out of the index.
    pub fn unstage_hunk(&self, options: &Options) -> (effect: Option<Effect>)
        requires
            self.wf(),
        ensures
            effect_view(effect) == self.unstaging(*options),
            self.diff is None || self.selected_hunk is None ==> effect is None,
            self.diff is Some && self.selected_hunk is Some ==> effect_view(effect) == Some(
                EffectView::UnstageHunk {
                    path: self.current.path@,
                    hash: self.diff->0.hunks@[self.selected_hunk->0 as int].header_hash,
                    options: options.data.diff,
                },
            ),
    {
        match (&self.diff, self.selected_hunk) {
            (Some(diff), Some(hunk)) => Some(
                Effect::UnstageHunk {
                    path: self.current.path.clone(),
                    hash: diff.hunks[hunk].header_hash,
                    options: options.diff_options(),
                },
            ),
            _ => None,
        }
    }

    /// Asks for the selected hunk to be put into the index.
    pub fn stage_hunk(&self, options: &Options) -> (effect: Option<Effect>)
        requires
            self.wf(),
        ensures
            effect_view(effect) == self.staging(*options),
            self.diff is None || self.selected_hunk is None ==> effect is None,
            self.diff is Some && self.selected_hunk is Some && self.diff->0.untracked
                ==> effect_view(effect) == Some(
                EffectView::StageFile { path: self.current.path@ },
            ),
            self.diff is Some && self.selected_hunk is Some && !self.diff->0.untracked
                ==> effect_view(effect) == Some(
                EffectView::StageHunk {
                    path: self.current.path@,
                    hash: self.diff->0.hunks@[self.selected_hunk->0 as int].header_hash,
                    options: options.data.diff,
                },
            ),
    {
        match (&self.diff, self.selected_hunk) {
            (Some(diff), Some(hunk)) => if diff.untracked {
                Some(Effect::StageFile { path: self.current.path.clone() })
            } else {
                Some(
                    Effect::StageHunk {
                        path: self.current.path.clone(),
                        hash: diff.hunks[hunk].header_hash,
                        options: options.diff_options(),
                    },
                )
            },
            _ => None,
        }
    }

    /// Asks for the selected hunk to be moved into the index, or out of it.
    pub fn stage_unstage_hunk(&self, options: &Options) -> (effect: Option<Effect>)
        requires
            self.wf(),
        ensures
            effect_view(effect) == self.hunk_staging(*options),
    {
        if self.current.is_stage {
            self.unstage_hunk(options)
        } else {
            self.stage_hunk(options)
        }
    }

    /// The event that has everything drawn anew.
    pub fn queue_update() -> (event: InternalEvent)
        ensures
            event@ == full_update(),
            event == InternalEvent::Update(NeedsUpdate { all: true, diff: false, commands: false }),
    {
        InternalEvent::Update(NeedsUpdate { all: true, diff: false, commands: false })
    }

    /// The event that follows once the repository moved a hunk, or failed to.
    pub fn hunk_staged(result: Result<(), String>) -> (event: InternalEvent)
        ensures
            event@ == match result {
                Ok(_) => full_update(),
                Err(error) => failure("hunk error:"@, error@),
            },
            result is Ok ==> event == InternalEvent::Update(
                NeedsUpdate { all: true, diff: false, commands: false },
            ),
            result matches Err(error) ==> event@ == (EventView::ShowErrorMsg {
                context: "hunk error:"@,
                error: error@,
            }),
    {
        match result {
            Ok(_) => Self::queue_update(),
            Err(error) => InternalEvent::ShowErrorMsg { context: "hunk error:".to_owned(), error },
        }
    }

    /// What throwing the selected hunk's changes away asks for.
    pub open spec fn hunk_reset(self) -> Option<EffectView> {
        match self.selected_header() {
            Some(hash) => Some(
                EffectView::Push(
                    EventView::ConfirmAction(
                        ActionView::ResetHunk { path: self.current.path@, hash },
                    ),
                ),
            ),
            None => None,
        }
    }

    /// Asks the user whether the selected hunk's changes are to be thrown away.
    pub fn reset_hunk(&self) -> (effect: Option<Effect>)
        requires
            self.wf(),
        ensures
            effect_view(effect) == self.hunk_reset(),
            self.diff is None || self.selected_hunk is None ==> effect is None,
            self.diff is Some && self.selected_hunk is Some ==> effect_view(effect) == Some(
                EffectView::Push(
                    EventView::ConfirmAction(
                        ActionView::ResetHunk {
                            path: self.current.path@,
                            hash: self.diff->0.hunks@[self.selected_hunk->0 as int].header_hash,
                        },
                    ),
                ),
            ),
    {
        match (&self.diff, self.selected_hunk) {
            (Some(diff), Some(hunk)) => Some(
                Effect::Push(
                    InternalEvent::ConfirmAction(
                        Action::ResetHunk(
                            self.current.path.clone(),
                            diff.hunks[hunk].header_hash,
                        ),
                    ),
                ),
            ),
            _ => None,
        }
    }

    /// What throwing the selected lines' changes away asks for.
    pub open spec fn lines_reset(self) -> EffectView {
        EffectView::Push(
            EventView::ConfirmAction(
                ActionView::ResetLines {
                    path: self.current.path@,
                    lines: self.selected_positions(),
                },
            ),
        )
    }

    /// Asks the user whether the selected lines' changes are to be thrown away.
    pub fn reset_lines(&self) -> (effect: Effect)
        requires
            self.wf(),
        ensures
            effect@ == self.lines_reset(),
            effect@ == EffectView::Push(
                EventView::ConfirmAction(
                    ActionView::ResetLines {
                        path: self.current.path@,
                        lines: self.selected_positions(),
                    },
                ),
            ),
    {
        Effect::Push(
            InternalEvent::ConfirmAction(
                Action::ResetLines(self.current.path.clone(), self.selected_lines()),
            ),
        )
    }

    /// What throwing a new file away asks for.
    pub open spec fn untracked_reset(self) -> EffectView {
        EffectView::Push(
            EventView::ConfirmAction(ActionView::Reset { path: self.current.path@ }),
        )
    }

    /// Asks the user whether a new file is to be thrown away.
    pub fn reset_untracked(&self) -> (effect: Effect)
        ensures
            effect@ == self.untracked_reset(),
            effect@ == EffectView::Push(
                EventView::ConfirmAction(ActionView::Reset { path: self.current.path@ }),
            ),
    {
        Effect::Push(
            InternalEvent::ConfirmAction(
                Action::Reset(ResetItem { path: self.current.path.clone() }),
            ),
        )
    }

    /// What moving the selected lines into the index, or out of it, asks for;
    /// the lines of a new file cannot be moved one by one.
    pub open spec fn lines_staging(self) -> Option<EffectView> {
        if self.diff is Some && !self.diff->0.untracked {
            Some(
                EffectView::StageLines {
                    path: self.current.path@,
                    is_stage: self.current.is_stage,
                    lines: self.selected_positions(),
                },
            )
        } else {
            None
        }
    }

    /// Asks for the selected lines to be moved into the index, or out of it.
    pub fn stage_lines(&self) -> (effect: Option<Effect>)
        requires
            self.wf(),
        ensures
            effect_view(effect) == self.lines_staging(),
            self.diff is None || self.diff->0.untracked ==> effect is None,
            self.diff is Some && !self.diff->0.untracked ==> effect_view(effect) == Some(
                EffectView::StageLines {
                    path: self.current.path@,
                    is_stage: self.current.is_stage,
                    lines: self.selected_positions(),
                },
            ),
    {
        match &self.diff {
            Some(diff) => if diff.untracked {
                None
            } else {
                Some(
                    Effect::StageLines {
                        path: self.current.path.clone(),
                        is_stage: self.is_stage(),
                        lines: self.selected_lines(),
                    },
                )
            },
            None => None,
        }
    }

    /// The events that follow once the repository moved lines, or failed to:
    /// either way everything is drawn anew.
    pub fn lines_staged(result: Result<(), String>) -> (events: Vec<InternalEvent>)
        ensures
            event_views(events@) == match result {
                Ok(_) => seq![full_update()],
                Err(error) => seq![failure("(un)stage lines:"@, error@), full_update()],
            },
            events@.len() == if result is Ok { 1int } else { 2 },
            events@.last() == InternalEvent::Update(
                NeedsUpdate { all: true, diff: false, commands: false },
            ),
            result matches Err(error) ==> events@[0]@ == (EventView::ShowErrorMsg {
                context: "(un)stage lines:"@,
                error: error@,
            }),
    {
        let mut events: Vec<InternalEvent> = Vec::new();
        if let Err(error) = result {
            events.push(
                InternalEvent::ShowErrorMsg { context: "(un)stage lines:".to_owned(), error },
            );
        }
        events.push(Self::queue_update());
        assert(event_views(events@) =~= match result {
            Ok(_) => seq![full_update()],
            Err(error) => seq![failure("(un)stage lines:"@, error@), full_update()],
        });
        events
    }

    /// The event that follows once the clipboard took a text, or failed to.
    pub fn text_copied(result: Result<(), String>) -> (event: Option<InternalEvent>)
        ensures
            match result {
                Ok(_) => event is None,
                Err(error) => event is Some && event->0@ == failure(
                    "copy to clipboard error:"@,
                    error@,
                ),
            },
            result matches Err(error) ==> event is Some && event->0@ == (EventView::ShowErrorMsg {
                context: "copy to clipboard error:"@,
                error: error@,
            }),
    {
        match result {
            Ok(_) => None,
            Err(error) => Some(
                InternalEvent::ShowErrorMsg {
                    context: "copy to clipboard error:".to_owned(),
                    error,
                },
            ),
        }
    }

    /// Changes the number of unchanged lines around a change, and asks for the
    /// diff and the command bar to be drawn anew.
    pub fn change_context_lines(options: &mut Options, increase: bool) -> (effect: Effect)
        ensures
            *final(options) == old(options).context_changed(increase),
            effect@ == EffectView::Push(EventView::Update(NeedsUpdate::diff_and_commands())),
    {
        options.diff_context_change(increase);
        Effect::Push(
            InternalEvent::Update(NeedsUpdate { all: false, diff: true, commands: true }),
        )
    }
}

} // verus!
