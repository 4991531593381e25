//! The diff component: the diff on show, what is selected in it, and what
//! follows from that.

use vstd::prelude::*;

use crate::components::diff_display::{
    build_side_by_side_lines, hunk_display_range, law_hunk_is_contiguous, law_layout_not_longer,
    lemma_layout_grows, range_option, rows, side_by_side_hunk_range, side_by_side_layout,
    DiffViewMode, MIN_SIDE_BY_SIDE_WIDTH,
};
use crate::components::selection::{Direction, Selection};
use crate::model::{
    lemma_lines_of_hunks_grow, lemma_one_hunk_per_line, DiffParams, FileDiff, ProgressPercent,
};
use crate::queue::{effect_view, Effect, EffectView};
use crate::ui::diff_syntax::HighlightedDiff;
use crate::ui::style::Theme;

verus! {

/// The file on show.
#[derive(Debug)]
pub struct Current {
    pub path: String,
    pub is_stage: bool,
    pub hash: u64,
}

/// The parameters of a diff and what they hash to.
#[derive(Debug)]
pub struct HashedParams {
    pub params: DiffParams,
    pub hash: u64,
}

/// How far the view is scrolled down and to the right.
#[derive(Clone, Copy, PartialEq, Eq, Debug, Structural)]
pub struct ScrollOffsets {
    pub top: usize,
    pub right: usize,
}

/// How far a move goes.
#[derive(Clone, Copy, PartialEq, Eq, Debug, Structural)]
pub enum ScrollType {
    Up,
    Down,
    Home,
    End,
    PageUp,
    PageDown,
}

/// The diff on show and the state of its view.
#[derive(Debug)]
pub struct DiffComponent {
    pub diff: Option<FileDiff>,
    pub longest_line: usize,
    pub pending: bool,
    pub selection: Selection,
    pub selected_hunk: Option<usize>,
    /// The columns and lines of the view.
    pub current_size: (u16, u16),
    pub focused: bool,
    pub current: Current,
    pub scroll: ScrollOffsets,
    pub theme: Theme,
    pub is_immutable: bool,
    pub view_mode: DiffViewMode,
    /// Takes the place of `view_mode` while the view is drawn.
    pub render_view_mode_override: Option<DiffViewMode>,
    pub syntax_cache: Option<HighlightedDiff>,
    pub syntax_progress: Option<ProgressPercent>,
    pub current_diff_params: Option<HashedParams>,
}

/// `a - b`, but not below zero.
pub open spec fn monus(a: int, b: int) -> int {
    if a >= b { a - b } else { 0 }
}

pub open spec fn smaller(a: int, b: int) -> int {
    if a <= b { a } else { b }
}

/// The hunk that raw line `line` stands in.
pub open spec fn unified_hunk(diff: FileDiff, line: int) -> Option<usize> {
    if 0 <= line < diff.raw_lines().len() {
        Some((choose|h: int| diff.in_hunk(line, h)) as usize)
    } else {
        None
    }
}

/// The hunk that a display line of the side-by-side view belongs to.
pub open spec fn side_by_side_hunk(diff: FileDiff, line: int) -> Option<usize> {
    let layout = side_by_side_layout(diff);
    if 0 <= line < layout.len() {
        match layout[line].hunk() {
            Some(h) => Some(h as usize),
            None => None,
        }
    } else {
        None
    }
}

/// The raw lines of a hunk, from the first to the one past the last.
pub open spec fn unified_range(diff: FileDiff, hunk: int) -> Option<(int, int)> {
    if 0 <= hunk < diff.hunks@.len() {
        Some((diff.hunk_start(hunk), diff.hunk_start(hunk + 1)))
    } else {
        None
    }
}

impl DiffComponent {
    /// The line count of the diff fits the machine, the selected hunk is one of
    /// the diff's, and the selection can grow by one.
    pub open spec fn wf(self) -> bool {
        &&& self.diff matches Some(diff) ==> {
            &&& diff.fits()
            &&& self.selected_hunk matches Some(h) ==> h < diff.hunks@.len()
        }
        &&& self.selection.end() < usize::MAX
    }

    pub open spec fn shown_mode(self) -> DiffViewMode {
        match self.render_view_mode_override {
            Some(mode) => mode,
            None => self.view_mode,
        }
    }

    /// Display lines are counted as in the side-by-side view.
    pub open spec fn side_by_side(self) -> bool {
        self.shown_mode() == DiffViewMode::SideBySide
    }

    /// The diff is also drawn side by side: there is room for it.
    pub open spec fn drawn_side_by_side(self) -> bool {
        self.side_by_side() && self.current_size.0 >= MIN_SIDE_BY_SIDE_WIDTH
    }

    /// The number of display lines.
    pub open spec fn line_total(self) -> int {
        match self.diff {
            Some(diff) => if self.side_by_side() {
                side_by_side_layout(diff).len() as int
            } else {
                diff.lines as int
            },
            None => 0,
        }
    }

    /// The columns of one side of the side-by-side view.
    pub open spec fn cell_width(self) -> int {
        monus(self.current_size.0 as int, 2) / 2
    }

    /// The columns that a line can take in the view.
    pub open spec fn visible_columns(self) -> int {
        if self.drawn_side_by_side() { self.cell_width() } else { self.current_size.0 as int }
    }

    /// The columns of the longest line that do not fit into the view.
    pub open spec fn hidden_columns(self) -> int {
        monus(self.longest_line as int, self.visible_columns())
    }

    /// The hunk that a display line belongs to.
    pub open spec fn hunk_at(self, diff: FileDiff, line: int) -> Option<usize> {
        if self.side_by_side() { side_by_side_hunk(diff, line) } else { unified_hunk(diff, line) }
    }

    /// The display lines of a hunk, from the first to the one past the last.
    pub open spec fn hunk_range(self, diff: FileDiff, hunk: int) -> Option<(int, int)> {
        if self.side_by_side() {
            hunk_display_range(diff, hunk)
        } else {
            unified_range(diff, hunk)
        }
    }

    /// The component after a line was selected: the line itself, or the last
    /// one if there are not so many.
    pub open spec fn selected(self, line: int) -> DiffComponent {
        match self.diff {
            Some(diff) => {
                let line = smaller(monus(self.line_total(), 1), line);
                DiffComponent {
                    selection: Selection::Single(line as usize),
                    selected_hunk: self.hunk_at(diff, line),
                    ..self
                }
            },
            None => self,
        }
    }

    /// The line that a move goes to.
    pub open spec fn move_target(self, move_type: ScrollType) -> int {
        let page = monus(self.current_size.1 as int, 1);
        match move_type {
            ScrollType::Down => self.selection.bottom() + 1,
            ScrollType::Up => monus(self.selection.top(), 1),
            ScrollType::Home => 0,
            ScrollType::End => monus(
                match self.diff {
                    Some(diff) => diff.lines as int,
                    None => 0,
                },
                1,
            ),
            ScrollType::PageDown => self.selection.bottom() + page,
            ScrollType::PageUp => monus(self.selection.top(), page),
        }
    }

    pub fn new(theme: Theme, is_immutable: bool) -> (component: Self)
        ensures
            component.wf(),
            component == (DiffComponent {
                diff: None,
                longest_line: 0,
                pending: false,
                selection: Selection::Single(0),
                selected_hunk: None,
                current_size: (0, 0),
                focused: false,
                current: component.current,
                scroll: ScrollOffsets { top: 0, right: 0 },
                theme,
                is_immutable,
                view_mode: DiffViewMode::Unified,
                render_view_mode_override: None,
                syntax_cache: None,
                syntax_progress: None,
                current_diff_params: None,
            }),
            component.current.is_empty(),
            component.current.path@.len() == 0,
            !component.current.is_stage,
            component.current.hash == 0,
    {
        DiffComponent {
            diff: None,
            longest_line: 0,
            pending: false,
            selection: Selection::Single(0),
            selected_hunk: None,
            current_size: (0, 0),
            focused: false,
            current: Current::default(),
            scroll: ScrollOffsets { top: 0, right: 0 },
            theme,
            is_immutable,
            view_mode: DiffViewMode::Unified,
            render_view_mode_override: None,
            syntax_cache: None,
            syntax_progress: None,
            current_diff_params: None,
        }
    }

    pub fn can_scroll(&self) -> (can: bool)
        requires
            self.wf(),
        ensures
            can == (self.line_total() > 1),
    {
        self.lines_count() > 1
    }

    /// The path on show, and whether it is shown as staged.
    pub fn current(&self) -> (current: (String, bool))
        ensures
            current == (self.current.path, self.current.is_stage),
    {
        (self.current.path.clone(), self.current.is_stage)
    }

    pub fn can_edit_file(&self) -> (can: bool)
        ensures
            can == (self.current.path@.len() > 0),
    {
        !self.current.path.as_str().is_empty()
    }

    pub fn is_stage(&self) -> (is_stage: bool)
        ensures
            is_stage == self.current.is_stage,
    {
        self.current.is_stage
    }

    pub fn focused(&self) -> (focused: bool)
        ensures
            focused == self.focused,
    {
        self.focused
    }

    pub fn focus(&mut self, focus: bool)
        ensures
            *final(self) == (DiffComponent { focused: focus, ..*old(self) }),
    {
        self.focused = focus;
    }

    /// Forgets the diff on show. The caller cancels the highlighting job.
    pub fn clear(&mut self, pending: bool)
        ensures
            final(self).wf(),
            *final(self) == (DiffComponent {
                current: final(self).current,
                diff: None,
                longest_line: 0,
                scroll: ScrollOffsets { top: 0, right: 0 },
                selection: Selection::Single(0),
                selected_hunk: None,
                pending,
                syntax_cache: None,
                syntax_progress: None,
                current_diff_params: None,
                ..*old(self)
            }),
            final(self).current.is_empty(),
            final(self).current.path@.len() == 0,
            !final(self).current.is_stage,
            final(self).current.hash == 0,
    {
        self.current = Current::default();
        self.diff = None;
        self.longest_line = 0;
        self.scroll = ScrollOffsets { top: 0, right: 0 };
        self.selection = Selection::Single(0);
        self.selected_hunk = None;
        self.pending = pending;
        self.syntax_cache = None;
        self.syntax_progress = None;
        self.current_diff_params = None;
    }

    pub fn effective_view_mode(&self) -> (mode: DiffViewMode)
        ensures
            mode == self.shown_mode(),
    {
        match self.render_view_mode_override {
            Some(mode) => mode,
            None => self.view_mode,
        }
    }

    pub fn side_by_side_model_active(&self) -> (active: bool)
        ensures
            active == self.side_by_side(),
    {
        self.effective_view_mode() == DiffViewMode::SideBySide
    }

    pub fn side_by_side_render_active(&self) -> (active: bool)
        ensures
            active == self.drawn_side_by_side(),
    {
        self.effective_view_mode() == DiffViewMode::SideBySide && self.current_size.0
            >= MIN_SIDE_BY_SIDE_WIDTH
    }

    pub fn side_cell_width(&self) -> (width: u16)
        ensures
            width == self.cell_width(),
    {
        let content_width: u16 = self.current_size.0.saturating_sub(2);
        content_width / 2
    }

    /// The number of display lines.
    pub fn lines_count(&self) -> (count: usize)
        requires
            self.wf(),
        ensures
            count == self.line_total(),
    {
        match &self.diff {
            Some(diff) => if self.side_by_side_model_active() {
                let lines = build_side_by_side_lines(diff);
                assert(rows(lines@).len() == lines@.len());
                lines.len()
            } else {
                diff.lines
            },
            None => 0,
        }
    }

    /// How far the view can be scrolled to the right.
    pub fn max_scroll_right(&self) -> (columns: usize)
        ensures
            columns == self.hidden_columns(),
    {
        let visible: u16 = if self.side_by_side_render_active() {
            self.side_cell_width()
        } else {
            self.current_size.0
        };
        self.longest_line.saturating_sub(visible as usize)
    }

    /// The hunk that raw line `line_selected` stands in.
    pub fn find_selected_hunk(diff: &FileDiff, line_selected: usize) -> (hunk: Option<usize>)
        requires
            diff.fits(),
        ensures
            hunk == unified_hunk(*diff, line_selected as int),
            hunk matches Some(h) ==> diff.in_hunk(line_selected as int, h as int),
    {
        let mut line_cursor: usize = 0;
        for i in 0..diff.hunks.len()
            invariant
                diff.fits(),
                line_cursor == diff.hunk_start(i as int),
                line_cursor <= line_selected,
        {
            let hunk_len: usize = diff.hunks[i].lines.len();
            proof {
                lemma_lines_of_hunks_grow(diff.hunks@, i + 1, diff.hunks@.len() as int);
            }
            let hunk_max: usize = line_cursor + hunk_len;
            if line_selected < hunk_max {
                proof {
                    let h = choose|h: int| diff.in_hunk(line_selected as int, h);
                    assert(diff.in_hunk(line_selected as int, i as int));
                    lemma_one_hunk_per_line(*diff, line_selected as int, h, i as int);
                }
                return Some(i);
            }
            line_cursor = hunk_max;
        }
        None
    }

    /// The hunk that a display line belongs to.
    pub fn find_selected_hunk_for_mode(&self, diff: &FileDiff, line_selected: usize) -> (hunk:
        Option<usize>)
        requires
            diff.fits(),
        ensures
            hunk == self.hunk_at(*diff, line_selected as int),
            hunk matches Some(h) ==> h < diff.hunks@.len(),
    {
        if self.side_by_side_model_active() {
            let lines = build_side_by_side_lines(diff);
            let ghost layout = side_by_side_layout(*diff);
            assert(rows(lines@).len() == lines@.len());
            if line_selected < lines.len() {
                let hunk = lines[line_selected].hunk_index();
                proof {
                    assert(layout[line_selected as int] == lines@[line_selected as int].row());
                    if let Some(h) = hunk {
                        law_hunk_is_contiguous(*diff, h as int, line_selected as int);
                    }
                }
                hunk
            } else {
                None
            }
        } else {
            Self::find_selected_hunk(diff, line_selected)
        }
    }

    /// Selects a display line, or the last one if there are not so many.
    pub fn update_selection(&mut self, new_start: usize)
        requires
            old(self).wf(),
        ensures
            final(self).wf(),
            *final(self) == old(self).selected(new_start as int),
    {
        if let Some(diff) = &self.diff {
            let max: usize = self.lines_count().saturating_sub(1);
            let line: usize = if new_start <= max { new_start } else { max };
            let hunk = self.find_selected_hunk_for_mode(diff, line);
            self.selection = Selection::Single(line);
            self.selected_hunk = hunk;
        }
    }

    /// Moves the selection.
    pub fn move_selection(&mut self, move_type: ScrollType)
        requires
            old(self).wf(),
        ensures
            final(self).wf(),
            *final(self) == old(self).selected(old(self).move_target(move_type)),
    {
        if let Some(diff) = &self.diff {
            let max: usize = diff.lines.saturating_sub(1);
            let page: usize = self.current_size.1.saturating_sub(1) as usize;
            let new_start: usize = match move_type {
                ScrollType::Down => self.selection.get_bottom().saturating_add(1),
                ScrollType::Up => self.selection.get_top().saturating_sub(1),
                ScrollType::Home => 0,
                ScrollType::End => max,
                ScrollType::PageDown => self.selection.get_bottom().saturating_add(page),
                ScrollType::PageUp => self.selection.get_top().saturating_sub(page),
            };
            proof {
                law_layout_not_longer(*diff);
            }
            self.update_selection(new_start);
        }
    }

    /// Moves the end of the selection by one line.
    pub fn modify_selection(&mut self, direction: Direction)
        requires
            old(self).wf(),
        ensures
            final(self).wf(),
            *final(self) == old(self).with_modified_selection(direction),
    {
        if self.diff.is_some() {
            let max: usize = self.lines_count().saturating_sub(1);
            self.selection.modify(direction, max);
        }
    }

    /// The component after the end of the selection was moved by one line.
    pub open spec fn with_modified_selection(self, direction: Direction) -> DiffComponent {
        if self.diff is Some {
            DiffComponent {
                selection: self.selection.modified(direction, monus(self.line_total(), 1)),
                ..self
            }
        } else {
            self
        }
    }

    /// The display lines of a hunk, from the first to the one past the last.
    pub fn hunk_range_for_mode(&self, diff: &FileDiff, hunk_index: usize) -> (range: Option<
        (usize, usize),
    >)
        requires
            diff.fits(),
        ensures
            range_option(range) == self.hunk_range(*diff, hunk_index as int),
            range matches Some((start, _)) ==> start < usize::MAX && hunk_index < diff.hunks@.len(),
    {
        if self.side_by_side_model_active() {
            proof {
                law_layout_not_longer(*diff);
                if hunk_index < diff.hunks@.len() {
                    lemma_layout_grows(diff.hunks@, hunk_index as int, diff.hunks@.len() as int);
                }
            }
            side_by_side_hunk_range(diff, hunk_index)
        } else {
            if hunk_index >= diff.hunks.len() {
                return None;
            }
            let mut start: usize = 0;
            for i in 0..hunk_index
                invariant
                    diff.fits(),
                    hunk_index < diff.hunks@.len(),
                    start == diff.hunk_start(i as int),
            {
                proof {
                    lemma_lines_of_hunks_grow(diff.hunks@, i + 1, diff.hunks@.len() as int);
                }
                start = start + diff.hunks[i].lines.len();
            }
            proof {
                lemma_lines_of_hunks_grow(diff.hunks@, hunk_index + 1, diff.hunks@.len() as int);
            }
            Some((start, start + diff.hunks[hunk_index].lines.len()))
        }
    }

    /// The other view mode.
    pub open spec fn other_mode(self) -> DiffViewMode {
        match self.view_mode {
            DiffViewMode::Unified => DiffViewMode::SideBySide,
            DiffViewMode::SideBySide => DiffViewMode::Unified,
        }
    }

    /// The first display line of the selected hunk, or the first of all.
    pub open spec fn selected_hunk_start(self, diff: FileDiff) -> int {
        match self.selected_hunk {
            Some(hunk) => match self.hunk_range(diff, hunk as int) {
                Some((start, _)) => start,
                None => 0,
            },
            None => 0,
        }
    }

    /// The component after the view mode was switched: the first line of the
    /// selected hunk is selected.
    pub open spec fn toggled(self) -> DiffComponent {
        let switched = DiffComponent { view_mode: self.other_mode(), ..self };
        match self.diff {
            Some(diff) => switched.selected(switched.selected_hunk_start(diff)),
            None => switched,
        }
    }

    /// Where the view is to be scrolled once the view mode was switched.
    pub open spec fn toggle_effect(self) -> Option<EffectView> {
        let switched = DiffComponent { view_mode: self.other_mode(), ..self };
        match self.diff {
            Some(diff) => Some(
                EffectView::ScrollToVisible {
                    height: self.current_size.1 as int,
                    start: switched.selected_hunk_start(diff),
                    end: switched.selected_hunk_start(diff),
                },
            ),
            None => None,
        }
    }

    /// Switches between the unified and the side-by-side view.
    pub fn toggle_view_mode(&mut self) -> (effect: Option<Effect>)
        requires
            old(self).wf(),
        ensures
            final(self).wf(),
            *final(self) == old(self).toggled(),
            effect_view(effect) == old(self).toggle_effect(),
    {
        self.view_mode = match self.view_mode {
            DiffViewMode::Unified => DiffViewMode::SideBySide,
            DiffViewMode::SideBySide => DiffViewMode::Unified,
        };
        if let Some(diff) = &self.diff {
            let target: usize = match self.selected_hunk {
                Some(hunk) => match self.hunk_range_for_mode(diff, hunk) {
                    Some((start, _)) => start,
                    None => 0,
                },
                None => 0,
            };
            self.update_selection(target);
            Some(
                Effect::ScrollToVisible {
                    height: self.current_size.1 as usize,
                    start: target,
                    end: target,
                },
            )
        } else {
            None
        }
    }
}

impl Current {
    pub open spec fn is_empty(self) -> bool {
        self.path@.len() == 0 && !self.is_stage && self.hash == 0
    }
}

impl Default for Current {
    fn default() -> (current: Self)
        ensures
            current.is_empty(),
    {
        Current { path: String::new(), is_stage: false, hash: 0 }
    }
}

} // verus!
