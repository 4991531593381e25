//! What holds of the component as a whole.

use vstd::prelude::*;

use crate::components::diff::{monus, smaller, unified_hunk, DiffComponent};
use crate::components::diff_actions::{
    editor_line, editor_line_before, editor_line_from, editor_line_near, selected_indices,
    unified_copy_lines,
};
use crate::components::diff_commands::Event;
use crate::components::diff_display::{
    changed_positions, display_start, law_hunk_has_display_range, law_hunk_is_contiguous,
    law_layout_not_longer, lemma_layout_grows, chosen_raw_indices, side_by_side_layout,
    DiffViewMode, MIN_SIDE_BY_SIDE_WIDTH,
};
use crate::components::diff_render::cell_line;
use crate::components::diff_text::unified_end;
use crate::components::selection::Selection;
use crate::model::{is_change, lemma_lines_of_hunks_grow, lemma_one_hunk_per_line, DiffLine};
use crate::options::Options;
use crate::queue::{EffectView, EventView};
use crate::string_utils::{blank, trim_breaks};
use crate::ui::style::{span_text, SpanText, Style};

verus! {

impl DiffComponent {
    /// The component shows a diff whose line count is right, and hunk `h` of it
    /// has lines.
    pub open spec fn shows_hunk(self, h: int) -> bool {
        &&& self.wf()
        &&& self.diff matches Some(diff) && {
            &&& diff.lines == diff.raw_lines().len()
            &&& 0 <= h < diff.hunks@.len()
            &&& diff.hunks@[h].lines@.len() > 0
        }
    }
}

/// The display lines of a hunk belong to it.
proof fn lemma_hunk_owns_its_start(component: DiffComponent, h: int)
    requires
        component.shows_hunk(h),
    ensures
        component.hunk_range(component.diff->0, h) matches Some((start, end)) && 0 <= start < end
            <= component.line_total() && component.hunk_at(component.diff->0, start) == Some(
            h as usize,
        ),
        component.line_total() < usize::MAX,
        component.diff->0.hunks@.len() <= usize::MAX,
{
    let diff = component.diff->0;
    law_layout_not_longer(diff);
    assert(diff.hunks@.len() == diff.hunks.len());
    if component.side_by_side() {
        law_hunk_has_display_range(diff, h);
        lemma_layout_grows(diff.hunks@, h + 1, diff.hunks@.len() as int);
        let start = display_start(diff, h);
        law_hunk_is_contiguous(diff, h, start);
        assert(side_by_side_layout(diff)[start].hunk() == Some(h));
    } else {
        let start = diff.hunk_start(h);
        lemma_lines_of_hunks_grow(diff.hunks@, h + 1, diff.hunks@.len() as int);
        assert(diff.in_hunk(start, h));
        let found = choose|g: int| diff.in_hunk(start, g);
        lemma_one_hunk_per_line(diff, start, found, h);
        assert(unified_hunk(diff, start) == Some(h as usize));
    }
}

/// Switching the view mode keeps the selected hunk, and selects its first line
/// in the other view.
pub proof fn law_toggling_keeps_selected_hunk(component: DiffComponent)
    requires
        component.selected_hunk is Some,
        component.shows_hunk(component.selected_hunk->0 as int),
    ensures
        component.toggled().view_mode != component.view_mode,
        component.toggled().selected_hunk == component.selected_hunk,
        component.toggled().hunk_range(
            component.diff->0,
            component.selected_hunk->0 as int,
        ) matches Some((start, _)) && component.toggled().selection == Selection::Single(
            start as usize,
        ),
        component.toggled().shows_hunk(component.selected_hunk->0 as int),
{
    let h = component.selected_hunk->0 as int;
    let switched = DiffComponent { view_mode: component.other_mode(), ..component };
    assert(switched.shows_hunk(h));
    lemma_hunk_owns_its_start(switched, h);
}

/// Switching the view mode twice leads back to the view mode and the hunk, and
/// to the first line of the hunk.
pub proof fn law_toggling_twice(component: DiffComponent)
    requires
        component.selected_hunk is Some,
        component.shows_hunk(component.selected_hunk->0 as int),
    ensures
        component.toggled().toggled().view_mode == component.view_mode,
        component.toggled().toggled().selected_hunk == component.selected_hunk,
        component.hunk_range(component.diff->0, component.selected_hunk->0 as int) matches Some(
            (start, _),
        ) && component.toggled().toggled().selection == Selection::Single(start as usize),
{
    law_toggling_keeps_selected_hunk(component);
    law_toggling_keeps_selected_hunk(component.toggled());
}

/// A step to another hunk selects a line of that hunk.
pub proof fn law_step_selects_line_of_hunk(component: DiffComponent, direction: int)
    requires
        component.hunk_move_target(direction) matches Some(h) && component.shows_hunk(h as int)
            && component.selected_hunk != Some(h),
    ensures
        component.moved_to_hunk(direction).selected_hunk == component.hunk_move_target(direction),
        component.moved_to_hunk(direction).selection is Single,
        component.hunk_at(
            component.diff->0,
            component.moved_to_hunk(direction).selection.end(),
        ) == component.hunk_move_target(direction),
{
    let h = component.hunk_move_target(direction)->0 as int;
    lemma_hunk_owns_its_start(component, h);
}

/// A step never leaves the hunks of the diff.
pub proof fn law_step_stays_in_diff(component: DiffComponent, direction: int)
    requires
        component.wf(),
    ensures
        component.hunk_move_target(direction) is Some <==> component.diff is Some
            && component.diff->0.hunks@.len() > 0,
        component.hunk_move_target(direction) matches Some(h) ==> h
            < component.diff->0.hunks@.len(),
{
}

/// A step forward and a step back lead to the hunk that they started from.
pub proof fn law_steps_cancel(component: DiffComponent)
    requires
        component.selected_hunk is Some,
        component.shows_hunk(component.selected_hunk->0 as int),
        component.shows_hunk(component.selected_hunk->0 + 1),
    ensures
        component.moved_to_hunk(1).selected_hunk == Some(
            (component.selected_hunk->0 + 1) as usize,
        ),
        component.moved_to_hunk(1).moved_to_hunk(-1).selected_hunk == component.selected_hunk,
{
    let h = component.selected_hunk->0 as int;
    lemma_hunk_owns_its_start(component, h + 1);
    let next = component.moved_to_hunk(1);
    assert(next.hunk_range(component.diff->0, h) == component.hunk_range(component.diff->0, h));
    lemma_hunk_owns_its_start(component, h);
}

/// A listed position is that of a changed line among the given ones.
pub proof fn lemma_changed_positions(indices: Seq<int>, raw: Seq<DiffLine>, k: int) -> (i: int)
    requires
        0 <= k < changed_positions(indices, raw).len(),
    ensures
        0 <= i < raw.len(),
        is_change(raw[i].line_type),
        raw[i].position == changed_positions(indices, raw)[k],
        indices.contains(i),
    decreases indices.len(),
{
    let before = changed_positions(indices.drop_last(), raw);
    if k < before.len() {
        let i = lemma_changed_positions(indices.drop_last(), raw, k);
        let at = choose|at: int|
            0 <= at < indices.drop_last().len() && indices.drop_last()[at] == i;
        assert(indices[at] == i);
        i
    } else {
        assert(indices[indices.len() - 1] == indices.last());
        indices.last()
    }
}

/// Only changed lines are staged, unstaged or reset: every selected position is
/// that of an added or deleted line.
pub proof fn law_selected_lines_are_changes(component: DiffComponent, k: int) -> (i: int)
    requires
        0 <= k < component.selected_positions().len(),
    ensures
        component.diff is Some,
        0 <= i < component.diff->0.raw_lines().len(),
        is_change(component.diff->0.raw_lines()[i].line_type),
        component.diff->0.raw_lines()[i].position == component.selected_positions()[k],
{
    let diff = component.diff->0;
    let raw = diff.raw_lines();
    if component.side_by_side() {
        let layout = side_by_side_layout(diff);
        lemma_changed_positions(
            chosen_raw_indices(layout, component.selection.choice(), layout.len() as int),
            raw,
            k,
        )
    } else {
        lemma_changed_positions(
            selected_indices(component.selection, raw.len() as int),
            raw,
            k,
        )
    }
}

/// What the selection stands for does not depend on the room there is to draw
/// in: a view too narrow for two columns keeps its side-by-side lines.
pub proof fn law_selection_ignores_size(component: DiffComponent, size: (u16, u16))
    ensures
        (DiffComponent { current_size: size, ..component }).selected_positions()
            == component.selected_positions(),
        (DiffComponent { current_size: size, ..component }).copied_text()
            == component.copied_text(),
        (DiffComponent { current_size: size, ..component }).editor_target()
            == component.editor_target(),
        (DiffComponent { current_size: size, ..component }).line_total() == component.line_total(),
{
}

/// The unified view is drawn whenever two columns do not fit.
pub proof fn law_narrow_view_is_unified(component: DiffComponent, width: int, height: int)
    requires
        component.diff is Some,
        component.diff->0.hunks@.len() > 0,
        component.current_size.0 < MIN_SIDE_BY_SIDE_WIDTH,
    ensures
        component.text(width, height) == component.unified_text(
            component.diff->0,
            width,
            height,
            component.ready_highlight(),
        ),
{
}

proof fn lemma_from(raw: Seq<DiffLine>, i: int, j: int)
    requires
        0 <= i <= j < raw.len(),
        editor_line(raw[j]) is Some,
    ensures
        editor_line_from(raw, i) is Some,
    decreases j - i,
{
    if i < j {
        lemma_from(raw, i + 1, j);
    }
}

proof fn lemma_before(raw: Seq<DiffLine>, i: int, j: int)
    requires
        0 <= j < i <= raw.len(),
        editor_line(raw[j]) is Some,
    ensures
        editor_line_before(raw, i) is Some,
    decreases i - j,
{
    if j < i - 1 {
        lemma_before(raw, i - 1, j);
    }
}

/// An editor is opened at a line whenever any line of the diff has a number,
/// wherever the selection stands: at that of line `i` itself, if it has one.
pub proof fn law_editor_line_is_found(raw: Seq<DiffLine>, i: int, j: int)
    requires
        0 <= i,
        0 <= j < raw.len(),
        editor_line(raw[j]) is Some,
    ensures
        editor_line_near(raw, i) is Some,
        i < raw.len() && editor_line(raw[i]) is Some ==> editor_line_near(raw, i) == editor_line(
            raw[i],
        ),
{
    if i < j {
        lemma_from(raw, i + 1, j);
    } else if j < i {
        lemma_before(raw, smaller(i, raw.len() as int), j);
    }
}

/// The unified view draws every line that fits, and at most one more.
pub proof fn law_view_is_filled(component: DiffComponent, width: int, height: int)
    requires
        component.diff is Some,
        component.diff->0.hunks@.len() > 0,
        !component.drawn_side_by_side(),
        height >= 0,
    ensures
        component.text(width, height).len() >= smaller(
            height,
            monus(component.diff->0.raw_lines().len() as int, component.scroll.top as int),
        ),
        component.text(width, height).len() <= height + 1,
        component.text(width, height).len() <= monus(
            component.diff->0.raw_lines().len() as int,
            component.scroll.top as int,
        ),
{
}

/// Drawing the unified view is drawing the component as if its own view mode
/// were the unified one.
pub proof fn law_draw_unified_ignores_view_mode(
    component: DiffComponent,
    width: u16,
    title_diff: Seq<char>,
    loading_text: Seq<char>,
)
    ensures
        component.as_unified().drawing(width, title_diff, loading_text) == (DiffComponent {
            view_mode: DiffViewMode::Unified,
            render_view_mode_override: None,
            ..component
        }).drawing(width, title_diff, loading_text),
        component.as_unified().extents() == (DiffComponent {
            view_mode: DiffViewMode::Unified,
            render_view_mode_override: None,
            ..component
        }).extents(),
{
    let a = component.as_unified();
    let b = DiffComponent {
        view_mode: DiffViewMode::Unified,
        render_view_mode_override: None,
        ..component
    };
    let height = component.current_size.1 as int;
    if let Some(diff) = component.diff {
        let highlighted = component.ready_highlight();
        assert(a.ready_highlight() == highlighted && b.ready_highlight() == highlighted);
        let top = component.scroll.top as int;
        let end = unified_end(diff, top, height);
        assert forall|k: int| 0 <= k < monus(end, top) implies #[trigger] a.unified_line_text(
            diff,
            top + k,
            width as int,
            highlighted,
        ) == b.unified_line_text(diff, top + k, width as int, highlighted) by {
        }
        assert(a.unified_text(diff, width as int, height, highlighted) =~= b.unified_text(
            diff,
            width as int,
            height,
            highlighted,
        ));
    }
}

/// A selection of one line selects that index alone.
proof fn lemma_single_index(i: int, n: int)
    requires
        0 <= i <= usize::MAX,
    ensures
        selected_indices(Selection::Single(i as usize), n) == if i < n {
            seq![i]
        } else {
            Seq::empty()
        },
    decreases n,
{
    if n > 0 {
        lemma_single_index(i, n - 1);
    }
}

/// Copying one line of the unified view yields its text, without the line break
/// at its end.
pub proof fn law_copy_one_line(component: DiffComponent, i: int)
    requires
        component.diff is Some,
        !component.side_by_side(),
        0 <= i < component.diff->0.raw_lines().len() <= usize::MAX,
        component.selection == Selection::Single(i as usize),
    ensures
        component.copied_text() == Some(
            trim_breaks(component.diff->0.raw_lines()[i].content@),
        ),
{
    let raw = component.diff->0.raw_lines();
    lemma_single_index(i, raw.len() as int);
    let lines = unified_copy_lines(component.diff->0, component.selection);
    assert(lines =~= seq![trim_breaks(raw[i].content@)]);
}

/// Past the last line of a cell's text there is only blank space in the style of
/// the cell's line.
pub proof fn law_short_cell_keeps_style(
    lines: Seq<Seq<SpanText>>,
    i: int,
    width: int,
    style: Style,
)
    requires
        i >= lines.len(),
        width > 0,
    ensures
        cell_line(lines, i, width, style) == seq![span_text(blank(width as nat), style)],
{
    assert(cell_line(lines, i, width, style) =~= seq![span_text(blank(width as nat), style)]);
}

/// What an effect asks for changes the index or the working directory.
pub open spec fn changes_repository(effect: EffectView) -> bool {
    match effect {
        EffectView::UnstageHunk { .. } => true,
        EffectView::StageHunk { .. } => true,
        EffectView::StageFile { .. } => true,
        EffectView::StageLines { .. } => true,
        EffectView::Push(EventView::ConfirmAction(_)) => true,
        _ => false,
    }
}

/// No key press on an immutable component changes the repository, and no key
/// press on an unfocused one does anything.
pub proof fn law_immutable_component_changes_nothing(
    component: DiffComponent,
    event: Event,
    options: Options,
)
    ensures
        !component.focused ==> component.event_action(event) is None,
        component.is_immutable ==> match component.event_action(event) {
            Some(action) => match component.action_effect(action, options) {
                Some(effect) => !changes_repository(effect),
                None => true,
            },
            None => true,
        },
{
}

/// Changes that are staged are not thrown away: a key press on them asks for no
/// confirmation, and what it moves it moves out of the index.
pub proof fn law_staged_changes_are_not_reset(
    component: DiffComponent,
    event: Event,
    options: Options,
)
    requires
        component.current.is_stage,
    ensures
        component.event_action(event) matches Some(action) ==> match component.action_effect(
            action,
            options,
        ) {
            Some(EffectView::Push(EventView::ConfirmAction(_))) => false,
            Some(EffectView::StageHunk { .. }) => false,
            Some(EffectView::StageFile { .. }) => false,
            Some(EffectView::StageLines { is_stage, .. }) => is_stage,
            _ => true,
        },
{
}

} // verus!
