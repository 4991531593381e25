//! What moving about in the view does: which line and which hunk are selected
//! then, and what there is room for.

use vstd::prelude::*;

use crate::components::diff::{unified_hunk, DiffComponent, ScrollType};
use crate::components::diff_display::{
    law_hunk_has_display_range, law_hunk_is_contiguous, law_layout_not_longer, side_by_side_layout,
    DiffViewMode,
};
use crate::components::selection::{Direction, Selection};
use crate::model::{law_line_has_one_hunk, lemma_one_hunk_per_line, FileDiff};
use crate::queue::EffectView;

verus! {

/// Lines are counted as in the view mode of the component, unless another mode
/// takes its place. Two columns are drawn where they are asked for and the view
/// has at least a hundred columns.
pub proof fn law_view_mode_decides(component: DiffComponent)
    ensures
        component.render_view_mode_override is None ==> component.shown_mode()
            == component.view_mode,
        component.render_view_mode_override matches Some(mode) ==> component.shown_mode() == mode,
        component.side_by_side() <==> component.shown_mode() == DiffViewMode::SideBySide,
        component.drawn_side_by_side() <==> component.shown_mode() == DiffViewMode::SideBySide
            && component.current_size.0 >= 100,
{
}

/// Both cells of a row, its mark and its separator fill the view, but for one
/// column at most.
pub proof fn law_cells_fill_the_view(component: DiffComponent)
    requires
        component.current_size.0 >= 2,
    ensures
        component.current_size.0 - 1 <= 2 * component.cell_width() + 2
            <= component.current_size.0,
{
}

/// Where a view has no room for marks, a cell has none for text.
pub proof fn law_cells_need_room(component: DiffComponent)
    requires
        component.current_size.0 < 2,
    ensures
        component.cell_width() == 0,
{
}

/// A move aims at the line below or above the selection, at one as far away as the view
/// is high less one line, or at the first line or the last that the diff counts.
pub proof fn law_moves_aim_from_the_selection(component: DiffComponent)
    ensures
        ({
            let top = component.selection.top();
            let bottom = component.selection.bottom();
            let page = if component.current_size.1 > 0 { component.current_size.1 - 1 } else { 0 };
            &&& component.move_target(ScrollType::Down) == bottom + 1
            &&& component.move_target(ScrollType::Up) == if top > 0 { top - 1 } else { 0 }
            &&& component.move_target(ScrollType::Home) == 0
            &&& component.move_target(ScrollType::PageDown) == bottom + page
            &&& component.move_target(ScrollType::PageUp) == if top > page { top - page } else { 0 }
            &&& component.diff is None ==> component.move_target(ScrollType::End) == 0
            &&& component.diff matches Some(diff) ==> {
                &&& diff.lines > 0 ==> component.move_target(ScrollType::End) == diff.lines - 1
                &&& diff.lines == 0 ==> component.move_target(ScrollType::End) == 0
            }
        }),
{
}

/// Without a diff the selection stays as it is, whatever is selected, moved or
/// stretched.
pub proof fn law_nothing_to_select(component: DiffComponent, line: int, direction: Direction)
    requires
        component.diff is None,
    ensures
        component.selected(line) == component,
        component.with_modified_selection(direction) == component,
        component.moved_to_hunk(line) == component,
        component.hunk_move_effect(line) is None,
{
}

/// The view can be scrolled to the right as far as the longest line reaches over
/// the columns that there are for it, and no further.
pub proof fn law_scrolling_ends_with_longest_line(component: DiffComponent)
    ensures
        component.hidden_columns() >= 0,
        component.drawn_side_by_side() ==> component.visible_columns() == component.cell_width(),
        !component.drawn_side_by_side() ==> component.visible_columns()
            == component.current_size.0,
        component.longest_line >= component.visible_columns() ==> component.hidden_columns()
            + component.visible_columns() == component.longest_line,
        component.longest_line <= component.visible_columns() ==> component.hidden_columns() == 0,
{
}

/// There are as many lines to move through as the shown mode lays out.
pub proof fn law_lines_are_counted_in_shown_mode(component: DiffComponent)
    ensures
        component.diff is None ==> component.line_total() == 0,
        component.diff matches Some(diff) ==> {
            &&& component.side_by_side() ==> component.line_total() == side_by_side_layout(
                diff,
            ).len()
            &&& !component.side_by_side() ==> component.line_total() == diff.lines
        },
{
}

/// The hunk of a raw line is the one that it stands in.
pub proof fn law_line_belongs_to_its_hunk(diff: FileDiff, line: int, h: int)
    requires
        diff.hunks@.len() <= usize::MAX,
        0 <= h < diff.hunks@.len(),
    ensures
        unified_hunk(diff, line) == Some(h as usize) <==> diff.in_hunk(line, h),
        !(0 <= line < diff.raw_lines().len()) ==> unified_hunk(diff, line) is None,
{
    if diff.in_hunk(line, h) {
        crate::model::lemma_lines_of_hunks_grow(diff.hunks@, h + 1, diff.hunks@.len() as int);
    }
    if 0 <= line < diff.raw_lines().len() {
        let own = law_line_has_one_hunk(diff, line);
        let found = choose|g: int| diff.in_hunk(line, g);
        lemma_one_hunk_per_line(diff, line, found, own);
    }
}

/// A display line belongs to the hunk of the lines that it shows: in the
/// side-by-side view that of its row, in the unified view that of its raw line.
pub proof fn law_display_line_belongs_to_its_hunk(component: DiffComponent, line: int, h: int)
    requires
        component.diff is Some,
        component.diff->0.hunks@.len() <= usize::MAX,
        0 <= h < component.diff->0.hunks@.len(),
    ensures
        component.side_by_side() ==> (component.hunk_at(component.diff->0, line) == Some(h as usize)
            <==> 0 <= line < side_by_side_layout(component.diff->0).len() && side_by_side_layout(
            component.diff->0,
        )[line].hunk() == Some(h)),
        !component.side_by_side() ==> (component.hunk_at(component.diff->0, line) == Some(
            h as usize,
        ) <==> component.diff->0.in_hunk(line, h)),
{
    let diff = component.diff->0;
    law_line_belongs_to_its_hunk(diff, line, h);
    if component.side_by_side() && 0 <= line < side_by_side_layout(diff).len() {
        crate::components::layout_laws::law_layout_places_every_line(diff);
        let row = side_by_side_layout(diff)[line];
        assert(crate::components::layout_laws::kinds_fit(
            row,
            crate::components::diff_display::line_types(diff.raw_lines()),
        ));
        let i = crate::components::pairing_laws::earliest_line(row);
        assert(crate::components::layout_laws::stands_for(row, i));
        assert(crate::components::layout_laws::in_its_hunk(diff, row, i));
    }
}

/// Selecting a line selects that line alone, or the last one if there are not so
/// many, together with the hunk that it belongs to; nothing else changes.
pub proof fn law_selecting_selects_one_line(component: DiffComponent, line: int)
    requires
        component.wf(),
        component.diff is Some,
        0 <= line,
    ensures
        ({
            let after = component.selected(line);
            let total = component.line_total();
            let target = if line < total {
                line
            } else if total > 0 {
                total - 1
            } else {
                0
            };
            &&& after.selection == Selection::Single(target as usize)
            &&& after.selection.start() == target
            &&& after.selected_hunk == component.hunk_at(component.diff->0, target)
            &&& after == (DiffComponent {
                selection: after.selection,
                selected_hunk: after.selected_hunk,
                ..component
            })
        }),
{
    law_layout_not_longer(component.diff->0);
}

/// A move goes one line past the selection, or as far as the view is high less
/// one line, or to the first or the last line. It never leaves the lines that
/// there are.
pub proof fn law_moves_go_where_they_say(component: DiffComponent, move_type: ScrollType)
    requires
        component.wf(),
        component.diff is Some,
        component.line_total() > 0,
        component.diff->0.lines >= component.line_total(),
        component.selection.top() < component.line_total(),
        component.selection.bottom() < component.line_total(),
    ensures
        ({
            let after = component.selected(component.move_target(move_type));
            let last = component.line_total() - 1;
            let top = component.selection.top();
            let bottom = component.selection.bottom();
            let page = if component.current_size.1 > 0 { component.current_size.1 - 1 } else { 0 };
            &&& after.selection is Single
            &&& 0 <= after.selection.start() <= last
            &&& after.selection.start() == match move_type {
                ScrollType::Down => if bottom < last { bottom + 1 } else { last },
                ScrollType::Up => if top > 0 { top - 1 } else { 0 },
                ScrollType::Home => 0,
                ScrollType::End => last,
                ScrollType::PageDown => if bottom + page < last { bottom + page } else { last },
                ScrollType::PageUp => if top > page { top - page } else { 0 },
            }
        }),
{
    law_layout_not_longer(component.diff->0);
}

/// Stretching the selection keeps the diff, the hunk and everything else as they
/// are; the end moves by one line and stays among the lines that there are.
pub proof fn law_stretching_stays_in_view(component: DiffComponent, direction: Direction)
    requires
        component.wf(),
        component.diff is Some,
        component.line_total() > 0,
        component.selection.end() < component.line_total(),
    ensures
        ({
            let after = component.with_modified_selection(direction);
            let end = component.selection.end();
            &&& after == (DiffComponent { selection: after.selection, ..component })
            &&& after.selection == Selection::Multiple(
                component.selection.start() as usize,
                after.selection.end() as usize,
            )
            &&& after.selection.start() == component.selection.start()
            &&& after.selection.end() == match direction {
                Direction::Up => if end > 0 { end - 1 } else { 0 },
                Direction::Down => if end + 1 < component.line_total() { end + 1 } else { end },
            }
        }),
{
    law_layout_not_longer(component.diff->0);
}

/// The lines of a hunk in the shown mode: a line lies in the range exactly when it
/// belongs to the hunk, and a hunk that has lines has a range.
pub proof fn law_hunk_range_holds_its_lines(component: DiffComponent, h: int, line: int)
    requires
        component.diff is Some,
        0 <= h < component.diff->0.hunks@.len(),
        component.diff->0.hunks@[h].lines@.len() > 0,
        0 <= line,
        component.side_by_side() ==> line < side_by_side_layout(component.diff->0).len(),
    ensures
        component.hunk_range(component.diff->0, h) is Some,
        ({
            let (start, end) = component.hunk_range(component.diff->0, h)->0;
            &&& component.side_by_side() ==> (start <= line < end <==> side_by_side_layout(
                component.diff->0,
            )[line].hunk() == Some(h))
            &&& !component.side_by_side() ==> (start <= line < end
                <==> component.diff->0.in_hunk(line, h))
        }),
{
    law_hunk_has_display_range(component.diff->0, h);
    if component.side_by_side() {
        law_hunk_is_contiguous(component.diff->0, h, line);
    }
}

/// A step goes to the next or to the previous hunk, and stays where it is at
/// either end; without a selected hunk it goes to the first one. A longer step
/// goes past as many hunks, as far as there are any.
pub proof fn law_steps_go_from_hunk_to_hunk(component: DiffComponent, direction: int)
    requires
        component.wf(),
        component.shows_hunks(),
        component.diff->0.hunks@.len() <= usize::MAX,
    ensures
        component.selected_hunk is None ==> component.hunk_move_target(direction) == Some(0usize),
        component.selected_hunk matches Some(h) ==> ({
            let last = component.diff->0.hunks@.len() - 1;
            component.hunk_move_target(direction) == Some(
                (if h + direction < 0 {
                    0
                } else if h + direction > last {
                    last
                } else {
                    h + direction
                }) as usize,
            )
        }),
        component.hunk_step_changes(direction) <==> component.hunk_move_target(direction)
            != component.selected_hunk,
{
}

/// A step to another hunk selects its first line, asks for all its lines to be
/// brought into view, and changes nothing else; a step that leads nowhere changes
/// nothing.
pub proof fn law_step_shows_whole_hunk(component: DiffComponent, direction: int)
    requires
        component.wf(),
        component.shows_hunks(),
    ensures
        ({
            let after = component.moved_to_hunk(direction);
            let h = component.hunk_move_target(direction)->0 as int;
            let range = component.hunk_range(component.diff->0, h);
            let (first, end) = range->0;
            if component.selected_hunk == component.hunk_move_target(direction) || range is None {
                after == component && component.hunk_move_effect(direction) is None
            } else {
                &&& after == (DiffComponent {
                    selection: Selection::Single(first as usize),
                    selected_hunk: Some(h as usize),
                    ..component
                })
                &&& component.hunk_move_effect(direction) == Some(
                    EffectView::ScrollToVisible {
                        height: component.current_size.1 as int,
                        start: first,
                        end,
                    },
                )
            }
        }),
{
}

/// Switching the view mode asks for the line that is selected then to be brought
/// into view, and changes only the mode, the selection and the hunk. Where no hunk
/// is selected that is the first line.
pub proof fn law_toggling_shows_selected_line(component: DiffComponent)
    requires
        component.wf(),
    ensures
        component.view_mode == DiffViewMode::Unified ==> component.toggled().view_mode
            == DiffViewMode::SideBySide,
        component.view_mode == DiffViewMode::SideBySide ==> component.toggled().view_mode
            == DiffViewMode::Unified,
        component.toggled() == (DiffComponent {
            view_mode: component.toggled().view_mode,
            selection: component.toggled().selection,
            selected_hunk: component.toggled().selected_hunk,
            ..component
        }),
        component.diff is None ==> component.toggle_effect() is None
            && component.toggled().selection == component.selection
            && component.toggled().selected_hunk == component.selected_hunk,
        component.diff is Some ==> (component.toggle_effect() matches Some(
            EffectView::ScrollToVisible { height, start, end },
        ) && height == component.current_size.1 && start == end),
        component.diff is Some && component.selected_hunk is None
            ==> component.toggled().selection == Selection::Single(0),
        component.diff is Some && component.selected_hunk is Some ==> ({
            let h = component.selected_hunk->0 as int;
            let first = match component.toggled().hunk_range(component.diff->0, h) {
                Some((start, _)) => start,
                None => 0,
            };
            &&& component.toggle_effect() == Some(
                EffectView::ScrollToVisible {
                    height: component.current_size.1 as int,
                    start: first,
                    end: first,
                },
            )
            &&& component.toggled() == (DiffComponent {
                view_mode: component.toggled().view_mode,
                ..component
            }).selected(first)
        }),
{
}

} // verus!
