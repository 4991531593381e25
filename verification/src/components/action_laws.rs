//! What an action works on: the lines that the selection stands for, and no
//! others.

use vstd::prelude::*;

use crate::components::diff::DiffComponent;
use crate::components::diff_actions::{
    count_changes, editor_line_before, editor_line_from, editor_line_near, editor_line_of,
    join_lines, selected_indices,
};
use crate::components::diff_display::{
    changed_positions, chosen_raw_indices, copy_text, side_by_side_layout, side_by_side_positions,
    DisplayRow,
};
use crate::components::layout_laws::{kinds_fit, law_layout_places_every_line, stands_for};
use crate::components::selection::Selection;
use crate::components::selection_laws::law_positions_follow_display_lines;
use crate::model::{is_change, DiffLine, DiffLinePosition, DiffLineType, FileDiff};
use crate::string_utils::trim_breaks;

verus! {

/// `positions` are those of the raw lines `lines`.
pub open spec fn positions_of(
    positions: Seq<DiffLinePosition>,
    lines: Seq<int>,
    raw: Seq<DiffLine>,
) -> bool {
    &&& positions.len() == lines.len()
    &&& forall|k: int|
        0 <= k < lines.len() ==> 0 <= #[trigger] lines[k] < raw.len() && positions[k]
            == raw[lines[k]].position
}

/// The lines are additions and deletions.
pub open spec fn all_changes(lines: Seq<int>, raw: Seq<DiffLine>) -> bool {
    forall|k: int|
        0 <= k < lines.len() ==> raw[#[trigger] lines[k]].line_type == DiffLineType::Add
            || raw[lines[k]].line_type == DiffLineType::Delete
}

proof fn lemma_unified_lines(selection: Selection, raw: Seq<DiffLine>, n: int) -> (lines: Seq<int>)
    requires
        0 <= n <= raw.len(),
    ensures
        positions_of(changed_positions(selected_indices(selection, n), raw), lines, raw),
        all_changes(lines, raw),
        forall|k: int| 0 <= k < lines.len() ==> selection.has(#[trigger] lines[k]) && lines[k] < n,
        forall|j: int, k: int|
            0 <= j < k < lines.len() ==> #[trigger] lines[j] < #[trigger] lines[k],
        forall|i: int|
            0 <= i < n && (#[trigger] raw[i]).line_type != DiffLineType::Context
                && raw[i].line_type != DiffLineType::Header && selection.has(i)
                ==> lines.contains(i),
    decreases n,
{
    if n <= 0 {
        Seq::empty()
    } else {
        let before = lemma_unified_lines(selection, raw, n - 1);
        let indices = selected_indices(selection, n);
        if selection.has(n - 1) {
            assert(indices.drop_last() == selected_indices(selection, n - 1));
        }
        if selection.has(n - 1) && is_change(raw[n - 1].line_type) {
            let lines = before.push(n - 1);
            assert forall|i: int|
                0 <= i < n && (#[trigger] raw[i]).line_type != DiffLineType::Context
                    && raw[i].line_type != DiffLineType::Header && selection.has(i) implies lines.contains(
            i) by {
                if i < n - 1 {
                    let k = choose|k: int| 0 <= k < before.len() && before[k] == i;
                    assert(lines[k] == i);
                } else {
                    assert(lines[before.len() as int] == i);
                }
            }
            lines
        } else {
            before
        }
    }
}

/// In the unified view an action works on the selected lines that are additions
/// or deletions, each once and in the order of the diff, and on no other line.
/// The result are those lines.
pub proof fn law_unified_action_takes_selected_changes(component: DiffComponent) -> (lines: Seq<int>)
    requires
        component.diff is Some,
        !component.side_by_side(),
    ensures
        ({
            let raw = component.diff->0.raw_lines();
            &&& positions_of(component.selected_positions(), lines, raw)
            &&& all_changes(lines, raw)
            &&& forall|k: int|
                0 <= k < lines.len() ==> component.selection.has(#[trigger] lines[k])
            &&& forall|j: int, k: int|
                0 <= j < k < lines.len() ==> #[trigger] lines[j] < #[trigger] lines[k]
            &&& forall|i: int|
                0 <= i < raw.len() && (#[trigger] raw[i]).line_type != DiffLineType::Context
                    && raw[i].line_type != DiffLineType::Header && component.selection.has(i)
                    ==> lines.contains(i)
        }),
{
    let raw = component.diff->0.raw_lines();
    lemma_unified_lines(component.selection, raw, raw.len() as int)
}

/// Each of the lines stands in the display line listed for it. Display lines
/// come from the top down, and within one the deletion comes before the
/// addition.
pub open spec fn listed_by_rows(
    lines: Seq<int>,
    rows: Seq<int>,
    layout: Seq<DisplayRow>,
    raw: Seq<DiffLine>,
) -> bool {
    &&& rows.len() == lines.len()
    &&& forall|k: int|
        0 <= k < lines.len() ==> 0 <= #[trigger] rows[k] < layout.len() && stands_for(
            layout[rows[k]],
            lines[k],
        )
    &&& forall|j: int, k: int|
        0 <= j < k < lines.len() ==> #[trigger] rows[j] < #[trigger] rows[k] || (rows[j] == rows[k]
            && raw[lines[j]].line_type == DiffLineType::Delete && raw[lines[k]].line_type
            == DiffLineType::Add)
}

proof fn lemma_side_lines(diff: FileDiff, chosen: spec_fn(int) -> bool, n: int) -> (listed: (
    Seq<int>,
    Seq<int>,
))
    requires
        0 <= n <= side_by_side_layout(diff).len(),
    ensures
        ({
            let (lines, rows) = listed;
            let raw = diff.raw_lines();
            let layout = side_by_side_layout(diff);
            &&& positions_of(
                changed_positions(chosen_raw_indices(layout, chosen, n), raw),
                lines,
                raw,
            )
            &&& all_changes(lines, raw)
            &&& listed_by_rows(lines, rows, layout, raw)
            &&& forall|k: int| 0 <= k < rows.len() ==> #[trigger] rows[k] < n && chosen(rows[k])
            &&& forall|r: int, i: int|
                0 <= r < n && chosen(r) && #[trigger] stands_for(layout[r], i) && 0 <= i < raw.len()
                    && raw[i].line_type != DiffLineType::Context && raw[i].line_type
                    != DiffLineType::Header ==> lines.contains(i)
        }),
    decreases n,
{
    let raw = diff.raw_lines();
    let layout = side_by_side_layout(diff);
    if n <= 0 {
        (Seq::empty(), Seq::empty())
    } else {
        let (lines, rows) = lemma_side_lines(diff, chosen, n - 1);
        law_positions_follow_display_lines(diff, chosen, n);
        law_layout_places_every_line(diff);
        let row = layout[n - 1];
        let types = crate::components::diff_display::line_types(raw);
        assert(kinds_fit(row, types));
        assert(forall|i: int| 0 <= i < raw.len() ==> types[i] == (#[trigger] raw[i]).line_type);
        if chosen(n - 1) {
            let left = match row {
                DisplayRow::Row { left: Some(i), .. } => if raw[i].line_type
                    == DiffLineType::Delete {
                    seq![i]
                } else {
                    Seq::empty()
                },
                _ => Seq::empty(),
            };
            let right = match row {
                DisplayRow::Row { right: Some(i), .. } => if raw[i].line_type
                    == DiffLineType::Add {
                    seq![i]
                } else {
                    Seq::empty()
                },
                _ => Seq::empty(),
            };
            let own = left + right;
            let all_lines = lines + own;
            let all_rows = rows + Seq::new(own.len(), |k: int| n - 1);
            assert forall|k: int| 0 <= k < all_lines.len() implies 0 <= #[trigger] all_rows[k]
                < n && chosen(all_rows[k]) && stands_for(layout[all_rows[k]], all_lines[k]) by {
                if k < lines.len() {
                    assert(all_rows[k] == rows[k] && all_lines[k] == lines[k]);
                } else {
                    assert(all_lines[k] == own[k - lines.len()]);
                }
            }
            assert forall|j: int, k: int| 0 <= j < k < all_lines.len() implies (
            #[trigger] all_rows[j] < #[trigger] all_rows[k] || (all_rows[j] == all_rows[k]
                && raw[all_lines[j]].line_type == DiffLineType::Delete
                && raw[all_lines[k]].line_type == DiffLineType::Add)) by {
                if k < lines.len() {
                    assert(all_rows[j] == rows[j] && all_rows[k] == rows[k]);
                } else if j < lines.len() {
                    assert(all_rows[j] == rows[j]);
                } else {
                    assert(all_lines[j] == own[0] && all_lines[k] == own[1]);
                }
            }
            assert forall|r: int, i: int|
                0 <= r < n && chosen(r) && #[trigger] stands_for(layout[r], i) && 0 <= i
                    < raw.len() && raw[i].line_type != DiffLineType::Context && raw[i].line_type
                    != DiffLineType::Header implies all_lines.contains(i) by {
                if r < n - 1 {
                    assert(lines.contains(i));
                    let k = choose|k: int| 0 <= k < lines.len() && lines[k] == i;
                    assert(all_lines[k] == i);
                } else {
                    let k: int = if raw[i].line_type == DiffLineType::Delete {
                        0
                    } else {
                        left.len() as int
                    };
                    assert(own[k] == i);
                    assert(all_lines[lines.len() + k] == i);
                }
            }
            assert forall|k: int| 0 <= k < all_lines.len() implies 0 <= #[trigger] all_lines[k]
                < raw.len() && changed_positions(chosen_raw_indices(layout, chosen, n), raw)[k]
                == raw[all_lines[k]].position by {
                if k < lines.len() {
                    assert(all_lines[k] == lines[k]);
                } else {
                    assert(all_lines[k] == own[k - lines.len()]);
                }
            }
            assert forall|k: int| 0 <= k < all_lines.len() implies (
            raw[#[trigger] all_lines[k]].line_type == DiffLineType::Add
                || raw[all_lines[k]].line_type == DiffLineType::Delete) by {
                if k < lines.len() {
                    assert(all_lines[k] == lines[k]);
                } else {
                    assert(all_lines[k] == own[k - lines.len()]);
                }
            }
            (all_lines, all_rows)
        } else {
            (lines, rows)
        }
    }
}

/// The positions that a choice of display lines stands for are those of the additions
/// and deletions in the chosen ones, each once, from the top down and with the
/// deletion of a row before its addition. The result are those lines and the display
/// lines that they stand in.
pub proof fn law_choice_stands_for_its_changes(diff: FileDiff, chosen: spec_fn(int) -> bool) -> (
    listed: (Seq<int>, Seq<int>))
    ensures
        ({
            let (lines, rows) = listed;
            let raw = diff.raw_lines();
            let layout = side_by_side_layout(diff);
            &&& positions_of(side_by_side_positions(diff, chosen), lines, raw)
            &&& all_changes(lines, raw)
            &&& listed_by_rows(lines, rows, layout, raw)
            &&& forall|k: int| 0 <= k < rows.len() ==> chosen(#[trigger] rows[k])
            &&& forall|r: int, i: int|
                0 <= r < layout.len() && chosen(r) && #[trigger] stands_for(layout[r], i) && 0 <= i
                    < raw.len() && raw[i].line_type != DiffLineType::Context && raw[i].line_type
                    != DiffLineType::Header ==> lines.contains(i)
        }),
{
    lemma_side_lines(diff, chosen, side_by_side_layout(diff).len() as int)
}

/// In the side-by-side view an action works on the additions and deletions of the
/// selected display lines, each once, from the top down and with the deletion of a
/// row before its addition, and on no other line. The result are those lines and
/// the display lines that they stand in.
pub proof fn law_side_by_side_action_takes_selected_changes(component: DiffComponent) -> (listed: (
    Seq<int>,
    Seq<int>,
))
    requires
        component.diff is Some,
        component.side_by_side(),
    ensures
        ({
            let (lines, rows) = listed;
            let raw = component.diff->0.raw_lines();
            let layout = side_by_side_layout(component.diff->0);
            &&& positions_of(component.selected_positions(), lines, raw)
            &&& all_changes(lines, raw)
            &&& listed_by_rows(lines, rows, layout, raw)
            &&& forall|k: int| 0 <= k < rows.len() ==> component.selection.has(#[trigger] rows[k])
            &&& forall|r: int, i: int|
                0 <= r < layout.len() && component.selection.has(r) && #[trigger] stands_for(
                    layout[r],
                    i,
                ) && 0 <= i < raw.len() && raw[i].line_type != DiffLineType::Context
                    && raw[i].line_type != DiffLineType::Header ==> lines.contains(i)
        }),
{
    law_choice_stands_for_its_changes(component.diff->0, component.selection.choice())
}

/// Without a diff there is nothing to work on.
pub proof fn law_nothing_to_work_on(component: DiffComponent)
    requires
        component.diff is None,
    ensures
        component.selected_positions().len() == 0,
        component.copied_text() is None,
        component.editor_target() is None,
        component.stats() is None,
        component.hunk_move_target(1) is None,
{
}

/// Of a list of lines an editor is opened at the first that has a number in the
/// new file. The numbers in the old file do not matter then.
pub proof fn law_editor_goes_to_new_line(raw: Seq<DiffLine>, indices: Seq<int>, k: int)
    requires
        0 <= k < indices.len(),
        forall|j: int| 0 <= j <= k ==> 0 <= #[trigger] indices[j] < raw.len(),
        forall|j: int| 0 <= j < k ==> raw[#[trigger] indices[j]].position.new_lineno is None,
        raw[indices[k]].position.new_lineno is Some,
    ensures
        editor_line_of(raw, indices, None) == raw[indices[k]].position.new_lineno,
{
    lemma_editor_new(raw, indices, None, k);
}

proof fn lemma_editor_new(raw: Seq<DiffLine>, indices: Seq<int>, old_lineno: Option<u32>, k: int)
    requires
        0 <= k < indices.len(),
        forall|j: int| 0 <= j <= k ==> 0 <= #[trigger] indices[j] < raw.len(),
        forall|j: int| 0 <= j < k ==> raw[#[trigger] indices[j]].position.new_lineno is None,
        raw[indices[k]].position.new_lineno is Some,
    ensures
        editor_line_of(raw, indices, old_lineno) == raw[indices[k]].position.new_lineno,
    decreases k,
{
    assert(0 <= indices[0] < raw.len());
    if k > 0 {
        let position = raw[indices[0]].position;
        let rest = indices.skip(1);
        assert(position.new_lineno is None);
        assert forall|j: int| 0 <= j <= k - 1 implies 0 <= #[trigger] rest[j] < raw.len() by {
            assert(rest[j] == indices[j + 1]);
        }
        assert forall|j: int| 0 <= j < k - 1 implies raw[
            #[trigger] rest[j]
        ].position.new_lineno is None by {
            assert(rest[j] == indices[j + 1]);
        }
        lemma_editor_new(
            raw,
            rest,
            if old_lineno is Some { old_lineno } else { position.old_lineno },
            k - 1,
        );
    }
}

/// If none of a list of lines has a number in the new file, an editor is opened
/// at the first number that one of them has in the old file, if there is one.
pub proof fn law_editor_goes_to_old_line(raw: Seq<DiffLine>, indices: Seq<int>, k: int)
    requires
        0 <= k <= indices.len(),
        forall|j: int| 0 <= j < indices.len() ==> 0 <= #[trigger] indices[j] < raw.len(),
        forall|j: int|
            0 <= j < indices.len() ==> raw[#[trigger] indices[j]].position.new_lineno is None,
        forall|j: int| 0 <= j < k ==> raw[#[trigger] indices[j]].position.old_lineno is None,
        k < indices.len() ==> raw[indices[k]].position.old_lineno is Some,
    ensures
        editor_line_of(raw, indices, None) == if k < indices.len() {
            raw[indices[k]].position.old_lineno
        } else {
            None
        },
    decreases indices.len(),
{
    if indices.len() > 0 {
        let rest = indices.skip(1);
        assert(0 <= indices[0] < raw.len());
        assert(raw[indices[0]].position.new_lineno is None);
        assert forall|j: int| 0 <= j < rest.len() implies 0 <= #[trigger] rest[j] < raw.len()
            && raw[rest[j]].position.new_lineno is None by {
            assert(rest[j] == indices[j + 1]);
        }
        if k == 0 {
            lemma_editor_keeps_old(raw, rest, raw[indices[0]].position.old_lineno);
        } else {
            assert(raw[indices[0]].position.old_lineno is None);
            assert forall|j: int| 0 <= j < k - 1 implies raw[
                #[trigger] rest[j]
            ].position.old_lineno is None by {
                assert(rest[j] == indices[j + 1]);
            }
            law_editor_goes_to_old_line(raw, rest, k - 1);
        }
    }
}

proof fn lemma_editor_keeps_old(raw: Seq<DiffLine>, indices: Seq<int>, old_lineno: Option<u32>)
    requires
        old_lineno is Some,
        forall|j: int| 0 <= j < indices.len() ==> 0 <= #[trigger] indices[j] < raw.len(),
        forall|j: int|
            0 <= j < indices.len() ==> raw[#[trigger] indices[j]].position.new_lineno is None,
    ensures
        editor_line_of(raw, indices, old_lineno) == old_lineno,
    decreases indices.len(),
{
    if indices.len() > 0 {
        let rest = indices.skip(1);
        assert(0 <= indices[0] < raw.len());
        assert forall|j: int| 0 <= j < rest.len() implies 0 <= #[trigger] rest[j] < raw.len()
            && raw[rest[j]].position.new_lineno is None by {
            assert(rest[j] == indices[j + 1]);
        }
        lemma_editor_keeps_old(raw, rest, old_lineno);
    }
}

/// A line has a number in the new or in the old file.
pub open spec fn numbered(line: DiffLine) -> bool {
    line.position.new_lineno is Some || line.position.old_lineno is Some
}

/// From a line an editor is opened at that line, if it has a number; otherwise at
/// the next one below that has, and only if there is none at the nearest one
/// above. `j` is the line that is found from `i`. Its number in the new file goes
/// before that in the old file.
pub proof fn law_editor_goes_to_nearest_line(raw: Seq<DiffLine>, i: int, j: int)
    requires
        0 <= i,
        0 <= j < raw.len(),
        numbered(raw[j]),
        i <= j ==> forall|k: int| i <= k < j ==> !numbered(#[trigger] raw[k]),
        j < i ==> forall|k: int| j < k < raw.len() ==> !numbered(#[trigger] raw[k]),
    ensures
        editor_line_near(raw, i) == if raw[j].position.new_lineno is Some {
            raw[j].position.new_lineno
        } else {
            raw[j].position.old_lineno
        },
{
    if i < j {
        assert(!numbered(raw[i]));
        lemma_number_below(raw, i + 1, j);
    } else if j < i {
        if i < raw.len() {
            assert(!numbered(raw[i]));
        }
        lemma_no_number_below(raw, i + 1);
        let top = if i <= raw.len() { i } else { raw.len() as int };
        lemma_number_above(raw, top, j);
    }
}

/// Where no line has a number, an editor is opened at none.
pub proof fn law_editor_goes_nowhere(raw: Seq<DiffLine>, i: int)
    requires
        0 <= i,
        forall|k: int| 0 <= k < raw.len() ==> !numbered(#[trigger] raw[k]),
    ensures
        editor_line_near(raw, i) is None,
{
    if i < raw.len() {
        assert(!numbered(raw[i]));
    }
    lemma_no_number_below(raw, i + 1);
    lemma_no_number_above(raw, if i <= raw.len() { i } else { raw.len() as int });
}

proof fn lemma_number_below(raw: Seq<DiffLine>, i: int, j: int)
    requires
        0 <= i <= j < raw.len(),
        numbered(raw[j]),
        forall|k: int| i <= k < j ==> !numbered(#[trigger] raw[k]),
    ensures
        editor_line_from(raw, i) == if raw[j].position.new_lineno is Some {
            raw[j].position.new_lineno
        } else {
            raw[j].position.old_lineno
        },
    decreases j - i,
{
    if i < j {
        assert(!numbered(raw[i]));
        lemma_number_below(raw, i + 1, j);
    }
}

proof fn lemma_no_number_below(raw: Seq<DiffLine>, i: int)
    requires
        0 <= i,
        forall|k: int| i <= k < raw.len() ==> !numbered(#[trigger] raw[k]),
    ensures
        editor_line_from(raw, i) is None,
    decreases raw.len() - i,
{
    if i < raw.len() {
        assert(!numbered(raw[i]));
        lemma_no_number_below(raw, i + 1);
    }
}

proof fn lemma_number_above(raw: Seq<DiffLine>, i: int, j: int)
    requires
        0 <= j < i <= raw.len(),
        numbered(raw[j]),
        forall|k: int| j < k < i ==> !numbered(#[trigger] raw[k]),
    ensures
        editor_line_before(raw, i) == if raw[j].position.new_lineno is Some {
            raw[j].position.new_lineno
        } else {
            raw[j].position.old_lineno
        },
    decreases i,
{
    if j < i - 1 {
        assert(!numbered(raw[i - 1]));
        lemma_number_above(raw, i - 1, j);
    }
}

proof fn lemma_no_number_above(raw: Seq<DiffLine>, i: int)
    requires
        0 <= i <= raw.len(),
        forall|k: int| 0 <= k < i ==> !numbered(#[trigger] raw[k]),
    ensures
        editor_line_before(raw, i) is None,
    decreases i,
{
    if i > 0 {
        assert(!numbered(raw[i - 1]));
        lemma_no_number_above(raw, i - 1);
    }
}

/// In the side-by-side view an editor is opened for the display line that the
/// selection was last moved to. If a line there has a number in the new file, that
/// is where the editor goes: to that of the left line, if it has one, otherwise to
/// that of the right one. Only if neither has one it goes to a number in the old
/// file, and only if there is none either to a line nearby.
pub proof fn law_row_is_edited_in_new_file(component: DiffComponent)
    requires
        component.diff is Some,
        component.side_by_side(),
        component.selection.end() < side_by_side_layout(component.diff->0).len(),
    ensures
        ({
            let raw = component.diff->0.raw_lines();
            match side_by_side_layout(component.diff->0)[component.selection.end()] {
                DisplayRow::Header { raw: i, .. } => {
                    &&& raw[i].position.new_lineno is Some ==> component.editor_target()
                        == raw[i].position.new_lineno
                    &&& raw[i].position.new_lineno is None && raw[i].position.old_lineno is Some
                        ==> component.editor_target() == raw[i].position.old_lineno
                    &&& !numbered(raw[i]) ==> component.editor_target() == editor_line_near(raw, i)
                },
                DisplayRow::Row { left, right, .. } => {
                    let new_left = match left {
                        Some(i) => raw[i].position.new_lineno,
                        None => None,
                    };
                    let new_right = match right {
                        Some(i) => raw[i].position.new_lineno,
                        None => None,
                    };
                    let old_left = match left {
                        Some(i) => raw[i].position.old_lineno,
                        None => None,
                    };
                    let old_right = match right {
                        Some(i) => raw[i].position.old_lineno,
                        None => None,
                    };
                    &&& new_left is Some ==> component.editor_target() == new_left
                    &&& new_left is None && new_right is Some ==> component.editor_target()
                        == new_right
                    &&& new_left is None && new_right is None && old_left is Some
                        ==> component.editor_target() == old_left
                    &&& new_left is None && new_right is None && old_left is None
                        && old_right is Some ==> component.editor_target() == old_right
                    &&& new_left is None && new_right is None && old_left is None
                        && old_right is None ==> component.editor_target() == editor_line_near(
                        raw,
                        if left is Some { left->0 } else { right->0 },
                    )
                },
            }
        }),
{
    let diff = component.diff->0;
    let raw = diff.raw_lines();
    let row = side_by_side_layout(diff)[component.selection.end()];
    law_layout_places_every_line(diff);
    assert(kinds_fit(row, crate::components::diff_display::line_types(raw)));
    let indices = row.raw_indices();
    reveal_with_fuel(editor_line_of, 3);
    match row {
        DisplayRow::Header { raw: i, .. } => {
            assert(indices =~= seq![i]);
        },
        DisplayRow::Row { left, right, .. } => {
            if left is Some && right is Some {
                assert(indices =~= seq![left->0, right->0]);
                assert(indices.skip(1) =~= seq![right->0]);
                assert(indices.skip(1).skip(1) =~= Seq::<int>::empty());
            } else if left is Some {
                assert(indices =~= seq![left->0]);
            } else {
                assert(indices =~= seq![right->0]);
            }
        },
    }
}

/// A selection past the last display line of the side-by-side view stands for no line
/// to edit, and a diff without hunks has no changes to count.
pub proof fn law_nothing_past_the_end(component: DiffComponent)
    requires
        component.diff is Some,
    ensures
        component.side_by_side() && component.selection.end() >= side_by_side_layout(
            component.diff->0,
        ).len() ==> component.editor_target() is None,
        component.diff->0.hunks@.len() == 0 ==> component.stats() is None,
{
}

/// In the unified view an editor is opened for the line that the selection was
/// last moved to.
pub proof fn law_line_is_edited_where_selected(component: DiffComponent)
    requires
        component.diff is Some,
        !component.side_by_side(),
    ensures
        component.editor_target() == editor_line_near(
            component.diff->0.raw_lines(),
            component.selection.end(),
        ),
{
}

proof fn lemma_selected_run(from: int, to: int, n: int)
    requires
        0 <= from <= to <= usize::MAX,
        0 <= n,
    ensures
        selected_indices(Selection::Multiple(from as usize, to as usize), n) == Seq::new(
            (if n <= from {
                0
            } else if n <= to {
                n - from
            } else {
                to + 1 - from
            }) as nat,
            |k: int| from + k,
        ),
        selected_indices(Selection::Multiple(to as usize, from as usize), n) == selected_indices(
            Selection::Multiple(from as usize, to as usize),
            n,
        ),
    decreases n,
{
    if n > 0 {
        lemma_selected_run(from, to, n - 1);
    }
    assert(selected_indices(Selection::Multiple(from as usize, to as usize), n) =~= Seq::new(
        (if n <= from {
            0
        } else if n <= to {
            n - from
        } else {
            to + 1 - from
        }) as nat,
        |k: int| from + k,
    ));
}

proof fn lemma_selected_single(i: int, n: int)
    requires
        0 <= i < n,
        i <= usize::MAX,
    ensures
        selected_indices(Selection::Single(i as usize), n) == seq![i],
    decreases n,
{
    if i < n - 1 {
        lemma_selected_single(i, n - 1);
    } else {
        lemma_none_selected(i, n - 1);
        assert(selected_indices(Selection::Single(i as usize), n) =~= seq![i]);
    }
}

proof fn lemma_none_selected(i: int, n: int)
    requires
        n <= i <= usize::MAX,
    ensures
        selected_indices(Selection::Single(i as usize), n) == Seq::<int>::empty(),
    decreases n,
{
    if n > 0 {
        lemma_none_selected(i, n - 1);
    }
}

/// The number of lines that can be copied.
spec fn copyable(component: DiffComponent) -> int {
    if component.side_by_side() {
        side_by_side_layout(component.diff->0).len() as int
    } else {
        component.diff->0.raw_lines().len() as int
    }
}

/// The text of one line that can be copied.
spec fn copied_line(component: DiffComponent, i: int) -> Seq<char> {
    let raw = component.diff->0.raw_lines();
    if component.side_by_side() {
        copy_text(side_by_side_layout(component.diff->0)[i], raw)
    } else {
        trim_breaks(raw[i].content@)
    }
}

proof fn lemma_copied(component: DiffComponent)
    requires
        component.diff is Some,
    ensures
        component.copied_text() == Some(
            join_lines(
                selected_indices(component.selection, copyable(component)).map_values(
                    |i: int| copied_line(component, i),
                ),
            ),
        ),
{
    let indices = selected_indices(component.selection, copyable(component));
    let lines = indices.map_values(|i: int| copied_line(component, i));
    if component.side_by_side() {
        assert(lines =~= crate::components::diff_actions::side_by_side_copy_lines(
            component.diff->0,
            component.selection,
        ));
    } else {
        assert(lines =~= crate::components::diff_actions::unified_copy_lines(
            component.diff->0,
            component.selection,
        ));
    }
}

/// Copying one line more adds a line feed and what copying that line alone
/// yields, in either view and whichever end of the selection was moved.
pub proof fn law_copy_appends_lines(component: DiffComponent, from: usize, to: usize)
    requires
        component.diff is Some,
        from <= to,
        component.side_by_side() ==> to + 1 < side_by_side_layout(component.diff->0).len()
            <= usize::MAX,
        !component.side_by_side() ==> to + 1 < component.diff->0.raw_lines().len() <= usize::MAX,
    ensures
        ({
            let shorter = DiffComponent { selection: Selection::Multiple(from, to), ..component };
            let longer = DiffComponent {
                selection: Selection::Multiple(from, (to + 1) as usize),
                ..component
            };
            let upwards = DiffComponent {
                selection: Selection::Multiple((to + 1) as usize, from),
                ..component
            };
            let alone = DiffComponent { selection: Selection::Single((to + 1) as usize), ..component };
            &&& shorter.copied_text() is Some
            &&& alone.copied_text() is Some
            &&& longer.copied_text() == Some(
                shorter.copied_text()->0.push('\n') + alone.copied_text()->0,
            )
            &&& upwards.copied_text() == longer.copied_text()
        }),
{
    let shorter = DiffComponent { selection: Selection::Multiple(from, to), ..component };
    let longer = DiffComponent {
        selection: Selection::Multiple(from, (to + 1) as usize),
        ..component
    };
    let upwards = DiffComponent {
        selection: Selection::Multiple((to + 1) as usize, from),
        ..component
    };
    let alone = DiffComponent { selection: Selection::Single((to + 1) as usize), ..component };
    let n = copyable(component);
    lemma_copied(shorter);
    lemma_copied(longer);
    lemma_copied(upwards);
    lemma_copied(alone);
    lemma_selected_run(from as int, to as int, n);
    lemma_selected_run(from as int, to + 1, n);
    lemma_selected_single(to + 1, n);
    let a = selected_indices(shorter.selection, n).map_values(|i: int| copied_line(shorter, i));
    let b = selected_indices(longer.selection, n).map_values(|i: int| copied_line(longer, i));
    let c = selected_indices(alone.selection, n).map_values(|i: int| copied_line(alone, i));
    let d = selected_indices(upwards.selection, n).map_values(|i: int| copied_line(upwards, i));
    assert(b.drop_last() =~= a);
    assert(b.last() == c[0]);
    assert(b.len() >= 2);
    assert(c.len() == 1);
    assert(d =~= b);
}

/// Copying one display line of the side-by-side view yields the text of a header,
/// or the texts of both sides of a row with a tab between them, where an empty
/// side counts as empty text. Line breaks at the ends of a line are left out.
pub proof fn law_copy_one_row(component: DiffComponent, r: usize)
    requires
        component.diff is Some,
        component.side_by_side(),
        r < side_by_side_layout(component.diff->0).len(),
        component.selection == Selection::Single(r),
    ensures
        ({
            let raw = component.diff->0.raw_lines();
            component.copied_text() == Some(
                match side_by_side_layout(component.diff->0)[r as int] {
                    DisplayRow::Header { raw: i, .. } => trim_breaks(raw[i].content@),
                    DisplayRow::Row { left: Some(i), right: Some(j), .. } => trim_breaks(
                        raw[i].content@,
                    ) + seq!['\t'] + trim_breaks(raw[j].content@),
                    DisplayRow::Row { left: Some(i), right: None, .. } => trim_breaks(
                        raw[i].content@,
                    ) + seq!['\t'],
                    DisplayRow::Row { left: None, right: Some(j), .. } => seq!['\t'] + trim_breaks(
                        raw[j].content@,
                    ),
                    DisplayRow::Row { left: None, right: None, .. } => seq!['\t'],
                },
            )
        }),
{
    let raw = component.diff->0.raw_lines();
    let layout = side_by_side_layout(component.diff->0);
    lemma_copied(component);
    lemma_selected_single(r as int, layout.len() as int);
    let lines = selected_indices(component.selection, layout.len() as int).map_values(
        |i: int| copied_line(component, i),
    );
    assert(lines =~= seq![copy_text(layout[r as int], raw)]);
    match layout[r as int] {
        DisplayRow::Header { raw: i, .. } => {},
        DisplayRow::Row { left, right, .. } => {
            let a = match left {
                Some(i) => trim_breaks(raw[i].content@),
                None => Seq::empty(),
            };
            let b = match right {
                Some(i) => trim_breaks(raw[i].content@),
                None => Seq::empty(),
            };
            assert(a.push('\t') + b =~= a + seq!['\t'] + b);
            assert(Seq::<char>::empty() + seq!['\t'] + b =~= seq!['\t'] + b);
            assert(a + seq!['\t'] + Seq::<char>::empty() =~= a + seq!['\t']);
            assert(Seq::<char>::empty() + seq!['\t'] =~= seq!['\t']);
        },
    }
}

/// The counts of a diff are the numbers of its additions and of its deletions.
pub proof fn law_stats_count_changes(component: DiffComponent)
    requires
        component.diff is Some,
        component.diff->0.hunks@.len() > 0,
    ensures
        component.stats() == Some(
            (
                component.diff->0.raw_lines().filter(
                    |line: DiffLine| line.line_type == DiffLineType::Add,
                ).len(),
                component.diff->0.raw_lines().filter(
                    |line: DiffLine| line.line_type == DiffLineType::Delete,
                ).len(),
            ),
        ),
{
    let raw = component.diff->0.raw_lines();
    lemma_count(raw, raw.len() as int);
    assert(raw.take(raw.len() as int) == raw);
}

proof fn lemma_count(raw: Seq<DiffLine>, n: int)
    requires
        0 <= n <= raw.len(),
    ensures
        count_changes(raw, n) == (
            raw.take(n).filter(|line: DiffLine| line.line_type == DiffLineType::Add).len(),
            raw.take(n).filter(|line: DiffLine| line.line_type == DiffLineType::Delete).len(),
        ),
    decreases n,
{
    reveal(Seq::filter);
    if n > 0 {
        lemma_count(raw, n - 1);
        assert(raw.take(n).drop_last() == raw.take(n - 1));
        assert(raw.take(n).last() == raw[n - 1]);
    }
}

/// Copying yields no text where the selection has no line, the same for one line
/// whether the selection was stretched to it or not, and the same for a selection
/// that reaches past the last line as for one that ends there.
pub proof fn law_copy_stops_at_last_line(component: DiffComponent, from: usize, to: usize)
    requires
        component.diff is Some,
        from <= to,
        component.side_by_side() ==> side_by_side_layout(component.diff->0).len() <= usize::MAX,
        !component.side_by_side() ==> component.diff->0.raw_lines().len() <= usize::MAX,
    ensures
        ({
            let n = if component.side_by_side() {
                side_by_side_layout(component.diff->0).len()
            } else {
                component.diff->0.raw_lines().len()
            };
            let stretched = DiffComponent { selection: Selection::Multiple(from, to), ..component };
            let alone = DiffComponent { selection: Selection::Single(from), ..component };
            &&& from >= n ==> stretched.copied_text() == Some(Seq::<char>::empty())
                && alone.copied_text() == Some(Seq::<char>::empty())
            &&& from == to ==> stretched.copied_text() == alone.copied_text()
            &&& from < n <= to ==> stretched.copied_text() == (DiffComponent {
                selection: Selection::Multiple(from, (n - 1) as usize),
                ..component
            }).copied_text()
        }),
{
    let n = copyable(component);
    let stretched = DiffComponent { selection: Selection::Multiple(from, to), ..component };
    let alone = DiffComponent { selection: Selection::Single(from), ..component };
    lemma_copied(stretched);
    lemma_copied(alone);
    lemma_selected_run(from as int, to as int, n);
    let a = selected_indices(stretched.selection, n).map_values(
        |i: int| copied_line(stretched, i),
    );
    let b = selected_indices(alone.selection, n).map_values(|i: int| copied_line(alone, i));
    if from >= n {
        lemma_none_selected(from as int, n);
        assert(a =~= Seq::<Seq<char>>::empty());
        assert(b =~= Seq::<Seq<char>>::empty());
    } else {
        lemma_selected_single(from as int, n);
        if from == to {
            assert(a =~= b);
        }
        if n <= to {
            let ending = DiffComponent {
                selection: Selection::Multiple(from, (n - 1) as usize),
                ..component
            };
            lemma_copied(ending);
            lemma_selected_run(from as int, n - 1, n);
            let c = selected_indices(ending.selection, n).map_values(
                |i: int| copied_line(ending, i),
            );
            assert(a =~= c);
        }
    }
}

} // verus!
