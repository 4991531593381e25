//! Which lines a selection stands for, in either view.

use vstd::multiset::Multiset;
use vstd::prelude::*;
use vstd::seq_lib::lemma_multiset_commutative;

use crate::components::diff_actions::{count_changes, selected_indices, unified_positions};
use crate::components::diff_display::{
    change_rows, changed_positions, chosen_raw_indices, hunk_rows, index_list, larger,
    layout_of_hunks, lemma_run_end, line_types, run_end, side_by_side_layout,
    side_by_side_positions, DisplayRow,
};
use crate::components::diff_laws::lemma_changed_positions;
use crate::components::layout_laws::{
    kinds_fit, law_layout_places_every_line, left_line, right_line, stands_for,
};
use crate::components::selection::Selection;
use crate::model::{
    is_change, lemma_lines_of_hunks_grow, lines_of_hunks, DiffLine, DiffLinePosition, DiffLineType,
    FileDiff, Hunk,
};

verus! {

proof fn lemma_changed_positions_add(a: Seq<int>, b: Seq<int>, raw: Seq<DiffLine>)
    ensures
        changed_positions(a + b, raw) == changed_positions(a, raw) + changed_positions(b, raw),
    decreases b.len(),
{
    if b.len() == 0 {
        assert(a + b == a);
        assert(changed_positions(a, raw) + changed_positions(b, raw) == changed_positions(a, raw));
    } else {
        lemma_changed_positions_add(a, b.drop_last(), raw);
        assert((a + b).drop_last() == a + b.drop_last());
    }
}

/// The position of a changed line among the given ones is in the list.
proof fn lemma_change_is_listed(indices: Seq<int>, raw: Seq<DiffLine>, at: int)
    requires
        0 <= at < indices.len(),
        0 <= indices[at] < raw.len(),
        is_change(raw[indices[at]].line_type),
    ensures
        changed_positions(indices, raw).contains(raw[indices[at]].position),
    decreases indices.len(),
{
    let before = changed_positions(indices.drop_last(), raw);
    let all = changed_positions(indices, raw);
    if at < indices.len() - 1 {
        lemma_change_is_listed(indices.drop_last(), raw, at);
        let k = choose|k: int|
            0 <= k < before.len() && before[k] == raw[indices.drop_last()[at]].position;
        assert(all[k] == raw[indices[at]].position);
    } else {
        assert(all[all.len() - 1] == raw[indices[at]].position);
    }
}

proof fn lemma_selected_index(selection: Selection, n: int, i: int) -> (at: int)
    requires
        0 <= i < n,
        selection.has(i),
    ensures
        0 <= at < selected_indices(selection, n).len(),
        selected_indices(selection, n)[at] == i,
    decreases n,
{
    if i == n - 1 {
        selected_indices(selection, n).len() - 1
    } else {
        lemma_selected_index(selection, n - 1, i)
    }
}

proof fn lemma_selected_raw_index(
    layout: Seq<DisplayRow>,
    chosen: spec_fn(int) -> bool,
    n: int,
    r: int,
    i: int,
) -> (at: int)
    requires
        0 <= r < n <= layout.len(),
        chosen(r),
        stands_for(layout[r], i),
    ensures
        0 <= at < chosen_raw_indices(layout, chosen, n).len(),
        chosen_raw_indices(layout, chosen, n)[at] == i,
    decreases n,
{
    let before = chosen_raw_indices(layout, chosen, n - 1);
    if r == n - 1 {
        let own = layout[r].raw_indices();
        let all = chosen_raw_indices(layout, chosen, n);
        assert(all == before + own);
        match layout[r] {
            DisplayRow::Header { .. } => {
                assert(own[0] == i);
                assert(all[before.len() as int] == i);
                before.len() as int
            },
            DisplayRow::Row { left, right, .. } => {
                if left == Some(i) {
                    assert(own[0] == i);
                    assert(all[before.len() as int] == i);
                    before.len() as int
                } else {
                    let k = index_list(left).len() as int;
                    assert(own[k] == i);
                    assert(all[before.len() + k] == i);
                    before.len() + k
                }
            },
        }
    } else {
        lemma_selected_raw_index(layout, chosen, n - 1, r, i)
    }
}

/// In the unified view a changed line that is selected is among the lines that
/// an action works on.
pub proof fn law_unified_takes_selected_changes(diff: FileDiff, selection: Selection, i: int)
    requires
        0 <= i < diff.raw_lines().len(),
        is_change(diff.raw_lines()[i].line_type),
        selection.has(i),
    ensures
        unified_positions(diff, selection).contains(diff.raw_lines()[i].position),
{
    let raw = diff.raw_lines();
    let at = lemma_selected_index(selection, raw.len() as int, i);
    lemma_change_is_listed(selected_indices(selection, raw.len() as int), raw, at);
}

/// In the side-by-side view a changed line is among the lines that an action
/// works on if the display line that it stands in is chosen.
pub proof fn law_side_by_side_takes_chosen_changes(
    diff: FileDiff,
    chosen: spec_fn(int) -> bool,
    r: int,
    i: int,
)
    requires
        0 <= r < side_by_side_layout(diff).len(),
        chosen(r),
        stands_for(side_by_side_layout(diff)[r], i),
        0 <= i < diff.raw_lines().len(),
        is_change(diff.raw_lines()[i].line_type),
    ensures
        side_by_side_positions(diff, chosen).contains(diff.raw_lines()[i].position),
{
    let raw = diff.raw_lines();
    let layout = side_by_side_layout(diff);
    let n = layout.len() as int;
    let at = lemma_selected_raw_index(layout, chosen, n, r, i);
    lemma_change_is_listed(chosen_raw_indices(layout, chosen, n), raw, at);
}

proof fn lemma_chosen_raw_index(
    layout: Seq<DisplayRow>,
    chosen: spec_fn(int) -> bool,
    n: int,
    at: int,
) -> (r: int)
    requires
        0 <= n <= layout.len(),
        0 <= at < chosen_raw_indices(layout, chosen, n).len(),
    ensures
        0 <= r < n,
        chosen(r),
        stands_for(layout[r], chosen_raw_indices(layout, chosen, n)[at]),
    decreases n,
{
    let before = chosen_raw_indices(layout, chosen, n - 1);
    if at < before.len() {
        lemma_chosen_raw_index(layout, chosen, n - 1, at)
    } else {
        let own = layout[n - 1].raw_indices();
        assert(chosen_raw_indices(layout, chosen, n)[at] == own[at - before.len()]);
        n - 1
    }
}

/// In the side-by-side view an action works on nothing but changed lines that
/// stand in a chosen display line.
pub proof fn law_side_by_side_takes_only_chosen(
    diff: FileDiff,
    chosen: spec_fn(int) -> bool,
    k: int,
) -> (found: (int, int))
    requires
        0 <= k < side_by_side_positions(diff, chosen).len(),
    ensures
        ({
            let (r, i) = found;
            &&& 0 <= r < side_by_side_layout(diff).len()
            &&& chosen(r)
            &&& stands_for(side_by_side_layout(diff)[r], i)
            &&& 0 <= i < diff.raw_lines().len()
            &&& is_change(diff.raw_lines()[i].line_type)
            &&& diff.raw_lines()[i].position == side_by_side_positions(diff, chosen)[k]
        }),
{
    let layout = side_by_side_layout(diff);
    let n = layout.len() as int;
    let indices = chosen_raw_indices(layout, chosen, n);
    let i = lemma_changed_positions(indices, diff.raw_lines(), k);
    let at = choose|at: int| 0 <= at < indices.len() && indices[at] == i;
    (lemma_chosen_raw_index(layout, chosen, n, at), i)
}

/// The position of a line, if it is of the given kind.
pub open spec fn position_of_kind(
    raw: Seq<DiffLine>,
    index: Option<int>,
    line_type: DiffLineType,
) -> Seq<DiffLinePosition> {
    match index {
        Some(i) => if raw[i].line_type == line_type { seq![raw[i].position] } else { Seq::empty() },
        None => Seq::empty(),
    }
}

/// What a display line adds to the list of positions: the deletion on its left,
/// then the addition on its right; a header and an unchanged line add nothing.
pub proof fn law_row_adds_deletion_then_addition(diff: FileDiff, r: int)
    requires
        0 <= r < side_by_side_layout(diff).len(),
    ensures
        changed_positions(side_by_side_layout(diff)[r].raw_indices(), diff.raw_lines())
            == position_of_kind(
            diff.raw_lines(),
            left_line(side_by_side_layout(diff)[r]),
            DiffLineType::Delete,
        ) + position_of_kind(
            diff.raw_lines(),
            right_line(side_by_side_layout(diff)[r]),
            DiffLineType::Add,
        ),
{
    let raw = diff.raw_lines();
    let row = side_by_side_layout(diff)[r];
    let indices = row.raw_indices();
    law_layout_places_every_line(diff);
    assert(kinds_fit(row, line_types(raw)));
    reveal_with_fuel(changed_positions, 3);
    match row {
        DisplayRow::Header { raw: i, .. } => {
            assert(line_types(raw)[i] == raw[i].line_type);
            assert(indices.drop_last() =~= Seq::<int>::empty());
        },
        DisplayRow::Row { left, right, .. } => {
            if let Some(i) = left {
                assert(line_types(raw)[i] == raw[i].line_type);
            }
            if let Some(i) = right {
                assert(line_types(raw)[i] == raw[i].line_type);
            }
            if left is Some && right is Some {
                assert(indices.drop_last() =~= seq![left->0]);
                assert(seq![left->0].drop_last() =~= Seq::<int>::empty());
            } else {
                assert(indices.drop_last() =~= Seq::<int>::empty());
            }
        },
    }
    assert(changed_positions(indices, raw) =~= position_of_kind(
        raw,
        left_line(row),
        DiffLineType::Delete,
    ) + position_of_kind(raw, right_line(row), DiffLineType::Add));
}

/// The positions of the chosen ones of the first `n` display lines: a display
/// line that is chosen adds its own to those of the lines before it.
pub proof fn law_positions_follow_display_lines(
    diff: FileDiff,
    chosen: spec_fn(int) -> bool,
    n: int,
)
    requires
        0 < n <= side_by_side_layout(diff).len(),
    ensures
        ({
            let layout = side_by_side_layout(diff);
            let raw = diff.raw_lines();
            changed_positions(chosen_raw_indices(layout, chosen, n), raw) == changed_positions(
                chosen_raw_indices(layout, chosen, n - 1),
                raw,
            ) + if chosen(n - 1) {
                position_of_kind(raw, left_line(layout[n - 1]), DiffLineType::Delete)
                    + position_of_kind(raw, right_line(layout[n - 1]), DiffLineType::Add)
            } else {
                Seq::empty()
            }
        }),
{
    let layout = side_by_side_layout(diff);
    let raw = diff.raw_lines();
    let before = chosen_raw_indices(layout, chosen, n - 1);
    if chosen(n - 1) {
        law_row_adds_deletion_then_addition(diff, n - 1);
        lemma_changed_positions_add(before, layout[n - 1].raw_indices(), raw);
    }
}

/// The numbers from `lo` up to `hi`.
pub open spec fn run(lo: int, hi: int) -> Seq<int> {
    Seq::new(if lo < hi { (hi - lo) as nat } else { 0 }, |k: int| lo + k)
}

/// The raw lines that a list of display lines stands for.
pub open spec fn rows_indices(rows: Seq<DisplayRow>) -> Seq<int>
    decreases rows.len(),
{
    if rows.len() == 0 {
        Seq::empty()
    } else {
        rows_indices(rows.drop_last()) + rows.last().raw_indices()
    }
}

/// The changed positions among the given raw lines, whatever their order.
pub open spec fn changes_among(indices: Seq<int>, raw: Seq<DiffLine>) -> Multiset<
    DiffLinePosition,
> {
    changed_positions(indices, raw).to_multiset()
}

proof fn lemma_changes_add(a: Seq<int>, b: Seq<int>, raw: Seq<DiffLine>)
    ensures
        changes_among(a + b, raw) == changes_among(a, raw).add(changes_among(b, raw)),
{
    lemma_changed_positions_add(a, b, raw);
    lemma_multiset_commutative(changed_positions(a, raw), changed_positions(b, raw));
}

proof fn lemma_rows_indices_add(a: Seq<DisplayRow>, b: Seq<DisplayRow>)
    ensures
        rows_indices(a + b) == rows_indices(a) + rows_indices(b),
    decreases b.len(),
{
    if b.len() == 0 {
        assert(a + b == a);
        assert(rows_indices(a) + rows_indices(b) == rows_indices(a));
    } else {
        lemma_rows_indices_add(a, b.drop_last());
        assert((a + b).drop_last() == a + b.drop_last());
        assert(rows_indices(a) + rows_indices(b.drop_last()) + b.last().raw_indices()
            == rows_indices(a) + (rows_indices(b.drop_last()) + b.last().raw_indices()));
    }
}

proof fn lemma_run_split(lo: int, mid: int, hi: int)
    requires
        lo <= mid <= hi,
    ensures
        run(lo, hi) == run(lo, mid) + run(mid, hi),
{
    assert(run(lo, hi) =~= run(lo, mid) + run(mid, hi));
}

proof fn lemma_nothing_changes(raw: Seq<DiffLine>)
    ensures
        changes_among(Seq::empty(), raw) == Multiset::<DiffLinePosition>::empty(),
{
    broadcast use vstd::seq_lib::group_to_multiset_ensures;

    assert(changes_among(Seq::empty(), raw) =~= Multiset::<DiffLinePosition>::empty());
}

/// The first `r` rows of a change stand for its first `r` deletions and its
/// first `r` additions.
proof fn lemma_change_rows_changes(
    raw: Seq<DiffLine>,
    base: int,
    from: int,
    mid: int,
    to: int,
    hunk: int,
    r: int,
)
    requires
        from <= mid <= to,
        0 <= r <= larger(mid - from, to - mid),
    ensures
        changes_among(rows_indices(change_rows(base, from, mid, to, hunk).take(r)), raw)
            == changes_among(
            run(base + from, base + from + if r < mid - from { r } else { mid - from }),
            raw,
        ).add(
            changes_among(
                run(base + mid, base + mid + if r < to - mid { r } else { to - mid }),
                raw,
            ),
        ),
    decreases r,
{
    let rows = change_rows(base, from, mid, to, hunk);
    if r == 0 {
        lemma_nothing_changes(raw);
        assert(run(base + from, base + from) =~= Seq::<int>::empty());
        assert(run(base + mid, base + mid) =~= Seq::<int>::empty());
        assert(rows.take(0) =~= Seq::<DisplayRow>::empty());
        assert(changes_among(Seq::empty(), raw) =~= changes_among(Seq::empty(), raw).add(
            changes_among(Seq::empty(), raw),
        ));
    } else {
        lemma_change_rows_changes(raw, base, from, mid, to, hunk, r - 1);
        assert(rows.take(r).drop_last() == rows.take(r - 1));
        let row = rows[r - 1];
        assert(rows.take(r).last() == row);
        let left = if r - 1 < mid - from { Some(base + from + r - 1) } else { None };
        let right = if r - 1 < to - mid { Some(base + mid + r - 1) } else { None };
        let before = rows_indices(rows.take(r - 1));
        assert(row.raw_indices() == index_list(left) + index_list(right));
        lemma_changes_add(before, row.raw_indices(), raw);
        lemma_changes_add(index_list(left), index_list(right), raw);
        let old_left = run(
            base + from,
            base + from + if r - 1 < mid - from { r - 1 } else { mid - from },
        );
        let old_right = run(base + mid, base + mid + if r - 1 < to - mid { r - 1 } else { to - mid });
        let new_left = run(base + from, base + from + if r < mid - from { r } else { mid - from });
        let new_right = run(base + mid, base + mid + if r < to - mid { r } else { to - mid });
        assert(new_left =~= old_left + index_list(left));
        assert(new_right =~= old_right + index_list(right));
        lemma_changes_add(old_left, index_list(left), raw);
        lemma_changes_add(old_right, index_list(right), raw);
        assert(changes_among(rows_indices(rows.take(r)), raw) =~= changes_among(new_left, raw).add(
            changes_among(new_right, raw),
        ));
    }
}

proof fn lemma_one_row_changes(row: DisplayRow, i: int, raw: Seq<DiffLine>)
    requires
        0 <= i < raw.len(),
        row.raw_indices() == seq![i] || (row.raw_indices() == seq![i, i] && !is_change(
            raw[i].line_type,
        )),
    ensures
        changes_among(rows_indices(seq![row]), raw) == changes_among(run(i, i + 1), raw),
{
    assert(run(i, i + 1) =~= seq![i]);
    let alone = seq![row];
    assert(alone.drop_last() =~= Seq::<DisplayRow>::empty());
    reveal_with_fuel(rows_indices, 2);
    assert(rows_indices(alone) =~= row.raw_indices());
    if row.raw_indices() == seq![i, i] {
        reveal_with_fuel(changed_positions, 3);
        assert(seq![i, i].drop_last() =~= seq![i]);
        assert(seq![i].drop_last() =~= Seq::<int>::empty());
        assert(changed_positions(seq![i, i], raw) =~= changed_positions(seq![i], raw));
    }
}

proof fn lemma_hunk_changes(
    own: Seq<DiffLineType>,
    i: int,
    raw: Seq<DiffLine>,
    base: int,
    hunk: int,
)
    requires
        0 <= base,
        0 <= i <= own.len(),
        base + own.len() <= raw.len(),
        forall|j: int| 0 <= j < own.len() ==> #[trigger] own[j] == raw[base + j].line_type,
    ensures
        changes_among(rows_indices(hunk_rows(own, i, base, hunk)), raw) == changes_among(
            run(base + i, base + own.len()),
            raw,
        ),
    decreases own.len() - i,
{
    let rows = hunk_rows(own, i, base, hunk);
    if i == own.len() {
        assert(run(base + i, base + own.len()) =~= Seq::<int>::empty());
    } else {
        assert(own[i] == raw[base + i].line_type);
        match own[i] {
            DiffLineType::Delete => {
                let mid = run_end(own, i, DiffLineType::Delete);
                let to = run_end(own, mid, DiffLineType::Add);
                lemma_run_end(own, i, DiffLineType::Delete);
                lemma_run_end(own, mid, DiffLineType::Add);
                let first = change_rows(base, i, mid, to, hunk);
                let rest = hunk_rows(own, to, base, hunk);
                let count = larger(mid - i, to - mid);
                lemma_change_rows_changes(raw, base, i, mid, to, hunk, count);
                assert(first.take(count) =~= first);
                lemma_run_split(base + i, base + mid, base + to);
                lemma_changes_add(run(base + i, base + mid), run(base + mid, base + to), raw);
                lemma_hunk_changes(own, to, raw, base, hunk);
                lemma_rows_indices_add(first, rest);
                lemma_changes_add(rows_indices(first), rows_indices(rest), raw);
                lemma_run_split(base + i, base + to, base + own.len());
                lemma_changes_add(
                    run(base + i, base + to),
                    run(base + to, base + own.len()),
                    raw,
                );
            },
            _ => {
                let first = rows[0];
                let rest = hunk_rows(own, i + 1, base, hunk);
                assert(rows == seq![first] + rest);
                match own[i] {
                    DiffLineType::Context => {
                        assert(first.raw_indices() =~= seq![base + i, base + i]);
                    },
                    _ => {
                        assert(first.raw_indices() =~= seq![base + i]);
                    },
                }
                lemma_one_row_changes(first, base + i, raw);
                lemma_hunk_changes(own, i + 1, raw, base, hunk);
                lemma_rows_indices_add(seq![first], rest);
                lemma_changes_add(rows_indices(seq![first]), rows_indices(rest), raw);
                lemma_run_split(base + i, base + i + 1, base + own.len());
                lemma_changes_add(
                    run(base + i, base + i + 1),
                    run(base + i + 1, base + own.len()),
                    raw,
                );
            },
        }
    }
}

proof fn lemma_hunks_changes(hunks: Seq<Hunk>, k: int)
    requires
        0 <= k <= hunks.len(),
    ensures
        changes_among(
            rows_indices(layout_of_hunks(hunks, k)),
            lines_of_hunks(hunks, hunks.len() as int),
        ) == changes_among(
            run(0, lines_of_hunks(hunks, k).len() as int),
            lines_of_hunks(hunks, hunks.len() as int),
        ),
    decreases k,
{
    let raw = lines_of_hunks(hunks, hunks.len() as int);
    if k == 0 {
        assert(run(0, 0) =~= Seq::<int>::empty());
    } else {
        let own = line_types(hunks[k - 1].lines@);
        let base = lines_of_hunks(hunks, k - 1).len() as int;
        let before = layout_of_hunks(hunks, k - 1);
        let rows = hunk_rows(own, 0, base, k - 1);
        lemma_hunks_changes(hunks, k - 1);
        lemma_lines_of_hunks_grow(hunks, k, hunks.len() as int);
        assert forall|j: int| 0 <= j < own.len() implies #[trigger] own[j] == raw[base
            + j].line_type by {
            assert(lines_of_hunks(hunks, k)[base + j] == hunks[k - 1].lines@[j]);
            assert(raw[base + j] == lines_of_hunks(hunks, k)[base + j]);
        }
        lemma_hunk_changes(own, 0, raw, base, k - 1);
        lemma_rows_indices_add(before, rows);
        lemma_changes_add(rows_indices(before), rows_indices(rows), raw);
        lemma_run_split(0, base, base + own.len());
        lemma_changes_add(run(0, base), run(base, base + own.len()), raw);
    }
}

proof fn lemma_all_selected(selection: Selection, n: int)
    requires
        0 <= n,
        forall|i: int| 0 <= i < n ==> #[trigger] selection.has(i),
    ensures
        selected_indices(selection, n) == run(0, n),
    decreases n,
{
    if n > 0 {
        assert(selection.has(n - 1));
        lemma_all_selected(selection, n - 1);
        assert(run(0, n) =~= run(0, n - 1).push(n - 1));
    } else {
        assert(run(0, n) =~= Seq::<int>::empty());
    }
}

proof fn lemma_all_rows_selected(layout: Seq<DisplayRow>, chosen: spec_fn(int) -> bool, n: int)
    requires
        0 <= n <= layout.len(),
        forall|i: int| 0 <= i < n ==> #[trigger] chosen(i),
    ensures
        chosen_raw_indices(layout, chosen, n) == rows_indices(layout.take(n)),
    decreases n,
{
    if n > 0 {
        assert(chosen(n - 1));
        lemma_all_rows_selected(layout, chosen, n - 1);
        assert(layout.take(n).drop_last() == layout.take(n - 1));
    }
}

proof fn lemma_count_all(raw: Seq<DiffLine>, n: int)
    requires
        0 <= n <= raw.len(),
    ensures
        changed_positions(run(0, n), raw).len() == count_changes(raw, n).0 + count_changes(
            raw,
            n,
        ).1,
    decreases n,
{
    if n > 0 {
        lemma_count_all(raw, n - 1);
        assert(run(0, n).drop_last() =~= run(0, n - 1));
        assert(run(0, n).last() == n - 1);
    } else {
        assert(run(0, n) =~= Seq::<int>::empty());
    }
}

/// With everything selected, an action works on the same lines in both views,
/// and on each changed line once.
pub proof fn law_views_agree_on_everything(diff: FileDiff, unified: Selection, side: spec_fn(int) -> bool)
    requires
        forall|i: int| 0 <= i < diff.raw_lines().len() ==> #[trigger] unified.has(i),
        forall|r: int| 0 <= r < side_by_side_layout(diff).len() ==> #[trigger] side(r),
    ensures
        side_by_side_positions(diff, side).to_multiset() == unified_positions(
            diff,
            unified,
        ).to_multiset(),
        unified_positions(diff, unified).len() == count_changes(
            diff.raw_lines(),
            diff.raw_lines().len() as int,
        ).0 + count_changes(diff.raw_lines(), diff.raw_lines().len() as int).1,
{
    let raw = diff.raw_lines();
    let layout = side_by_side_layout(diff);
    lemma_all_selected(unified, raw.len() as int);
    lemma_all_rows_selected(layout, side, layout.len() as int);
    assert(layout.take(layout.len() as int) == layout);
    lemma_hunks_changes(diff.hunks@, diff.hunks@.len() as int);
    lemma_count_all(raw, raw.len() as int);
}

} // verus!
