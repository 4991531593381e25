//! What the side-by-side layout keeps of a diff: every line has its one place,
//! on the side it belongs to, and in order.

use vstd::prelude::*;

use crate::components::diff_display::{
    all_show, change_rows, hunk_rows, ints, larger, layout_of_hunks, lemma_hunk_rows,
    lemma_run_end, line_types, rows, run_end, side_by_side_layout, DisplayRow,
    SideBySideDisplayLine,
};
use crate::model::{
    lemma_lines_of_hunks_grow, lines_of_hunks, DiffLine, DiffLineType, FileDiff, Hunk,
};

verus! {

/// A display line stands for raw line `i`.
pub open spec fn stands_for(row: DisplayRow, i: int) -> bool {
    match row {
        DisplayRow::Header { raw, .. } => raw == i,
        DisplayRow::Row { left, right, .. } => left == Some(i) || right == Some(i),
    }
}

/// The raw lines of a display line stand where lines of their kind belong: a
/// header alone, a deletion on the left, an addition on the right, and an
/// unchanged line on both sides.
pub open spec fn kinds_fit(row: DisplayRow, types: Seq<DiffLineType>) -> bool {
    match row {
        DisplayRow::Header { raw, .. } => 0 <= raw < types.len() && types[raw]
            == DiffLineType::Header,
        DisplayRow::Row { left, right, .. } => {
            &&& left is Some || right is Some
            &&& left matches Some(i) ==> {
                &&& 0 <= i < types.len()
                &&& types[i] == DiffLineType::Delete || (types[i] == DiffLineType::Context && right
                    == left)
            }
            &&& right matches Some(i) ==> {
                &&& 0 <= i < types.len()
                &&& types[i] == DiffLineType::Add || (types[i] == DiffLineType::Context && left
                    == right)
            }
        },
    }
}

/// The raw line on the left of a row.
pub open spec fn left_line(row: DisplayRow) -> Option<int> {
    match row {
        DisplayRow::Row { left, .. } => left,
        DisplayRow::Header { .. } => None,
    }
}

/// The raw line on the right of a row.
pub open spec fn right_line(row: DisplayRow) -> Option<int> {
    match row {
        DisplayRow::Row { right, .. } => right,
        DisplayRow::Header { .. } => None,
    }
}

/// Every raw line of the first display line comes before every one of the second.
pub open spec fn wholly_before(a: DisplayRow, b: DisplayRow) -> bool {
    forall|i: int, j: int| #[trigger] stands_for(a, i) && #[trigger] stands_for(b, j) ==> i < j
}

/// No line stands in both display lines, each column runs on from the first to
/// the second, and a header stands behind all lines before it and before all
/// lines behind it.
pub open spec fn comes_before(a: DisplayRow, b: DisplayRow) -> bool {
    &&& a is Header || b is Header ==> wholly_before(a, b)
    &&& forall|i: int| #[trigger] stands_for(a, i) ==> !stands_for(b, i)
    &&& left_line(a) is Some && left_line(b) is Some ==> left_line(a)->0 < left_line(b)->0
    &&& right_line(a) is Some && right_line(b) is Some ==> right_line(a)->0 < right_line(b)->0
}

proof fn lemma_comes_before(a: DisplayRow, b: DisplayRow, mid: int)
    requires
        forall|i: int| #[trigger] stands_for(a, i) ==> i < mid,
        forall|i: int| #[trigger] stands_for(b, i) ==> mid <= i,
    ensures
        comes_before(a, b),
{
    if left_line(a) is Some && left_line(b) is Some {
        assert(stands_for(a, left_line(a)->0) && stands_for(b, left_line(b)->0));
    }
    if right_line(a) is Some && right_line(b) is Some {
        assert(stands_for(a, right_line(a)->0) && stands_for(b, right_line(b)->0));
    }
}

/// One of the display lines stands for raw line `i`.
pub open spec fn stands_somewhere(rows: Seq<DisplayRow>, i: int) -> bool {
    exists|r: int| 0 <= r < rows.len() && #[trigger] stands_for(rows[r], i)
}

/// The display lines place each of the raw lines `lo..hi`, and no other, once.
pub open spec fn places(rows: Seq<DisplayRow>, types: Seq<DiffLineType>, lo: int, hi: int) -> bool {
    &&& forall|r: int| 0 <= r < rows.len() ==> kinds_fit(#[trigger] rows[r], types)
    &&& forall|r: int, i: int|
        0 <= r < rows.len() && #[trigger] stands_for(rows[r], i) ==> lo <= i < hi
    &&& forall|i: int| lo <= i < hi ==> #[trigger] stands_somewhere(rows, i)
    &&& forall|r: int, s: int|
        0 <= r < s < rows.len() ==> comes_before(#[trigger] rows[r], #[trigger] rows[s])
}

proof fn lemma_places_append(
    a: Seq<DisplayRow>,
    b: Seq<DisplayRow>,
    types: Seq<DiffLineType>,
    lo: int,
    mid: int,
    hi: int,
)
    requires
        lo <= mid <= hi,
        places(a, types, lo, mid),
        places(b, types, mid, hi),
    ensures
        places(a + b, types, lo, hi),
{
    let all = a + b;
    assert forall|r: int| 0 <= r < all.len() implies kinds_fit(#[trigger] all[r], types) by {
        if r < a.len() {
            assert(all[r] == a[r]);
        } else {
            assert(all[r] == b[r - a.len()]);
        }
    }
    assert forall|r: int, i: int|
        0 <= r < all.len() && #[trigger] stands_for(all[r], i) implies lo <= i < hi by {
        if r < a.len() {
            assert(stands_for(a[r], i));
        } else {
            assert(stands_for(b[r - a.len()], i));
        }
    }
    assert forall|i: int| lo <= i < hi implies #[trigger] stands_somewhere(all, i) by {
        if i < mid {
            assert(stands_somewhere(a, i));
            let r = choose|r: int| 0 <= r < a.len() && #[trigger] stands_for(a[r], i);
            assert(stands_for(all[r], i));
        } else {
            assert(stands_somewhere(b, i));
            let r = choose|r: int| 0 <= r < b.len() && #[trigger] stands_for(b[r], i);
            assert(all[a.len() + r] == b[r]);
            assert(stands_for(all[a.len() + r], i));
        }
    }
    assert forall|r: int, s: int| 0 <= r < s < all.len() implies comes_before(
        #[trigger] all[r],
        #[trigger] all[s],
    ) by {
        if s < a.len() {
            assert(all[r] == a[r] && all[s] == a[s]);
        } else if r >= a.len() {
            assert(all[r] == b[r - a.len()] && all[s] == b[s - a.len()]);
        } else {
            assert(all[r] == a[r] && all[s] == b[s - a.len()]);
            lemma_comes_before(a[r], b[s - a.len()], mid);
        }
    }
}

proof fn lemma_places_one(row: DisplayRow, types: Seq<DiffLineType>, i: int)
    requires
        kinds_fit(row, types),
        forall|j: int| #[trigger] stands_for(row, j) <==> j == i,
    ensures
        places(seq![row], types, i, i + 1),
{
    let rows = seq![row];
    assert forall|j: int| i <= j < i + 1 implies #[trigger] stands_somewhere(rows, j) by {
        assert(stands_for(rows[0], j));
    }
}

proof fn lemma_places_change(
    types: Seq<DiffLineType>,
    base: int,
    from: int,
    mid: int,
    to: int,
    hunk: int,
)
    requires
        0 <= base + from,
        from <= mid <= to,
        base + to <= types.len(),
        forall|j: int| base + from <= j < base + mid ==> types[j] == DiffLineType::Delete,
        forall|j: int| base + mid <= j < base + to ==> types[j] == DiffLineType::Add,
    ensures
        places(change_rows(base, from, mid, to, hunk), types, base + from, base + to),
{
    let rows = change_rows(base, from, mid, to, hunk);
    assert forall|i: int| base + from <= i < base + to implies #[trigger] stands_somewhere(
        rows,
        i,
    ) by {
        let r = if i < base + mid { i - base - from } else { i - base - mid };
        assert(stands_for(rows[r], i));
    }
    assert forall|r: int| 0 <= r < rows.len() implies kinds_fit(#[trigger] rows[r], types) by {
    }
    assert forall|r: int, s: int| 0 <= r < s < rows.len() implies comes_before(
        #[trigger] rows[r],
        #[trigger] rows[s],
    ) by {
    }
}

pub proof fn lemma_places_hunk(
    own: Seq<DiffLineType>,
    i: int,
    types: Seq<DiffLineType>,
    base: int,
    hunk: int,
)
    requires
        0 <= base,
        0 <= i <= own.len(),
        base + own.len() <= types.len(),
        forall|j: int| 0 <= j < own.len() ==> #[trigger] own[j] == types[base + j],
    ensures
        places(hunk_rows(own, i, base, hunk), types, base + i, base + own.len()),
    decreases own.len() - i,
{
    let rows = hunk_rows(own, i, base, hunk);
    if i < own.len() {
        assert(own[i] == types[base + i]);
        match own[i] {
            DiffLineType::Delete => {
                let mid = run_end(own, i, DiffLineType::Delete);
                let to = run_end(own, mid, DiffLineType::Add);
                lemma_run_end(own, i, DiffLineType::Delete);
                lemma_run_end(own, mid, DiffLineType::Add);
                assert forall|j: int| base + i <= j < base + mid implies types[j]
                    == DiffLineType::Delete by {
                    assert(own[j - base] == types[base + (j - base)]);
                }
                assert forall|j: int| base + mid <= j < base + to implies types[j]
                    == DiffLineType::Add by {
                    assert(own[j - base] == types[base + (j - base)]);
                }
                lemma_places_change(types, base, i, mid, to, hunk);
                lemma_places_hunk(own, to, types, base, hunk);
                lemma_places_append(
                    change_rows(base, i, mid, to, hunk),
                    hunk_rows(own, to, base, hunk),
                    types,
                    base + i,
                    base + to,
                    base + own.len(),
                );
            },
            _ => {
                let first = rows[0];
                let rest = hunk_rows(own, i + 1, base, hunk);
                assert(rows == seq![first] + rest);
                lemma_places_one(first, types, base + i);
                lemma_places_hunk(own, i + 1, types, base, hunk);
                lemma_places_append(
                    seq![first],
                    rest,
                    types,
                    base + i,
                    base + i + 1,
                    base + own.len(),
                );
            },
        }
    }
}

/// A display line belongs to the hunk that raw line `i` stands in.
pub open spec fn in_its_hunk(diff: FileDiff, row: DisplayRow, i: int) -> bool {
    row.hunk() is Some && diff.in_hunk(i, row.hunk()->0)
}

proof fn lemma_rows_in_hunks(diff: FileDiff, k: int)
    requires
        0 <= k <= diff.hunks@.len(),
    ensures
        forall|r: int|
            0 <= r < layout_of_hunks(diff.hunks@, k).len() ==> (#[trigger] layout_of_hunks(
                diff.hunks@,
                k,
            )[r]).hunk() is Some && 0 <= layout_of_hunks(diff.hunks@, k)[r].hunk()->0 < k,
        forall|r: int, i: int|
            0 <= r < layout_of_hunks(diff.hunks@, k).len() && #[trigger] stands_for(
                layout_of_hunks(diff.hunks@, k)[r],
                i,
            ) ==> in_its_hunk(diff, layout_of_hunks(diff.hunks@, k)[r], i),
        forall|r: int, s: int|
            0 <= r <= s < layout_of_hunks(diff.hunks@, k).len() ==> (
            #[trigger] layout_of_hunks(diff.hunks@, k)[r]).hunk()->0 <= (
            #[trigger] layout_of_hunks(diff.hunks@, k)[s]).hunk()->0,
    decreases k,
{
    if k > 0 {
        let hunks = diff.hunks@;
        let types = line_types(diff.raw_lines());
        let own = line_types(hunks[k - 1].lines@);
        let base = diff.hunk_start(k - 1);
        let before = layout_of_hunks(hunks, k - 1);
        let rows = hunk_rows(own, 0, base, k - 1);
        let all = layout_of_hunks(hunks, k);
        lemma_rows_in_hunks(diff, k - 1);
        lemma_hunk_rows(own, 0, base, k - 1);
        lemma_own_types(hunks, k);
        lemma_places_hunk(own, 0, types, base, k - 1);
        assert(all == before + rows);
        assert forall|r: int| 0 <= r < all.len() implies (#[trigger] all[r]).hunk() is Some && 0
            <= all[r].hunk()->0 < k && (r >= before.len() ==> all[r].hunk()->0 == k - 1) by {
            if r < before.len() {
                assert(all[r] == before[r]);
            } else {
                assert(all[r] == rows[r - before.len()]);
            }
        }
        assert forall|r: int, i: int|
            0 <= r < all.len() && #[trigger] stands_for(all[r], i) implies in_its_hunk(
            diff,
            all[r],
            i,
        ) by {
            if r < before.len() {
                assert(stands_for(before[r], i));
            } else {
                assert(stands_for(rows[r - before.len()], i));
            }
        }
        assert forall|r: int, s: int| 0 <= r <= s < all.len() implies (
        #[trigger] all[r]).hunk()->0 <= (#[trigger] all[s]).hunk()->0 by {
            if s < before.len() {
                assert(all[r] == before[r] && all[s] == before[s]);
            }
        }
    }
}

/// The lines of a hunk keep their kinds among all lines.
pub proof fn lemma_own_types(hunks: Seq<Hunk>, k: int)
    requires
        0 < k <= hunks.len(),
    ensures
        lines_of_hunks(hunks, k - 1).len() + hunks[k - 1].lines@.len() <= lines_of_hunks(
            hunks,
            hunks.len() as int,
        ).len(),
        forall|j: int|
            0 <= j < hunks[k - 1].lines@.len() ==> #[trigger] line_types(hunks[k - 1].lines@)[j]
                == line_types(lines_of_hunks(hunks, hunks.len() as int))[lines_of_hunks(
                hunks,
                k - 1,
            ).len() + j],
{
    let types = line_types(lines_of_hunks(hunks, hunks.len() as int));
    let own = line_types(hunks[k - 1].lines@);
    let base = lines_of_hunks(hunks, k - 1).len() as int;
    lemma_lines_of_hunks_grow(hunks, k, hunks.len() as int);
    assert forall|j: int| 0 <= j < own.len() implies #[trigger] own[j] == types[base + j] by {
        assert(lines_of_hunks(hunks, k)[base + j] == hunks[k - 1].lines@[j]);
        assert(lines_of_hunks(hunks, hunks.len() as int)[base + j] == lines_of_hunks(
            hunks,
            k,
        )[base + j]);
    }
}

pub proof fn lemma_places_hunks(hunks: Seq<Hunk>, k: int)
    requires
        0 <= k <= hunks.len(),
    ensures
        places(
            layout_of_hunks(hunks, k),
            line_types(lines_of_hunks(hunks, hunks.len() as int)),
            0,
            lines_of_hunks(hunks, k).len() as int,
        ),
    decreases k,
{
    if k > 0 {
        let types = line_types(lines_of_hunks(hunks, hunks.len() as int));
        let own = line_types(hunks[k - 1].lines@);
        let base = lines_of_hunks(hunks, k - 1).len() as int;
        lemma_places_hunks(hunks, k - 1);
        lemma_own_types(hunks, k);
        lemma_places_hunk(own, 0, types, base, k - 1);
        lemma_places_append(
            layout_of_hunks(hunks, k - 1),
            hunk_rows(own, 0, base, k - 1),
            types,
            0,
            base,
            base + own.len(),
        );
    }
}

/// Laid out side by side, every line of a diff stands in exactly one display
/// line: headers alone, deletions on the left, additions on the right, unchanged
/// lines on both sides. No display line stands for anything else, both columns
/// and the headers keep the order of the diff, and every display line belongs to
/// the hunk of its lines, one hunk after another.
pub proof fn law_layout_places_every_line(diff: FileDiff)
    ensures
        places(
            side_by_side_layout(diff),
            line_types(diff.raw_lines()),
            0,
            diff.raw_lines().len() as int,
        ),
        forall|r: int, i: int|
            0 <= r < side_by_side_layout(diff).len() && #[trigger] stands_for(
                side_by_side_layout(diff)[r],
                i,
            ) ==> in_its_hunk(diff, side_by_side_layout(diff)[r], i),
        forall|r: int, s: int|
            0 <= r <= s < side_by_side_layout(diff).len() ==> (
            #[trigger] side_by_side_layout(diff)[r]).hunk()->0 <= (
            #[trigger] side_by_side_layout(diff)[s]).hunk()->0,
        forall|r: int|
            0 <= r < side_by_side_layout(diff).len() ==> (#[trigger] side_by_side_layout(
                diff,
            )[r]).hunk() is Some,
{
    lemma_places_hunks(diff.hunks@, diff.hunks@.len() as int);
    lemma_rows_in_hunks(diff, diff.hunks@.len() as int);
}

/// Every line of a diff has a display line, and only one.
pub proof fn law_one_display_line_per_line(diff: FileDiff, i: int) -> (r: int)
    requires
        0 <= i < diff.raw_lines().len(),
    ensures
        0 <= r < side_by_side_layout(diff).len(),
        stands_for(side_by_side_layout(diff)[r], i),
        forall|s: int|
            0 <= s < side_by_side_layout(diff).len() && #[trigger] stands_for(
                side_by_side_layout(diff)[s],
                i,
            ) ==> s == r,
{
    law_layout_places_every_line(diff);
    let layout = side_by_side_layout(diff);
    assert(stands_somewhere(layout, i));
    let r = choose|r: int| 0 <= r < layout.len() && #[trigger] stands_for(layout[r], i);
    assert forall|s: int| 0 <= s < layout.len() && #[trigger] stands_for(layout[s], i) implies s
        == r by {
        if s < r {
            assert(comes_before(layout[s], layout[r]));
        } else if r < s {
            assert(comes_before(layout[r], layout[s]));
        }
    }
    r
}

/// A display line shows the raw lines whose indices it holds: a header its own, a row
/// the one of its left cell and the one of its right cell, in this order.
pub proof fn law_display_line_shows_its_indices<'a>(
    lines: Seq<SideBySideDisplayLine<'a>>,
    raw: Seq<DiffLine>,
    i: int,
)
    requires
        0 <= i < lines.len(),
        all_show(lines, raw),
    ensures
        rows(lines).len() == lines.len(),
        match lines[i] {
            SideBySideDisplayLine::Header { line, raw_index, hunk_index } => {
                &&& rows(lines)[i] == (DisplayRow::Header {
                    raw: raw_index as int,
                    hunk: hunk_index as int,
                })
                &&& rows(lines)[i].raw_indices() == seq![raw_index as int]
                &&& rows(lines)[i].hunk() == Some(hunk_index as int)
                &&& raw_index < raw.len()
                &&& *line == raw[raw_index as int]
            },
            SideBySideDisplayLine::Row(row) => {
                &&& rows(lines)[i] is Row
                &&& left_line(rows(lines)[i]) is Some <==> row.left is Some
                &&& right_line(rows(lines)[i]) is Some <==> row.right is Some
                &&& row.left matches Some(cell) ==> left_line(rows(lines)[i]) == Some(
                    cell.raw_index as int,
                ) && cell.raw_index < raw.len() && *cell.line == raw[cell.raw_index as int]
                &&& row.right matches Some(cell) ==> right_line(rows(lines)[i]) == Some(
                    cell.raw_index as int,
                ) && cell.raw_index < raw.len() && *cell.line == raw[cell.raw_index as int]
                &&& row.hunk_index is Some <==> rows(lines)[i].hunk() is Some
                &&& row.hunk_index matches Some(h) ==> rows(lines)[i].hunk() == Some(h as int)
                &&& row.left is Some && row.right is Some ==> rows(lines)[i].raw_indices() == seq![
                    row.left->0.raw_index as int,
                    row.right->0.raw_index as int,
                ] && row.raw_indices@ == seq![row.left->0.raw_index, row.right->0.raw_index]
                &&& row.left is Some && row.right is None ==> row.raw_indices@ == seq![
                    row.left->0.raw_index,
                ]
                &&& row.left is None && row.right is Some ==> row.raw_indices@ == seq![
                    row.right->0.raw_index,
                ]
                &&& row.left is None && row.right is None ==> row.raw_indices@.len() == 0
            },
        },
{
    assert(lines[i].shows(raw));
    if let SideBySideDisplayLine::Row(row) = lines[i] {
        let held = ints(row.raw_indices@);
        assert(held == row.row().raw_indices());
        assert(held.len() == row.raw_indices@.len());
        assert(forall|k: int|
            0 <= k < held.len() ==> held[k] == #[trigger] row.raw_indices@[k] as int);
        if row.left is Some && row.right is Some {
            assert(rows(lines)[i].raw_indices() =~= seq![
                row.left->0.raw_index as int,
                row.right->0.raw_index as int,
            ]);
            assert(held[0] == row.left->0.raw_index && held[1] == row.right->0.raw_index);
            assert(row.raw_indices@ =~= seq![row.left->0.raw_index, row.right->0.raw_index]);
        } else if row.left is Some {
            assert(held[0] == row.left->0.raw_index);
            assert(row.raw_indices@ =~= seq![row.left->0.raw_index]);
        } else if row.right is Some {
            assert(held[0] == row.right->0.raw_index);
            assert(row.raw_indices@ =~= seq![row.right->0.raw_index]);
        }
    }
}

/// A run of deletions and the additions after it share their rows, from the
/// first on: there are as many rows as the longer of both has lines.
pub proof fn law_change_pairs_lines(base: int, from: int, mid: int, to: int, hunk: int, row: int)
    requires
        from <= mid <= to,
        0 <= row < larger(mid - from, to - mid),
    ensures
        change_rows(base, from, mid, to, hunk).len() == larger(mid - from, to - mid),
        change_rows(base, from, mid, to, hunk)[row] == (DisplayRow::Row {
            left: if row < mid - from { Some(base + from + row) } else { None },
            right: if row < to - mid { Some(base + mid + row) } else { None },
            hunk: Some(hunk),
        }),
{
}

} // verus!
