//! Which lines the side-by-side layout puts next to each other, and in which
//! order its display lines come.

use vstd::prelude::*;

use crate::components::diff_display::{
    change_rows, hunk_rows, layout_of_hunks, lemma_layout_grows, lemma_run_end, line_types,
    run_end, side_by_side_layout, DisplayRow,
};
use crate::components::layout_laws::{lemma_own_types, lemma_places_hunk, places, stands_for};
use crate::model::{lines_of_hunks, DiffLine, DiffLineType, FileDiff, Hunk};

verus! {

/// The lines `from..to` are all of one kind.
pub open spec fn all_of_kind(
    lines: Seq<DiffLine>,
    from: int,
    to: int,
    line_type: DiffLineType,
) -> bool {
    forall|j: int| from <= j < to ==> (#[trigger] lines[j]).line_type == line_type
}

/// Line `c` is not laid out together with a line before it: it does not go on
/// with a run of deletions, nor with additions behind deletions.
pub open spec fn starts_afresh(types: Seq<DiffLineType>, c: int) -> bool {
    c < types.len() ==> match types[c] {
        DiffLineType::Header => true,
        DiffLineType::Context => true,
        DiffLineType::Delete => c == 0 || types[c - 1] != DiffLineType::Delete,
        DiffLineType::Add => exists|m: int| #[trigger] lone_additions(types, m, c),
    }
}

/// The lines from `m` to `c` are additions, and no change stands before them.
pub open spec fn lone_additions(types: Seq<DiffLineType>, m: int, c: int) -> bool {
    &&& 0 <= m <= c < types.len()
    &&& forall|j: int| m <= j <= c ==> types[j] == DiffLineType::Add
    &&& m == 0 || types[m - 1] == DiffLineType::Context || types[m - 1] == DiffLineType::Header
}

/// Laying a hunk out comes to every line that starts afresh.
proof fn lemma_reach(types: Seq<DiffLineType>, i: int, c: int, base: int, hunk: int) -> (r: int)
    requires
        0 <= i <= c <= types.len(),
        starts_afresh(types, c),
    ensures
        0 <= r <= hunk_rows(types, i, base, hunk).len(),
        hunk_rows(types, i, base, hunk).skip(r) == hunk_rows(types, c, base, hunk),
    decreases c - i,
{
    let rows = hunk_rows(types, i, base, hunk);
    if i == c {
        assert(rows.skip(0) == rows);
        0
    } else {
        match types[i] {
            DiffLineType::Delete => {
                let mid = run_end(types, i, DiffLineType::Delete);
                let to = run_end(types, mid, DiffLineType::Add);
                lemma_run_end(types, i, DiffLineType::Delete);
                lemma_run_end(types, mid, DiffLineType::Add);
                if c < to {
                    if c < mid {
                        assert(types[c - 1] == DiffLineType::Delete);
                    } else {
                        let m = choose|m: int| #[trigger] lone_additions(types, m, c);
                        if m < mid {
                            assert(types[mid - 1] == DiffLineType::Delete);
                        } else if m > mid {
                            assert(types[m - 1] == DiffLineType::Add);
                        }
                    }
                    assert(false);
                }
                let first = change_rows(base, i, mid, to, hunk);
                let rest = hunk_rows(types, to, base, hunk);
                let r = lemma_reach(types, to, c, base, hunk);
                assert(rows == first + rest);
                assert(rows.skip(first.len() + r) == rest.skip(r));
                first.len() + r
            },
            _ => {
                let rest = hunk_rows(types, i + 1, base, hunk);
                let r = lemma_reach(types, i + 1, c, base, hunk);
                assert(rows == seq![rows[0]] + rest);
                assert(rows.skip(r + 1) == rest.skip(r));
                r + 1
            },
        }
    }
}

/// The display lines of a hunk from a line on that starts afresh stand together
/// in the layout of the diff.
proof fn lemma_reach_in_layout(diff: FileDiff, h: int, c: int) -> (r: int)
    requires
        0 <= h < diff.hunks@.len(),
        0 <= c <= diff.hunks@[h].lines@.len(),
        starts_afresh(line_types(diff.hunks@[h].lines@), c),
    ensures
        ({
            let rows = hunk_rows(line_types(diff.hunks@[h].lines@), c, diff.hunk_start(h), h);
            &&& 0 <= r
            &&& r + rows.len() <= side_by_side_layout(diff).len()
            &&& forall|k: int|
                0 <= k < rows.len() ==> side_by_side_layout(diff)[r + k] == #[trigger] rows[k]
        }),
{
    let types = line_types(diff.hunks@[h].lines@);
    let base = diff.hunk_start(h);
    let at = lemma_reach(types, 0, c, base, h);
    let before = layout_of_hunks(diff.hunks@, h);
    let own = hunk_rows(types, 0, base, h);
    let rows = hunk_rows(types, c, base, h);
    lemma_layout_grows(diff.hunks@, h + 1, diff.hunks@.len() as int);
    let r = before.len() + at;
    assert forall|k: int| 0 <= k < rows.len() implies side_by_side_layout(diff)[r + k]
        == #[trigger] rows[k] by {
        assert(own.skip(at)[k] == own[at + k]);
        assert(layout_of_hunks(diff.hunks@, h + 1)[r + k] == own[at + k]);
    }
    r
}

/// A run of deletions and the run of additions right behind it are laid out
/// together: they take as many display lines as the longer run has lines, one
/// after another, and the first deletion stands next to the first addition, the
/// second next to the second, and so on. `from..mid` is the whole run of
/// deletions in hunk `h`, `mid..to` the whole run of additions behind it, which
/// may be empty. The result is the first of the display lines.
pub proof fn law_replaced_lines_stand_side_by_side(
    diff: FileDiff,
    h: int,
    from: int,
    mid: int,
    to: int,
) -> (first: int)
    requires
        0 <= h < diff.hunks@.len(),
        0 <= from < mid <= to <= diff.hunks@[h].lines@.len(),
        all_of_kind(diff.hunks@[h].lines@, from, mid, DiffLineType::Delete),
        all_of_kind(diff.hunks@[h].lines@, mid, to, DiffLineType::Add),
        from == 0 || diff.hunks@[h].lines@[from - 1].line_type != DiffLineType::Delete,
        mid == to && mid < diff.hunks@[h].lines@.len() ==> diff.hunks@[h].lines@[mid].line_type
            != DiffLineType::Delete,
        to < diff.hunks@[h].lines@.len() ==> diff.hunks@[h].lines@[to].line_type
            != DiffLineType::Add,
    ensures
        0 <= first,
        first + (mid - from) <= side_by_side_layout(diff).len(),
        first + (to - mid) <= side_by_side_layout(diff).len(),
        forall|k: int|
            0 <= k && (k < mid - from || k < to - mid) ==> (#[trigger] side_by_side_layout(
                diff,
            )[first + k]) == (DisplayRow::Row {
                left: if k < mid - from { Some(diff.hunk_start(h) + from + k) } else { None },
                right: if k < to - mid { Some(diff.hunk_start(h) + mid + k) } else { None },
                hunk: Some(h),
            }),
{
    let lines = diff.hunks@[h].lines@;
    let types = line_types(lines);
    let base = diff.hunk_start(h);
    assert(forall|j: int| 0 <= j < lines.len() ==> types[j] == (#[trigger] lines[j]).line_type);
    assert(lines[from].line_type == DiffLineType::Delete);
    assert(starts_afresh(types, from));
    let first = lemma_reach_in_layout(diff, h, from);
    lemma_run_is(types, from, mid, DiffLineType::Delete);
    lemma_run_is(types, mid, to, DiffLineType::Add);
    let change = change_rows(base, from, mid, to, h);
    let rows = hunk_rows(types, from, base, h);
    assert(rows == change + hunk_rows(types, to, base, h));
    assert forall|k: int|
        0 <= k && (k < mid - from || k < to - mid) implies (#[trigger] side_by_side_layout(
        diff,
    )[first + k]) == (DisplayRow::Row {
        left: if k < mid - from { Some(base + from + k) } else { None },
        right: if k < to - mid { Some(base + mid + k) } else { None },
        hunk: Some(h),
    }) by {
        assert(rows[k] == change[k]);
    }
    first
}

/// A run that ends where it is said to end.
proof fn lemma_run_is(types: Seq<DiffLineType>, i: int, end: int, line_type: DiffLineType)
    requires
        0 <= i <= end <= types.len(),
        forall|j: int| i <= j < end ==> types[j] == line_type,
        end < types.len() ==> types[end] != line_type,
    ensures
        run_end(types, i, line_type) == end,
    decreases end - i,
{
    if i < end {
        lemma_run_is(types, i + 1, end, line_type);
    }
}

/// An addition that replaces nothing has a display line of its own, with nothing
/// on its left: one of a run of additions, from line `m` on, before which there
/// is no deletion.
pub proof fn law_new_line_stands_alone(diff: FileDiff, h: int, m: int, j: int) -> (r: int)
    requires
        0 <= h < diff.hunks@.len(),
        0 <= m <= j < diff.hunks@[h].lines@.len(),
        all_of_kind(diff.hunks@[h].lines@, m, j + 1, DiffLineType::Add),
        m == 0 || diff.hunks@[h].lines@[m - 1].line_type == DiffLineType::Context
            || diff.hunks@[h].lines@[m - 1].line_type == DiffLineType::Header,
    ensures
        0 <= r < side_by_side_layout(diff).len(),
        side_by_side_layout(diff)[r] == (DisplayRow::Row {
            left: None,
            right: Some(diff.hunk_start(h) + j),
            hunk: Some(h),
        }),
{
    let lines = diff.hunks@[h].lines@;
    let types = line_types(lines);
    assert(forall|i: int| 0 <= i < lines.len() ==> types[i] == (#[trigger] lines[i]).line_type);
    assert(lines[j].line_type == DiffLineType::Add);
    assert(lone_additions(types, m, j));
    let r = lemma_reach_in_layout(diff, h, j);
    let rows = hunk_rows(types, j, diff.hunk_start(h), h);
    assert(side_by_side_layout(diff)[r + 0] == rows[0]);
    r
}

/// A header and an unchanged line have a display line of their own: the header
/// alone, the unchanged line on both sides.
pub proof fn law_unchanged_line_stands_on_both_sides(diff: FileDiff, h: int, j: int) -> (r: int)
    requires
        0 <= h < diff.hunks@.len(),
        0 <= j < diff.hunks@[h].lines@.len(),
        diff.hunks@[h].lines@[j].line_type == DiffLineType::Context
            || diff.hunks@[h].lines@[j].line_type == DiffLineType::Header,
    ensures
        0 <= r < side_by_side_layout(diff).len(),
        diff.hunks@[h].lines@[j].line_type == DiffLineType::Context ==> side_by_side_layout(diff)[r]
            == (DisplayRow::Row {
            left: Some(diff.hunk_start(h) + j),
            right: Some(diff.hunk_start(h) + j),
            hunk: Some(h),
        }),
        diff.hunks@[h].lines@[j].line_type == DiffLineType::Header ==> side_by_side_layout(diff)[r]
            == (DisplayRow::Header { raw: diff.hunk_start(h) + j, hunk: h }),
{
    let lines = diff.hunks@[h].lines@;
    let types = line_types(lines);
    assert(types[j] == lines[j].line_type);
    let r = lemma_reach_in_layout(diff, h, j);
    let rows = hunk_rows(types, j, diff.hunk_start(h), h);
    assert(side_by_side_layout(diff)[r + 0] == rows[0]);
    r
}

/// The first raw line that a display line stands for.
pub open spec fn earliest_line(row: DisplayRow) -> int {
    match row {
        DisplayRow::Header { raw, .. } => raw,
        DisplayRow::Row { left: Some(i), .. } => i,
        DisplayRow::Row { left: None, right, .. } => right->0,
    }
}

/// Each display line begins before the next one does.
spec fn ordered(rows: Seq<DisplayRow>) -> bool {
    forall|r: int, s: int|
        0 <= r < s < rows.len() ==> earliest_line(#[trigger] rows[r]) < earliest_line(
            #[trigger] rows[s],
        )
}

/// A display line of lines that are laid out begins with one of those lines.
proof fn lemma_earliest(
    rows: Seq<DisplayRow>,
    types: Seq<DiffLineType>,
    lo: int,
    hi: int,
    r: int,
)
    requires
        places(rows, types, lo, hi),
        0 <= r < rows.len(),
    ensures
        stands_for(rows[r], earliest_line(rows[r])),
        lo <= earliest_line(rows[r]) < hi,
        forall|i: int| #[trigger] stands_for(rows[r], i) ==> lo <= i < hi,
{
    assert(crate::components::layout_laws::kinds_fit(rows[r], types));
    assert(stands_for(rows[r], earliest_line(rows[r])));
}

proof fn lemma_ordered_append(
    a: Seq<DisplayRow>,
    b: Seq<DisplayRow>,
    types: Seq<DiffLineType>,
    lo: int,
    mid: int,
    hi: int,
)
    requires
        places(a, types, lo, mid),
        places(b, types, mid, hi),
        ordered(a),
        ordered(b),
    ensures
        ordered(a + b),
{
    let all = a + b;
    assert forall|r: int, s: int| 0 <= r < s < all.len() implies earliest_line(#[trigger] all[r])
        < earliest_line(#[trigger] all[s]) by {
        if s < a.len() {
            assert(all[r] == a[r] && all[s] == a[s]);
        } else if r >= a.len() {
            assert(all[r] == b[r - a.len()] && all[s] == b[s - a.len()]);
        } else {
            assert(all[r] == a[r] && all[s] == b[s - a.len()]);
            lemma_earliest(a, types, lo, mid, r);
            lemma_earliest(b, types, mid, hi, s - a.len());
        }
    }
}

proof fn lemma_ordered_hunk(
    own: Seq<DiffLineType>,
    i: int,
    types: Seq<DiffLineType>,
    base: int,
    hunk: int,
)
    requires
        0 <= base,
        0 <= i <= own.len(),
        base + own.len() <= types.len(),
        forall|j: int| 0 <= j < own.len() ==> #[trigger] own[j] == types[base + j],
    ensures
        ordered(hunk_rows(own, i, base, hunk)),
    decreases own.len() - i,
{
    let rows = hunk_rows(own, i, base, hunk);
    if i < own.len() {
        match own[i] {
            DiffLineType::Delete => {
                let mid = run_end(own, i, DiffLineType::Delete);
                let to = run_end(own, mid, DiffLineType::Add);
                lemma_run_end(own, i, DiffLineType::Delete);
                lemma_run_end(own, mid, DiffLineType::Add);
                let first = change_rows(base, i, mid, to, hunk);
                let rest = hunk_rows(own, to, base, hunk);
                lemma_ordered_hunk(own, to, types, base, hunk);
                lemma_places_hunk(own, i, types, base, hunk);
                lemma_places_hunk(own, to, types, base, hunk);
                assert(rows == first + rest);
                assert(ordered(first));
                assert forall|r: int, s: int| 0 <= r < s < rows.len() implies earliest_line(
                    #[trigger] rows[r],
                ) < earliest_line(#[trigger] rows[s]) by {
                    if s < first.len() {
                        assert(rows[r] == first[r] && rows[s] == first[s]);
                    } else if r >= first.len() {
                        assert(rows[r] == rest[r - first.len()] && rows[s] == rest[s
                            - first.len()]);
                    } else {
                        assert(rows[r] == first[r] && rows[s] == rest[s - first.len()]);
                        lemma_earliest(rest, types, base + to, base + own.len(), s - first.len());
                    }
                }
            },
            _ => {
                let first = rows[0];
                let rest = hunk_rows(own, i + 1, base, hunk);
                assert(rows == seq![first] + rest);
                lemma_ordered_hunk(own, i + 1, types, base, hunk);
                lemma_places_hunk(own, i + 1, types, base, hunk);
                assert forall|r: int, s: int| 0 <= r < s < rows.len() implies earliest_line(
                    #[trigger] rows[r],
                ) < earliest_line(#[trigger] rows[s]) by {
                    assert(rows[s] == rest[s - 1]);
                    lemma_earliest(rest, types, base + i + 1, base + own.len(), s - 1);
                    if r > 0 {
                        assert(rows[r] == rest[r - 1]);
                    } else {
                        assert(rows[0] == first);
                        assert(earliest_line(first) == base + i);
                    }
                }
            },
        }
    }
}

proof fn lemma_ordered_hunks(hunks: Seq<Hunk>, k: int)
    requires
        0 <= k <= hunks.len(),
    ensures
        ordered(layout_of_hunks(hunks, k)),
        places(
            layout_of_hunks(hunks, k),
            line_types(lines_of_hunks(hunks, hunks.len() as int)),
            0,
            lines_of_hunks(hunks, k).len() as int,
        ),
    decreases k,
{
    crate::components::layout_laws::lemma_places_hunks(hunks, k);
    if k > 0 {
        let types = line_types(lines_of_hunks(hunks, hunks.len() as int));
        let own = line_types(hunks[k - 1].lines@);
        let base = lines_of_hunks(hunks, k - 1).len() as int;
        lemma_ordered_hunks(hunks, k - 1);
        lemma_own_types(hunks, k);
        lemma_ordered_hunk(own, 0, types, base, k - 1);
        lemma_places_hunk(own, 0, types, base, k - 1);
        lemma_ordered_append(
            layout_of_hunks(hunks, k - 1),
            hunk_rows(own, 0, base, k - 1),
            types,
            0,
            base,
            base + own.len(),
        );
    }
}

/// The display lines come in the order in which the diff comes to them: of two
/// display lines, the upper one stands for a raw line that comes before all raw
/// lines of the lower one.
pub proof fn law_display_lines_come_in_order(diff: FileDiff, r: int, s: int) -> (i: int)
    requires
        0 <= r < s < side_by_side_layout(diff).len(),
    ensures
        stands_for(side_by_side_layout(diff)[r], i),
        forall|j: int| #[trigger] stands_for(side_by_side_layout(diff)[s], j) ==> i < j,
{
    let hunks = diff.hunks@;
    let layout = side_by_side_layout(diff);
    let types = line_types(diff.raw_lines());
    let n = diff.raw_lines().len() as int;
    lemma_ordered_hunks(hunks, hunks.len() as int);
    lemma_earliest(layout, types, 0, n, r);
    lemma_earliest(layout, types, 0, n, s);
    let i = earliest_line(layout[r]);
    assert(i < earliest_line(layout[s]));
    lemma_left_is_earliest(diff, s);
    assert forall|j: int| #[trigger] stands_for(layout[s], j) implies i < j by {
        assert(earliest_line(layout[s]) <= j);
    }
    i
}

/// Where a row has lines on both sides, the one on the left comes first.
proof fn lemma_left_is_earliest(diff: FileDiff, s: int)
    requires
        0 <= s < side_by_side_layout(diff).len(),
    ensures
        forall|j: int| #[trigger]
            stands_for(side_by_side_layout(diff)[s], j) ==> earliest_line(
                side_by_side_layout(diff)[s],
            ) <= j,
{
    lemma_left_first(diff.hunks@, diff.hunks@.len() as int);
}

spec fn left_first(rows: Seq<DisplayRow>) -> bool {
    forall|r: int| 0 <= r < rows.len() ==> match #[trigger] rows[r] {
        DisplayRow::Row { left: Some(i), right: Some(j), .. } => i <= j,
        _ => true,
    }
}

proof fn lemma_left_first_hunk(own: Seq<DiffLineType>, i: int, base: int, hunk: int)
    requires
        0 <= i <= own.len(),
    ensures
        left_first(hunk_rows(own, i, base, hunk)),
    decreases own.len() - i,
{
    if i < own.len() {
        match own[i] {
            DiffLineType::Delete => {
                let mid = run_end(own, i, DiffLineType::Delete);
                let to = run_end(own, mid, DiffLineType::Add);
                lemma_run_end(own, i, DiffLineType::Delete);
                lemma_run_end(own, mid, DiffLineType::Add);
                lemma_left_first_hunk(own, to, base, hunk);
            },
            _ => {
                lemma_left_first_hunk(own, i + 1, base, hunk);
            },
        }
    }
}

proof fn lemma_left_first(hunks: Seq<Hunk>, k: int)
    requires
        0 <= k <= hunks.len(),
    ensures
        left_first(layout_of_hunks(hunks, k)),
    decreases k,
{
    if k > 0 {
        lemma_left_first(hunks, k - 1);
        lemma_left_first_hunk(
            line_types(hunks[k - 1].lines@),
            0,
            lines_of_hunks(hunks, k - 1).len() as int,
            k - 1,
        );
    }
}

} // verus!
