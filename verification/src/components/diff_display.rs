//! The side-by-side layout of a diff: which raw lines stand next to each other,
//! and what a display line stands for.

use vstd::prelude::*;

use crate::model::{
    is_change, lemma_lines_of_hunks_grow, lemma_raw_line_of_hunk, lines_of_hunks, DiffLine,
    DiffLinePosition, DiffLineType, FileDiff, Hunk,
};
use crate::string_utils::{trim_breaks, trim_line_breaks};

verus! {

/// The width from which on the side-by-side view is drawn.
pub const MIN_SIDE_BY_SIDE_WIDTH: u16 = 100;

#[derive(Clone, Copy, PartialEq, Eq, Debug, Structural)]
pub enum DiffViewMode {
    Unified,
    SideBySide,
}

/// One side of a display row: a diff line and its raw index.
#[derive(Clone, Copy)]
pub struct SideCell<'a> {
    pub line: &'a DiffLine,
    pub raw_index: usize,
}

/// A row of the side-by-side view.
pub struct SideBySideLine<'a> {
    pub left: Option<SideCell<'a>>,
    pub right: Option<SideCell<'a>>,
    pub raw_indices: Vec<usize>,
    pub hunk_index: Option<usize>,
}

/// A display line of the side-by-side view.
pub enum SideBySideDisplayLine<'a> {
    Header { line: &'a DiffLine, raw_index: usize, hunk_index: usize },
    Row(SideBySideLine<'a>),
}

/// What a display line shows: raw indices and the hunk they stand in.
#[verifier::ext_equal]
#[allow(inconsistent_fields)]
pub enum DisplayRow {
    Header { raw: int, hunk: int },
    Row { left: Option<int>, right: Option<int>, hunk: Option<int> },
}

impl DisplayRow {
    pub open spec fn hunk(self) -> Option<int> {
        match self {
            DisplayRow::Header { hunk, .. } => Some(hunk),
            DisplayRow::Row { hunk, .. } => hunk,
        }
    }

    /// The raw lines that the display line stands for, the left one first.
    pub open spec fn raw_indices(self) -> Seq<int> {
        match self {
            DisplayRow::Header { raw, .. } => seq![raw],
            DisplayRow::Row { left, right, .. } => index_list(left) + index_list(right),
        }
    }
}

pub open spec fn index_list(index: Option<int>) -> Seq<int> {
    match index {
        Some(i) => seq![i],
        None => Seq::empty(),
    }
}

/// The index of a cell, if there is one.
pub open spec fn cell_index(cell: Option<SideCell>) -> Option<int> {
    match cell {
        Some(cell) => Some(cell.raw_index as int),
        None => None,
    }
}

pub open spec fn ints(indices: Seq<usize>) -> Seq<int> {
    indices.map_values(|i: usize| i as int)
}

/// A cell shows the raw line that its index names.
pub open spec fn cell_shows(cell: Option<SideCell>, raw: Seq<DiffLine>) -> bool {
    match cell {
        Some(cell) => cell.raw_index < raw.len() && *cell.line == raw[cell.raw_index as int],
        None => true,
    }
}

pub open spec fn index_option(index: Option<usize>) -> Option<int> {
    match index {
        Some(i) => Some(i as int),
        None => None,
    }
}

impl<'a> SideBySideLine<'a> {
    pub open spec fn row(self) -> DisplayRow {
        DisplayRow::Row {
            left: cell_index(self.left),
            right: cell_index(self.right),
            hunk: index_option(self.hunk_index),
        }
    }

    pub open spec fn shows(self, raw: Seq<DiffLine>) -> bool {
        &&& cell_shows(self.left, raw)
        &&& cell_shows(self.right, raw)
        &&& ints(self.raw_indices@) == self.row().raw_indices()
    }
}

impl<'a> SideBySideDisplayLine<'a> {
    pub open spec fn row(self) -> DisplayRow {
        match self {
            SideBySideDisplayLine::Header { raw_index, hunk_index, .. } => DisplayRow::Header {
                raw: raw_index as int,
                hunk: hunk_index as int,
            },
            SideBySideDisplayLine::Row(row) => row.row(),
        }
    }

    /// The diff lines held are the raw lines that the indices name.
    pub open spec fn shows(self, raw: Seq<DiffLine>) -> bool {
        match self {
            SideBySideDisplayLine::Header { line, raw_index, .. } => raw_index < raw.len()
                && *line == raw[raw_index as int],
            SideBySideDisplayLine::Row(row) => row.shows(raw),
        }
    }

    pub fn hunk_index(&self) -> (index: Option<usize>)
        ensures
            index_option(index) == self.row().hunk(),
    {
        match self {
            SideBySideDisplayLine::Header { hunk_index, .. } => Some(*hunk_index),
            SideBySideDisplayLine::Row(row) => row.hunk_index,
        }
    }

    pub fn raw_diff_indices(&self) -> (indices: Vec<usize>)
        ensures
            match self {
                SideBySideDisplayLine::Header { raw_index, .. } => indices@ == seq![*raw_index],
                SideBySideDisplayLine::Row(row) => indices@ == row.raw_indices@,
            },
    {
        match self {
            SideBySideDisplayLine::Header { raw_index, .. } => vec![*raw_index],
            SideBySideDisplayLine::Row(row) => row.raw_indices.clone(),
        }
    }
}

/// The kinds of a list of lines.
pub open spec fn line_types(lines: Seq<DiffLine>) -> Seq<DiffLineType> {
    lines.map_values(|line: DiffLine| line.line_type)
}

/// The first index from `i` on whose line is not of kind `line_type`.
pub open spec fn run_end(types: Seq<DiffLineType>, i: int, line_type: DiffLineType) -> int
    decreases types.len() - i,
{
    if 0 <= i < types.len() && types[i] == line_type {
        run_end(types, i + 1, line_type)
    } else {
        i
    }
}

pub proof fn lemma_run_end(types: Seq<DiffLineType>, i: int, line_type: DiffLineType)
    requires
        0 <= i <= types.len(),
    ensures
        i <= run_end(types, i, line_type) <= types.len(),
        forall|j: int| i <= j < run_end(types, i, line_type) ==> types[j] == line_type,
        run_end(types, i, line_type) < types.len() ==> types[run_end(types, i, line_type)]
            != line_type,
        i < types.len() && types[i] == line_type ==> i < run_end(types, i, line_type),
    decreases types.len() - i,
{
    if i < types.len() && types[i] == line_type {
        lemma_run_end(types, i + 1, line_type);
    }
}

pub open spec fn larger(a: int, b: int) -> int {
    if a >= b { a } else { b }
}

/// The rows of a change: the deletions `from..mid` stand on the left, the
/// additions `mid..to` on the right, both from the first row on.
pub open spec fn change_rows(base: int, from: int, mid: int, to: int, hunk: int) -> Seq<
    DisplayRow,
> {
    Seq::new(
        larger(mid - from, to - mid) as nat,
        |row: int|
            DisplayRow::Row {
                left: if row < mid - from { Some(base + from + row) } else { None },
                right: if row < to - mid { Some(base + mid + row) } else { None },
                hunk: Some(hunk),
            },
    )
}

/// The display lines of a hunk from its line `i` on; `base` is the raw index of
/// the hunk's first line.
pub open spec fn hunk_rows(types: Seq<DiffLineType>, i: int, base: int, hunk: int) -> Seq<
    DisplayRow,
>
    decreases types.len() - i,
{
    if i < 0 || i >= types.len() {
        Seq::empty()
    } else {
        match types[i] {
            DiffLineType::Header => seq![DisplayRow::Header { raw: base + i, hunk }] + hunk_rows(
                types,
                i + 1,
                base,
                hunk,
            ),
            DiffLineType::Delete => {
                let mid = run_end(types, i, DiffLineType::Delete);
                let to = run_end(types, mid, DiffLineType::Add);
                proof {
                    lemma_run_end(types, i, DiffLineType::Delete);
                    lemma_run_end(types, mid, DiffLineType::Add);
                }
                change_rows(base, i, mid, to, hunk) + hunk_rows(types, to, base, hunk)
            },
            DiffLineType::Add => seq![
                DisplayRow::Row { left: None, right: Some(base + i), hunk: Some(hunk) },
            ] + hunk_rows(types, i + 1, base, hunk),
            DiffLineType::Context => seq![
                DisplayRow::Row { left: Some(base + i), right: Some(base + i), hunk: Some(hunk) },
            ] + hunk_rows(types, i + 1, base, hunk),
        }
    }
}

/// The display lines of the first `k` hunks.
pub open spec fn layout_of_hunks(hunks: Seq<Hunk>, k: int) -> Seq<DisplayRow>
    decreases k,
{
    if k <= 0 {
        Seq::empty()
    } else {
        layout_of_hunks(hunks, k - 1) + hunk_rows(
            line_types(hunks[k - 1].lines@),
            0,
            lines_of_hunks(hunks, k - 1).len() as int,
            k - 1,
        )
    }
}

/// The side-by-side layout of a diff.
pub open spec fn side_by_side_layout(diff: FileDiff) -> Seq<DisplayRow> {
    layout_of_hunks(diff.hunks@, diff.hunks@.len() as int)
}

/// What a list of display lines shows.
pub open spec fn rows(lines: Seq<SideBySideDisplayLine>) -> Seq<DisplayRow> {
    lines.map_values(|line: SideBySideDisplayLine| line.row())
}

pub open spec fn all_show(lines: Seq<SideBySideDisplayLine>, raw: Seq<DiffLine>) -> bool {
    forall|i: int| 0 <= i < lines.len() ==> (#[trigger] lines[i]).shows(raw)
}

/// Makes a row of two cells.
pub fn side_by_side_row<'a>(
    left: Option<SideCell<'a>>,
    right: Option<SideCell<'a>>,
    hunk_index: Option<usize>,
) -> (row: SideBySideLine<'a>)
    ensures
        row.left == left,
        row.right == right,
        row.hunk_index == hunk_index,
        ints(row.raw_indices@) == index_list(cell_index(left)) + index_list(cell_index(right)),
{
    let mut raw_indices: Vec<usize> = Vec::new();
    if let Some(cell) = left {
        raw_indices.push(cell.raw_index);
    }
    if let Some(cell) = right {
        raw_indices.push(cell.raw_index);
    }
    assert(ints(raw_indices@) =~= index_list(cell_index(left)) + index_list(cell_index(right)));
    SideBySideLine { left, right, raw_indices, hunk_index }
}

/// The layout of one hunk, appended to `output`.
fn push_hunk_lines<'a>(
    output: &mut Vec<SideBySideDisplayLine<'a>>,
    diff: &'a FileDiff,
    hunk_index: usize,
    base: usize,
)
    requires
        diff.fits(),
        hunk_index < diff.hunks@.len(),
        base == diff.hunk_start(hunk_index as int),
        all_show(old(output)@, diff.raw_lines()),
    ensures
        all_show(final(output)@, diff.raw_lines()),
        rows(final(output)@) == rows(old(output)@) + hunk_rows(
            line_types(diff.hunks@[hunk_index as int].lines@),
            0,
            base as int,
            hunk_index as int,
        ),
{
    let lines = &diff.hunks[hunk_index].lines;
    let ghost raw = diff.raw_lines();
    let ghost types = line_types(lines@);
    let ghost hunk = hunk_index as int;
    let ghost start = rows(output@);
    proof {
        lemma_lines_of_hunks_grow(diff.hunks@, hunk + 1, diff.hunks@.len() as int);
    }
    assert forall|j: int| 0 <= j < lines@.len() implies base + j < raw.len() && raw[base + j]
        == #[trigger] lines@[j] by {
        lemma_raw_line_of_hunk(*diff, hunk, j);
    }
    let mut i: usize = 0;
    assert(start + hunk_rows(types, 0, base as int, hunk) == rows(output@) + hunk_rows(
        types,
        0,
        base as int,
        hunk,
    ));
    while i < lines.len()
        invariant
            hunk_index < diff.hunks@.len(),
            lines@ == diff.hunks@[hunk].lines@,
            raw == diff.raw_lines(),
            raw.len() < usize::MAX,
            base == diff.hunk_start(hunk),
            base + lines@.len() <= raw.len(),
            types == line_types(lines@),
            hunk == hunk_index,
            forall|j: int|
                0 <= j < lines@.len() ==> base + j < raw.len() && raw[base + j]
                    == #[trigger] lines@[j],
            i <= lines@.len(),
            all_show(output@, raw),
            rows(output@) + hunk_rows(types, i as int, base as int, hunk) == start + hunk_rows(
                types,
                0,
                base as int,
                hunk,
            ),
        decreases lines@.len() - i,
    {
        let line = &lines[i];
        let ghost before = rows(output@);
        let ghost rest = hunk_rows(types, i as int, base as int, hunk);
        assert(types[i as int] == line.line_type);
        match line.line_type {
            DiffLineType::Header => {
                let header = SideBySideDisplayLine::Header {
                    line,
                    raw_index: base + i,
                    hunk_index,
                };
                assert(header.shows(raw));
                output.push(header);
                assert(rows(output@) == before.push(header.row()));
                i = i + 1;
                assert(rows(output@) + hunk_rows(types, i as int, base as int, hunk) == before
                    + rest);
            },
            DiffLineType::Delete => {
                let from = i;
                while i < lines.len() && lines[i].line_type == DiffLineType::Delete
                    invariant
                        types == line_types(lines@),
                        from <= i <= lines@.len(),
                        run_end(types, i as int, DiffLineType::Delete) == run_end(
                            types,
                            from as int,
                            DiffLineType::Delete,
                        ),
                    decreases lines@.len() - i,
                {
                    assert(types[i as int] == lines@[i as int].line_type);
                    i = i + 1;
                }
                let mid = i;
                assert(mid < lines@.len() ==> types[mid as int] == lines@[mid as int].line_type);
                assert(mid == run_end(types, from as int, DiffLineType::Delete));
                while i < lines.len() && lines[i].line_type == DiffLineType::Add
                    invariant
                        types == line_types(lines@),
                        mid <= i <= lines@.len(),
                        run_end(types, i as int, DiffLineType::Add) == run_end(
                            types,
                            mid as int,
                            DiffLineType::Add,
                        ),
                    decreases lines@.len() - i,
                {
                    assert(types[i as int] == lines@[i as int].line_type);
                    i = i + 1;
                }
                assert(i < lines@.len() ==> types[i as int] == lines@[i as int].line_type);
                assert(i == run_end(types, mid as int, DiffLineType::Add));
                proof {
                    lemma_run_end(types, from as int, DiffLineType::Delete);
                }
                push_change_rows(output, diff, hunk_index, base, from, mid, i);
                assert(rows(output@) + hunk_rows(types, i as int, base as int, hunk) == before
                    + rest);
            },
            DiffLineType::Add => {
                let cell = SideCell { line, raw_index: base + i };
                let row = side_by_side_row(None, Some(cell), Some(hunk_index));
                assert(row.shows(raw));
                let display = SideBySideDisplayLine::Row(row);
                assert(display.shows(raw));
                output.push(display);
                assert(rows(output@) == before.push(display.row()));
                i = i + 1;
                assert(rows(output@) + hunk_rows(types, i as int, base as int, hunk) == before
                    + rest);
            },
            DiffLineType::Context => {
                let cell = SideCell { line, raw_index: base + i };
                let row = side_by_side_row(Some(cell), Some(cell), Some(hunk_index));
                assert(row.shows(raw));
                let display = SideBySideDisplayLine::Row(row);
                assert(display.shows(raw));
                output.push(display);
                assert(rows(output@) == before.push(display.row()));
                i = i + 1;
                assert(rows(output@) + hunk_rows(types, i as int, base as int, hunk) == before
                    + rest);
            },
        }
    }
    assert(rows(output@) + hunk_rows(types, i as int, base as int, hunk) == rows(output@));
}

/// The rows of one change of a hunk, appended to `output`.
fn push_change_rows<'a>(
    output: &mut Vec<SideBySideDisplayLine<'a>>,
    diff: &'a FileDiff,
    hunk_index: usize,
    base: usize,
    from: usize,
    mid: usize,
    to: usize,
)
    requires
        diff.fits(),
        hunk_index < diff.hunks@.len(),
        base == diff.hunk_start(hunk_index as int),
        from <= mid <= to <= diff.hunks@[hunk_index as int].lines@.len(),
        all_show(old(output)@, diff.raw_lines()),
    ensures
        all_show(final(output)@, diff.raw_lines()),
        rows(final(output)@) == rows(old(output)@) + change_rows(
            base as int,
            from as int,
            mid as int,
            to as int,
            hunk_index as int,
        ),
{
    let lines = &diff.hunks[hunk_index].lines;
    let ghost raw = diff.raw_lines();
    let ghost hunk = hunk_index as int;
    let ghost start = rows(output@);
    let ghost change = change_rows(base as int, from as int, mid as int, to as int, hunk);
    proof {
        lemma_lines_of_hunks_grow(diff.hunks@, hunk + 1, diff.hunks@.len() as int);
    }
    assert forall|j: int| 0 <= j < lines@.len() implies base + j < raw.len() && raw[base + j]
        == #[trigger] lines@[j] by {
        lemma_raw_line_of_hunk(*diff, hunk, j);
    }
    let delete_count: usize = mid - from;
    let add_count: usize = to - mid;
    let row_count: usize = if delete_count >= add_count { delete_count } else { add_count };
    assert(start + change.take(0) == rows(output@));
    for row in 0..row_count
        invariant
            lines@ == diff.hunks@[hunk].lines@,
            raw == diff.raw_lines(),
            raw.len() < usize::MAX,
            base + lines@.len() <= raw.len(),
            hunk == hunk_index,
            forall|j: int|
                0 <= j < lines@.len() ==> base + j < raw.len() && raw[base + j]
                    == #[trigger] lines@[j],
            from <= mid <= to <= lines@.len(),
            delete_count == mid - from,
            add_count == to - mid,
            row_count == larger(delete_count as int, add_count as int),
            change == change_rows(base as int, from as int, mid as int, to as int, hunk),
            all_show(output@, raw),
            rows(output@) == start + change.take(row as int),
    {
        let left = if row < delete_count {
            Some(SideCell { line: &lines[from + row], raw_index: base + from + row })
        } else {
            None
        };
        let right = if row < add_count {
            Some(SideCell { line: &lines[mid + row], raw_index: base + mid + row })
        } else {
            None
        };
        assert(cell_shows(left, raw));
        assert(cell_shows(right, raw));
        let ghost before = rows(output@);
        let pair = side_by_side_row(left, right, Some(hunk_index));
        assert(pair.shows(raw));
        let display = SideBySideDisplayLine::Row(pair);
        assert(display.shows(raw));
        output.push(display);
        assert(display.row() == change[row as int]);
        assert(rows(output@) == before.push(display.row()));
        assert(change.take(row + 1) == change.take(row as int).push(change[row as int]));
    }
    assert(change.take(row_count as int) == change);
}

/// Lays a diff out side by side: headers alone, deletions on the left of the
/// additions that follow them, unchanged lines on both sides.
pub fn build_side_by_side_lines<'a>(diff: &'a FileDiff) -> (output: Vec<SideBySideDisplayLine<'a>>)
    requires
        diff.fits(),
    ensures
        rows(output@) == side_by_side_layout(*diff),
        all_show(output@, diff.raw_lines()),
{
    let mut output: Vec<SideBySideDisplayLine<'a>> = Vec::new();
    let mut raw_index: usize = 0;
    assert(rows(output@) == layout_of_hunks(diff.hunks@, 0));
    for hunk_index in 0..diff.hunks.len()
        invariant
            diff.fits(),
            raw_index == diff.hunk_start(hunk_index as int),
            rows(output@) == layout_of_hunks(diff.hunks@, hunk_index as int),
            all_show(output@, diff.raw_lines()),
    {
        push_hunk_lines(&mut output, diff, hunk_index, raw_index);
        proof {
            lemma_lines_of_hunks_grow(
                diff.hunks@,
                hunk_index + 1,
                diff.hunks@.len() as int,
            );
        }
        raw_index = raw_index + diff.hunks[hunk_index].lines.len();
    }
    output
}

/// The text that copying a display line yields.
pub open spec fn copy_text(row: DisplayRow, raw: Seq<DiffLine>) -> Seq<char> {
    match row {
        DisplayRow::Header { raw: i, .. } => trim_breaks(raw[i].content@),
        DisplayRow::Row { left, right, .. } => side_text(left, raw).push('\t') + side_text(
            right,
            raw,
        ),
    }
}

/// The text of one side of a row, without line breaks at its ends.
pub open spec fn side_text(index: Option<int>, raw: Seq<DiffLine>) -> Seq<char> {
    match index {
        Some(i) => trim_breaks(raw[i].content@),
        None => Seq::empty(),
    }
}

/// The text that a cell holds, without line breaks at its ends.
pub open spec fn cell_text(cell: Option<SideCell>) -> Seq<char> {
    match cell {
        Some(cell) => trim_breaks(cell.line.content@),
        None => Seq::empty(),
    }
}

/// The text that copying a display line yields, by the diff lines that it holds.
pub open spec fn held_copy_text(line: SideBySideDisplayLine) -> Seq<char> {
    match line {
        SideBySideDisplayLine::Header { line, .. } => trim_breaks(line.content@),
        SideBySideDisplayLine::Row(row) => cell_text(row.left).push('\t') + cell_text(row.right),
    }
}

/// The text that copying a display line yields: a header's own, or both sides
/// of a row with a tab between them.
pub fn side_by_side_copy_line(line: &SideBySideDisplayLine<'_>) -> (text: String)
    ensures
        text@ == held_copy_text(*line),
        *line matches SideBySideDisplayLine::Header { line, .. } ==> text@ == trim_breaks(
            line.content@,
        ),
        *line matches SideBySideDisplayLine::Row(row) ==> text@ == (if row.left is Some {
            trim_breaks(row.left->0.line.content@)
        } else {
            Seq::empty()
        }) + seq!['\t'] + (if row.right is Some {
            trim_breaks(row.right->0.line.content@)
        } else {
            Seq::empty()
        }),
{
    match line {
        SideBySideDisplayLine::Header { line, .. } => {
            trim_line_breaks(line.content.as_str()).to_owned()
        },
        SideBySideDisplayLine::Row(row) => {
            let mut text = match &row.left {
                Some(cell) => trim_line_breaks(cell.line.content.as_str()).to_owned(),
                None => String::new(),
            };
            text.push('\t');
            if let Some(cell) = &row.right {
                text.append(trim_line_breaks(cell.line.content.as_str()));
            }
            assert(text@ =~= held_copy_text(*line));
            text
        },
    }
}

/// The display line of the first line of hunk `k`.
pub open spec fn display_start(diff: FileDiff, k: int) -> int {
    layout_of_hunks(diff.hunks@, k).len() as int
}

/// The display lines of a hunk, from the first to the one past the last.
pub open spec fn hunk_display_range(diff: FileDiff, hunk: int) -> Option<(int, int)> {
    if 0 <= hunk < diff.hunks@.len() && display_start(diff, hunk) < display_start(diff, hunk + 1) {
        Some((display_start(diff, hunk), display_start(diff, hunk + 1)))
    } else {
        None
    }
}

pub open spec fn range_option(range: Option<(usize, usize)>) -> Option<(int, int)> {
    match range {
        Some((start, end)) => Some((start as int, end as int)),
        None => None,
    }
}

pub proof fn lemma_hunk_rows(types: Seq<DiffLineType>, i: int, base: int, hunk: int)
    requires
        0 <= i <= types.len(),
    ensures
        forall|r: int|
            0 <= r < hunk_rows(types, i, base, hunk).len() ==> (#[trigger] hunk_rows(
                types,
                i,
                base,
                hunk,
            )[r]).hunk() == Some(hunk),
        hunk_rows(types, i, base, hunk).len() <= types.len() - i,
        i < types.len() ==> hunk_rows(types, i, base, hunk).len() > 0,
    decreases types.len() - i,
{
    if i < types.len() {
        if types[i] == DiffLineType::Delete {
            let mid = run_end(types, i, DiffLineType::Delete);
            let to = run_end(types, mid, DiffLineType::Add);
            lemma_run_end(types, i, DiffLineType::Delete);
            lemma_run_end(types, mid, DiffLineType::Add);
            lemma_hunk_rows(types, to, base, hunk);
        } else {
            lemma_hunk_rows(types, i + 1, base, hunk);
        }
    }
}

pub proof fn lemma_layout_grows(hunks: Seq<Hunk>, j: int, k: int)
    requires
        0 <= j <= k,
    ensures
        layout_of_hunks(hunks, j).len() <= layout_of_hunks(hunks, k).len(),
        forall|i: int|
            0 <= i < layout_of_hunks(hunks, j).len() ==> #[trigger] layout_of_hunks(hunks, k)[i]
                == layout_of_hunks(hunks, j)[i],
    decreases k,
{
    if j < k {
        lemma_layout_grows(hunks, j, k - 1);
    }
}

proof fn lemma_layout_hunks_below(hunks: Seq<Hunk>, k: int)
    requires
        0 <= k <= hunks.len(),
    ensures
        layout_of_hunks(hunks, k).len() <= lines_of_hunks(hunks, k).len(),
        forall|i: int|
            0 <= i < layout_of_hunks(hunks, k).len() ==> {
                &&& (#[trigger] layout_of_hunks(hunks, k)[i]).hunk() is Some
                &&& 0 <= layout_of_hunks(hunks, k)[i].hunk()->0 < k
            },
    decreases k,
{
    if k > 0 {
        lemma_layout_hunks_below(hunks, k - 1);
        lemma_hunk_rows(
            line_types(hunks[k - 1].lines@),
            0,
            lines_of_hunks(hunks, k - 1).len() as int,
            k - 1,
        );
    }
}

/// The side-by-side view never has more display lines than the diff has lines.
pub proof fn law_layout_not_longer(diff: FileDiff)
    ensures
        side_by_side_layout(diff).len() <= diff.raw_lines().len(),
{
    lemma_layout_hunks_below(diff.hunks@, diff.hunks@.len() as int);
}

/// The display lines of a hunk are next to each other: a display line belongs to
/// the hunk exactly when it lies in the hunk's range.
pub proof fn law_hunk_is_contiguous(diff: FileDiff, hunk: int, i: int)
    requires
        0 <= i < side_by_side_layout(diff).len(),
    ensures
        side_by_side_layout(diff)[i].hunk() == Some(hunk) <==> match hunk_display_range(diff, hunk) {
            Some((start, end)) => start <= i < end,
            None => false,
        },
        hunk_display_range(diff, hunk) matches Some((start, end)) ==> 0 <= start < end
            <= side_by_side_layout(diff).len(),
{
    let hunks = diff.hunks@;
    let n = hunks.len() as int;
    lemma_layout_hunks_below(hunks, n);
    if 0 <= hunk < n {
        lemma_layout_grows(hunks, hunk + 1, n);
        lemma_layout_grows(hunks, hunk, hunk + 1);
        lemma_layout_hunks_below(hunks, hunk);
        let types = line_types(hunks[hunk].lines@);
        let base = lines_of_hunks(hunks, hunk).len() as int;
        lemma_hunk_rows(types, 0, base, hunk);
        if i < display_start(diff, hunk) {
            assert(layout_of_hunks(hunks, hunk + 1)[i] == layout_of_hunks(hunks, hunk)[i]);
        } else if i < display_start(diff, hunk + 1) {
            assert(layout_of_hunks(hunks, hunk + 1)[i] == hunk_rows(types, 0, base, hunk)[i
                - display_start(diff, hunk)]);
        } else {
            lemma_layout_hunks_from(hunks, hunk + 1, n, i);
        }
    }
}

proof fn lemma_layout_hunks_from(hunks: Seq<Hunk>, j: int, k: int, i: int)
    requires
        0 <= j <= k <= hunks.len(),
        layout_of_hunks(hunks, j).len() <= i < layout_of_hunks(hunks, k).len(),
    ensures
        layout_of_hunks(hunks, k)[i].hunk() is Some,
        layout_of_hunks(hunks, k)[i].hunk()->0 >= j,
    decreases k,
{
    if layout_of_hunks(hunks, k - 1).len() <= i {
        let types = line_types(hunks[k - 1].lines@);
        let base = lines_of_hunks(hunks, k - 1).len() as int;
        lemma_hunk_rows(types, 0, base, k - 1);
        assert(layout_of_hunks(hunks, k)[i] == hunk_rows(types, 0, base, k - 1)[i
            - layout_of_hunks(hunks, k - 1).len()]);
    } else {
        lemma_layout_hunks_from(hunks, j, k - 1, i);
    }
}

/// Every hunk that has lines has display lines.
pub proof fn law_hunk_has_display_range(diff: FileDiff, hunk: int)
    requires
        0 <= hunk < diff.hunks@.len(),
    ensures
        hunk_display_range(diff, hunk) is Some <==> diff.hunks@[hunk].lines@.len() > 0,
{
    lemma_hunk_rows(
        line_types(diff.hunks@[hunk].lines@),
        0,
        lines_of_hunks(diff.hunks@, hunk).len() as int,
        hunk,
    );
}

/// The display lines of a hunk, from the first to the one past the last.
pub fn side_by_side_hunk_range(diff: &FileDiff, hunk_index: usize) -> (range: Option<
    (usize, usize),
>)
    requires
        diff.fits(),
    ensures
        range_option(range) == hunk_display_range(*diff, hunk_index as int),
{
    let lines = build_side_by_side_lines(diff);
    let mut start: Option<usize> = None;
    let mut end: Option<usize> = None;
    let ghost layout = side_by_side_layout(*diff);
    let ghost whole = hunk_display_range(*diff, hunk_index as int);
    proof {
        if layout.len() > 0 {
            law_hunk_is_contiguous(*diff, hunk_index as int, 0);
        } else if 0 <= hunk_index < diff.hunks@.len() {
            lemma_layout_grows(diff.hunks@, hunk_index + 1, diff.hunks@.len() as int);
        }
        law_layout_not_longer(*diff);
    }
    for display_index in 0..lines.len()
        invariant
            diff.fits(),
            rows(lines@) == layout,
            layout == side_by_side_layout(*diff),
            layout.len() <= diff.raw_lines().len(),
            whole == hunk_display_range(*diff, hunk_index as int),
            whole matches Some((s, e)) ==> 0 <= s < e <= layout.len(),
            match whole {
                Some((s, e)) => if display_index <= s {
                    start is None && end is None
                } else {
                    start == Some(s as usize) && end == Some(
                        (if display_index <= e { display_index as int } else { e }) as usize,
                    )
                },
                None => start is None && end is None,
            },
    {
        proof {
            law_hunk_is_contiguous(*diff, hunk_index as int, display_index as int);
            assert(layout[display_index as int] == lines@[display_index as int].row());
        }
        if let Some(hunk) = lines[display_index].hunk_index() {
            if hunk == hunk_index {
                if start.is_none() {
                    start = Some(display_index);
                }
                end = Some(display_index.saturating_add(1));
            }
        }
    }
    match (start, end) {
        (Some(start), Some(end)) => Some((start, end)),
        _ => None,
    }
}

/// The positions of the changed lines among the given raw lines.
pub open spec fn changed_positions(indices: Seq<int>, raw: Seq<DiffLine>) -> Seq<
    DiffLinePosition,
>
    decreases indices.len(),
{
    if indices.len() == 0 {
        Seq::empty()
    } else {
        let before = changed_positions(indices.drop_last(), raw);
        let i = indices.last();
        if 0 <= i < raw.len() && is_change(raw[i].line_type) {
            before.push(raw[i].position)
        } else {
            before
        }
    }
}

/// The raw lines that the chosen ones of the first `n` display lines stand for.
pub open spec fn chosen_raw_indices(
    layout: Seq<DisplayRow>,
    chosen: spec_fn(int) -> bool,
    n: int,
) -> Seq<int>
    decreases n,
{
    if n <= 0 {
        Seq::empty()
    } else if chosen(n - 1) {
        chosen_raw_indices(layout, chosen, n - 1) + layout[n - 1].raw_indices()
    } else {
        chosen_raw_indices(layout, chosen, n - 1)
    }
}

/// The positions of the changed lines that the chosen display lines stand for.
pub open spec fn side_by_side_positions(diff: FileDiff, chosen: spec_fn(int) -> bool) -> Seq<
    DiffLinePosition,
> {
    let layout = side_by_side_layout(diff);
    changed_positions(
        chosen_raw_indices(layout, chosen, layout.len() as int),
        diff.raw_lines(),
    )
}

/// What is chosen by a list of answers.
pub open spec fn answered(answers: Seq<bool>) -> spec_fn(int) -> bool {
    |i: int| 0 <= i < answers.len() && answers[i]
}

/// The list holds an answer of `contains` for each of its indices.
pub open spec fn answers_of<F: Fn(usize) -> bool>(contains: F, answers: Seq<bool>) -> bool {
    forall|i: int|
        0 <= i < answers.len() ==> call_ensures(
            contains,
            (i as usize,),
            #[trigger] answers[i],
        )
}

/// Whatever `contains` answers, it answers `chosen`.
pub open spec fn decides<F: Fn(usize) -> bool>(contains: F, chosen: spec_fn(int) -> bool) -> bool {
    forall|i: usize, answer: bool| #[trigger]
        call_ensures(contains, (i,), answer) ==> answer == chosen(i as int)
}

proof fn lemma_same_choice(
    layout: Seq<DisplayRow>,
    a: spec_fn(int) -> bool,
    b: spec_fn(int) -> bool,
    n: int,
)
    requires
        forall|i: int| 0 <= i < n ==> #[trigger] a(i) == b(i),
    ensures
        chosen_raw_indices(layout, a, n) == chosen_raw_indices(layout, b, n),
    decreases n,
{
    if n > 0 {
        lemma_same_choice(layout, a, b, n - 1);
        assert(a(n - 1) == b(n - 1));
    }
}

/// All lines of a diff in order.
pub fn raw_diff_lines<'a>(diff: &'a FileDiff) -> (lines: Vec<&'a DiffLine>)
    ensures
        lines@.unref() == diff.raw_lines(),
{
    let mut lines: Vec<&'a DiffLine> = Vec::new();
    assert(lines@.unref() == lines_of_hunks(diff.hunks@, 0));
    for h in 0..diff.hunks.len()
        invariant
            lines@.unref() == lines_of_hunks(diff.hunks@, h as int),
    {
        let hunk = &diff.hunks[h];
        let ghost before = lines@.unref();
        assert(before + hunk.lines@.take(0) == before);
        for i in 0..hunk.lines.len()
            invariant
                lines@.unref() == before + hunk.lines@.take(i as int),
        {
            let ghost prior = lines@.unref();
            lines.push(&hunk.lines[i]);
            assert(lines@.unref() == prior.push(hunk.lines@[i as int]));
            assert(hunk.lines@.take(i + 1) == hunk.lines@.take(i as int).push(
                hunk.lines@[i as int],
            ));
            assert(lines@.unref() == before + hunk.lines@.take(i + 1));
        }
        assert(hunk.lines@.take(hunk.lines@.len() as int) == hunk.lines@);
    }
    lines
}

/// The positions of the changed lines that the display lines chosen by `contains`
/// stand for: whatever it answered for each of them, and exactly those of a
/// choice that it decides.
pub fn side_by_side_selected_positions<F: Fn(usize) -> bool>(
    diff: &FileDiff,
    contains: F,
) -> (positions: Vec<DiffLinePosition>)
    requires
        diff.fits(),
        forall|i: usize| #[trigger] call_requires(contains, (i,)),
    ensures
        exists|answers: Seq<bool>|
            {
                &&& answers.len() == side_by_side_layout(*diff).len()
                &&& #[trigger] answers_of(contains, answers)
                &&& positions@ == side_by_side_positions(*diff, answered(answers))
            },
        forall|chosen: spec_fn(int) -> bool|
            decides(contains, chosen) ==> positions@ == #[trigger] side_by_side_positions(
                *diff,
                chosen,
            ),
{
    let raw_lines = raw_diff_lines(diff);
    let lines = build_side_by_side_lines(diff);
    let ghost raw = diff.raw_lines();
    let ghost layout = side_by_side_layout(*diff);
    let mut positions: Vec<DiffLinePosition> = Vec::new();
    let ghost mut answers: Seq<bool> = Seq::empty();
    for display_index in 0..lines.len()
        invariant
            forall|i: usize| #[trigger] call_requires(contains, (i,)),
            raw == diff.raw_lines(),
            raw_lines@.unref() == raw,
            rows(lines@) == layout,
            all_show(lines@, raw),
            answers.len() == display_index,
            answers_of(contains, answers),
            positions@ == changed_positions(
                chosen_raw_indices(layout, answered(answers), display_index as int),
                raw,
            ),
    {
        let chosen: bool = contains(display_index);
        let ghost before = chosen_raw_indices(layout, answered(answers), display_index as int);
        proof {
            let earlier = answers;
            answers = earlier.push(chosen);
            lemma_same_choice(
                layout,
                answered(earlier),
                answered(answers),
                display_index as int,
            );
        }
        if chosen {
            let line = &lines[display_index];
            let indices = line.raw_diff_indices();
            let ghost shown = layout[display_index as int].raw_indices();
            proof {
                assert(layout[display_index as int] == line.row());
                assert(lines@[display_index as int].shows(raw));
                assert(ints(indices@) =~= shown);
                assert(before + shown.take(0) == before);
            }
            for k in 0..indices.len()
                invariant
                    raw_lines@.unref() == raw,
                    ints(indices@) == shown,
                    positions@ == changed_positions(before + shown.take(k as int), raw),
            {
                proof {
                    let now = before + shown.take(k + 1);
                    assert(now.drop_last() == before + shown.take(k as int));
                    assert(now.last() == indices@[k as int] as int);
                }
                let raw_index: usize = indices[k];
                if raw_index < raw_lines.len() {
                    let line = raw_lines[raw_index];
                    assert(*line == raw[raw_index as int]) by {
                        assert(raw_lines@.unref()[raw_index as int] == *line);
                    }
                    if line.line_type == DiffLineType::Add || line.line_type
                        == DiffLineType::Delete {
                        positions.push(line.position);
                    }
                }
            }
            assert(shown.take(indices@.len() as int) == shown);
        }
    }
    proof {
        assert(layout.len() == lines@.len());
        assert forall|chosen: spec_fn(int) -> bool| decides(contains, chosen) implies positions@
            == #[trigger] side_by_side_positions(*diff, chosen) by {
            assert forall|i: int| 0 <= i < layout.len() implies #[trigger] answered(answers)(i)
                == chosen(i) by {
                assert(call_ensures(contains, (i as usize,), answers[i]));
            }
            lemma_same_choice(layout, answered(answers), chosen, layout.len() as int);
        }
        assert(answers_of(contains, answers));
    }
    positions
}

} // verus!
