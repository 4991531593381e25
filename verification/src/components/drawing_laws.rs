//! What is seen of a diff: which text, marks and styles its lines are drawn with,
//! and which lines are in view.

use vstd::prelude::*;

use crate::components::diff::DiffComponent;
use crate::components::diff_display::{side_by_side_layout, DisplayRow};
use crate::components::diff_render::{
    binary_line, cell_line, cell_type, ended, header_line, line_text, owned, pieces_columns,
    row_lines, side_lines, sizes_line, unified_line, with_padding,
};

use crate::components::diff_wrap::{
    glyph_text, glyphs, joined_lines, law_wrapping_keeps_text, lemma_fragment_text,
    lemma_glyph_text_add, wrapped,
};
use crate::model::{DiffLine, DiffLineType, FileDiff};
use crate::string_utils::{
    blank, byte_size_text, display_width, expand_tabs, grapheme_clusters,
    law_scrolling_narrow_text, padded, scrolled,
};
use crate::ui::diff_syntax::{
    drawn_highlight, drawn_pieces, scrolled_pieces, side_highlight, unified_highlight,
    HighlightedDiff,
};
use crate::ui::style::{span_text, SpanText, Style, Theme};

verus! {

/// A line is drawn with its content, tabs replaced. Only a line that is empty and
/// not an unchanged one shows the theme's mark instead.
pub proof fn law_line_is_drawn_with_its_content(line: DiffLine, theme: Theme)
    ensures
        line.content@.len() > 0 || line.line_type == DiffLineType::Context ==> line_text(line, theme)
            == expand_tabs(line.content@),
        line.content@.len() == 0 && line.line_type != DiffLineType::Context ==> line_text(
            line,
            theme,
        ) == theme.line_break@,
{
}

/// A line of the unified view that has no highlighting is drawn as a mark and its
/// scrolled text. The mark is a lower corner on the last line of a hunk, an upper
/// one on another header, and a bar elsewhere, in the style of the selected or of
/// another hunk. The text is in the style of its kind and ends in a line feed; a
/// selected line is filled with spaces before it.
pub proof fn law_unified_line_shows_its_text(
    width: int,
    line: DiffLine,
    selected: bool,
    selected_hunk: bool,
    end_of_hunk: bool,
    theme: Theme,
    scrolled_right: int,
    highlighted: Option<HighlightedDiff>,
)
    requires
        width >= 0,
        scrolled_right >= 0,
        highlighted matches Some(diff) ==> unified_highlight(line, diff) is None,
    ensures
        ({
            let drawn = unified_line(
                width,
                line,
                selected,
                selected_hunk,
                end_of_hunk,
                theme,
                scrolled_right,
                highlighted,
            );
            let text = scrolled(line_text(line, theme), scrolled_right as nat);
            &&& drawn.len() == 2
            &&& end_of_hunk ==> drawn[0].content == seq!['└']
            &&& !end_of_hunk && line.line_type == DiffLineType::Header ==> drawn[0].content
                == seq!['┌']
            &&& !end_of_hunk && line.line_type != DiffLineType::Header ==> drawn[0].content
                == seq!['│']
            &&& drawn[0].style == theme.hunk_marker.of(selected_hunk)
            &&& drawn[1].style == theme.line_style(line.line_type, selected)
            &&& !selected ==> drawn[1].content == text + seq!['\n']
            &&& selected ==> drawn[1].content == padded(text, width as nat) + seq!['\n']
        }),
{
    let text = scrolled(line_text(line, theme), scrolled_right as nat);
    assert(text.push('\n') =~= text + seq!['\n']);
    assert(padded(text, width as nat).push('\n') =~= padded(text, width as nat) + seq!['\n']);
}

/// A line of the unified view that has highlighting is drawn as its mark and the
/// highlighted pieces, filled where it is selected, with a line feed at the end.
pub proof fn law_unified_line_shows_its_highlight(
    width: int,
    line: DiffLine,
    selected: bool,
    selected_hunk: bool,
    end_of_hunk: bool,
    theme: Theme,
    scrolled_right: int,
    highlighted: HighlightedDiff,
)
    requires
        unified_highlight(line, highlighted) is Some,
    ensures
        ({
            let drawn = unified_line(
                width,
                line,
                selected,
                selected_hunk,
                end_of_hunk,
                theme,
                scrolled_right,
                Some(highlighted),
            );
            &&& drawn.len() >= 1
            &&& drawn[0] == unified_line(
                width,
                line,
                selected,
                selected_hunk,
                end_of_hunk,
                theme,
                scrolled_right,
                None,
            )[0]
            &&& drawn.skip(1) == drawn_highlight(
                unified_highlight(line, highlighted)->0@,
                line.line_type,
                selected,
                theme,
                scrolled_right,
                width,
                selected,
                true,
            )
        }),
{
    let drawn = unified_line(
        width,
        line,
        selected,
        selected_hunk,
        end_of_hunk,
        theme,
        scrolled_right,
        Some(highlighted),
    );
    assert(drawn.skip(1) =~= drawn_highlight(
        unified_highlight(line, highlighted)->0@,
        line.line_type,
        selected,
        theme,
        scrolled_right,
        width,
        selected,
        true,
    ));
}

/// A header of the side-by-side view is drawn as an upper corner and its scrolled
/// content, filled where it is selected, with a line feed at the end.
pub proof fn law_header_shows_its_text(
    width: int,
    line: DiffLine,
    selected: bool,
    selected_hunk: bool,
    theme: Theme,
    scrolled_right: int,
)
    requires
        width >= 0,
        scrolled_right >= 0,
    ensures
        ({
            let drawn = header_line(width, line, selected, selected_hunk, theme, scrolled_right);
            let text = scrolled(expand_tabs(line.content@), scrolled_right as nat);
            let room = if width >= 3 { width - 3 } else { 0 };
            &&& drawn.len() == 2
            &&& drawn[0] == span_text(seq!['┌'], theme.hunk_marker.of(selected_hunk))
            &&& drawn[1].style == theme.line_style(DiffLineType::Header, selected)
            &&& !selected ==> drawn[1].content == text + seq!['\n']
            &&& selected ==> drawn[1].content == padded(text, room as nat) + seq!['\n']
        }),
{
    let text = scrolled(expand_tabs(line.content@), scrolled_right as nat);
    let room = if width >= 3 { width - 3 } else { 0 };
    assert(text.push('\n') =~= text + seq!['\n']);
    assert(padded(text, room as nat).push('\n') =~= padded(text, room as nat) + seq!['\n']);
}

/// The pieces of one fragment, put back together.
proof fn lemma_one_fragment(fragment: SpanText, width: int)
    requires
        width > 0,
    ensures
        joined_lines(wrapped(seq![fragment], width)) == grapheme_clusters(
            fragment.content,
        ).flatten(),
{
    let fragments = seq![fragment];
    law_wrapping_keeps_text(fragments, width);
    reveal_with_fuel(glyphs, 2);
    lemma_glyph_text_add(
        Seq::empty(),
        crate::components::diff_wrap::fragment_glyphs(fragment, 0),
    );
    lemma_fragment_text(fragment, 0);
    assert(glyph_text(Seq::empty()) + grapheme_clusters(fragment.content).flatten()
        =~= grapheme_clusters(fragment.content).flatten());
}

/// A cell without highlighting shows the scrolled text of its line: its wrapped
/// lines, put together, are the clusters of that text. Where every cluster of the
/// line takes one column, the text is the line without as many clusters as it is
/// scrolled by.
pub proof fn law_cell_shows_scrolled_text(
    line: DiffLine,
    width: int,
    selected: bool,
    use_old_side: bool,
    highlighted: Option<HighlightedDiff>,
    theme: Theme,
    scrolled_right: nat,
)
    requires
        width > 0,
        highlighted matches Some(diff) ==> side_highlight(line, use_old_side, diff) is None,
        forall|i: int|
            0 <= i < grapheme_clusters(line_text(line, theme)).len() ==> display_width(
                #[trigger] grapheme_clusters(line_text(line, theme))[i],
            ) == 1,
    ensures
        ({
            let clusters = grapheme_clusters(line_text(line, theme));
            let rest = clusters.skip(
                if scrolled_right <= clusters.len() {
                    scrolled_right as int
                } else {
                    clusters.len() as int
                },
            ).flatten();
            joined_lines(
                side_lines(
                    Some(line),
                    width,
                    selected,
                    use_old_side,
                    highlighted,
                    theme,
                    scrolled_right as int,
                ),
            ) == grapheme_clusters(rest).flatten()
        }),
{
    let text = line_text(line, theme);
    law_scrolling_narrow_text(text, scrolled_right);
    lemma_one_fragment(
        span_text(scrolled(text, scrolled_right), theme.line_style(line.line_type, selected)),
        width,
    );
}

/// A cell is made of one fragment in the style of its line's kind, or of its
/// highlighted pieces; without a line it shows nothing.
pub proof fn law_cell_is_wrapped_from_its_line(
    line: DiffLine,
    width: int,
    selected: bool,
    use_old_side: bool,
    highlighted: Option<HighlightedDiff>,
    theme: Theme,
    scrolled_right: nat,
)
    ensures
        side_lines(
            None,
            width,
            selected,
            use_old_side,
            highlighted,
            theme,
            scrolled_right as int,
        ) == wrapped(Seq::empty(), width),
        (highlighted matches Some(diff) ==> side_highlight(line, use_old_side, diff) is None)
            ==> side_lines(
            Some(line),
            width,
            selected,
            use_old_side,
            highlighted,
            theme,
            scrolled_right as int,
        ) == wrapped(
            seq![
                span_text(
                    scrolled(line_text(line, theme), scrolled_right),
                    theme.line_style(line.line_type, selected),
                ),
            ],
            width,
        ),
        (highlighted matches Some(diff) && side_highlight(line, use_old_side, diff) is Some)
            ==> side_lines(
            Some(line),
            width,
            selected,
            use_old_side,
            highlighted,
            theme,
            scrolled_right as int,
        ) == wrapped(
            drawn_pieces(
                scrolled_pieces(
                    side_highlight(line, use_old_side, highlighted->0)->0@,
                    scrolled_right as int,
                ),
                line.line_type,
                selected,
                theme,
            ),
            width,
        ),
        cell_type(Some(line)) == line.line_type,
        cell_type(None) == DiffLineType::Context,
{
}

/// A line of a cell is the wrapped line, or nothing past the last one, and behind
/// it as many spaces as it lacks columns, in the style of the cell.
pub proof fn law_cell_line_is_filled(
    lines: Seq<Seq<SpanText>>,
    i: int,
    width: int,
    style: Style,
)
    requires
        0 <= i,
        0 <= width,
    ensures
        ({
            let own = if i < lines.len() { lines[i] } else { Seq::empty() };
            let drawn = cell_line(lines, i, width, style);
            let lacking = width - pieces_columns(own);
            &&& lacking <= 0 ==> drawn == own
            &&& lacking > 0 ==> drawn.len() == own.len() + 1 && drawn.take(own.len() as int) == own
                && drawn.last() == span_text(blank(lacking as nat), style)
        }),
{
    let own = if i < lines.len() { lines[i] } else { Seq::empty() };
    let drawn = cell_line(lines, i, width, style);
    if width > pieces_columns(own) {
        assert(drawn.take(own.len() as int) =~= own);
    }
}

/// The columns of pieces are those of each piece together.
pub proof fn law_columns_add_up(pieces: Seq<SpanText>, piece: SpanText)
    ensures
        pieces_columns(Seq::empty()) == 0,
        pieces_columns(pieces.push(piece)) == pieces_columns(pieces) + display_width(
            piece.content,
        ),
{
    assert(pieces.push(piece).drop_last() == pieces);
}

/// A row takes as many lines as the higher of its cells. Each line holds the mark,
/// the line of the left cell, a bar, the line of the right cell and a line feed, in
/// this order. The left cell shows the old side and the right cell the new one. Only
/// the last line of the last row of a hunk has a lower corner as its mark.
pub proof fn law_row_shows_both_cells(
    left: Option<DiffLine>,
    right: Option<DiffLine>,
    cell_width: int,
    selected: bool,
    selected_hunk: bool,
    end_of_hunk: bool,
    highlighted: Option<HighlightedDiff>,
    theme: Theme,
    scrolled_right: int,
    k: int,
)
    ensures
        ({
            let drawn = row_lines(
                left,
                right,
                cell_width,
                selected,
                selected_hunk,
                end_of_hunk,
                highlighted,
                theme,
                scrolled_right,
            );
            let left_lines = side_lines(
                left,
                cell_width,
                selected,
                true,
                highlighted,
                theme,
                scrolled_right,
            );
            let right_lines = side_lines(
                right,
                cell_width,
                selected,
                false,
                highlighted,
                theme,
                scrolled_right,
            );
            let left_style = theme.line_style(
                match left {
                    Some(line) => line.line_type,
                    None => DiffLineType::Context,
                },
                selected,
            );
            let right_style = theme.line_style(
                match right {
                    Some(line) => line.line_type,
                    None => DiffLineType::Context,
                },
                selected,
            );
            &&& left_lines.len() >= right_lines.len() ==> drawn.len() == left_lines.len()
            &&& right_lines.len() >= left_lines.len() ==> drawn.len() == right_lines.len()
            &&& 0 <= k < drawn.len() ==> drawn[k] == seq![
                span_text(
                    if end_of_hunk && k == drawn.len() - 1 { seq!['└'] } else { seq!['│'] },
                    theme.hunk_marker.of(selected_hunk),
                ),
            ] + cell_line(left_lines, k, cell_width, left_style) + seq![
                span_text(seq!['│'], theme.hunk_marker.of(selected)),
            ] + cell_line(right_lines, k, cell_width, right_style) + seq![
                span_text(seq!['\n'], right_style),
            ]
        }),
{
}

/// The side-by-side view draws a header in the whole width and a row in two cells,
/// with the raw lines that the layout names. A display line is selected if the
/// selection has it and the component is focused, and so is the mark of its hunk if
/// that is the selected one. A hunk ends where the next display line belongs to
/// another one.
pub proof fn law_display_line_shows_its_lines(
    component: DiffComponent,
    diff: FileDiff,
    i: int,
    width: int,
    highlighted: Option<HighlightedDiff>,
)
    requires
        0 <= i < side_by_side_layout(diff).len(),
    ensures
        ({
            let layout = side_by_side_layout(diff);
            let raw = diff.raw_lines();
            let selected = component.focused && component.selection.has(i);
            let hunk = layout[i].hunk();
            let selected_hunk = component.focused && hunk is Some && component.selected_hunk is Some
                && hunk->0 == component.selected_hunk->0;
            let end_of_hunk = i == layout.len() - 1 || layout[i + 1].hunk() != hunk;
            let drawn = component.display_line_text(diff, i, width, highlighted);
            match layout[i] {
                DisplayRow::Header { raw: r, .. } => drawn == seq![
                    header_line(
                        width,
                        raw[r],
                        selected,
                        selected_hunk,
                        component.theme,
                        component.scroll.right as int,
                    ),
                ],
                DisplayRow::Row { left, right, .. } => drawn == row_lines(
                    if left is Some { Some(raw[left->0]) } else { None },
                    if right is Some { Some(raw[right->0]) } else { None },
                    component.cell_width(),
                    selected,
                    selected_hunk,
                    end_of_hunk,
                    highlighted,
                    component.theme,
                    component.scroll.right as int,
                ),
            }
        }),
{
}

/// The side-by-side view draws its display lines one below the other, from the
/// first in view on: as many as fit, and one more if there is one.
pub proof fn law_side_by_side_view_shows_lines_in_view(
    component: DiffComponent,
    diff: FileDiff,
    width: int,
    height: int,
    highlighted: Option<HighlightedDiff>,
)
    requires
        0 <= height,
    ensures
        ({
            let top = component.scroll.top as int;
            let total = side_by_side_layout(diff).len() as int;
            let count = if total <= top {
                0
            } else if total - top <= height + 1 {
                total - top
            } else {
                height + 1
            };
            component.side_by_side_text(diff, width, height, highlighted) == Seq::new(
                count as nat,
                |k: int| component.display_line_text(diff, top + k, width, highlighted),
            ).flatten()
        }),
{
    let top = component.scroll.top as int;
    let total = side_by_side_layout(diff).len() as int;
    let end = if total <= top + height + 1 { total } else { top + height + 1 };
    lemma_display_lines(component, diff, top, end, width, highlighted);
}

proof fn lemma_display_lines(
    component: DiffComponent,
    diff: FileDiff,
    from: int,
    to: int,
    width: int,
    highlighted: Option<HighlightedDiff>,
)
    ensures
        component.display_lines_text(diff, from, to, width, highlighted) == Seq::new(
            (if to <= from { 0 } else { to - from }) as nat,
            |k: int| component.display_line_text(diff, from + k, width, highlighted),
        ).flatten(),
    decreases to - from,
{
    let show = |k: int| component.display_line_text(diff, from + k, width, highlighted);
    if to > from {
        lemma_display_lines(component, diff, from, to - 1, width, highlighted);
        let before = Seq::new((to - 1 - from) as nat, show);
        let all = Seq::new((to - from) as nat, show);
        assert(all =~= before.push(component.display_line_text(diff, to - 1, width, highlighted)));
        before.lemma_flatten_push(component.display_line_text(diff, to - 1, width, highlighted));
    }
}

/// The unified view draws the raw lines from the first in view on, one after
/// another. A line is selected if the selection has it and the component is
/// focused, and so is its mark if it stands in the selected hunk; the last line of
/// a hunk has the mark of the hunk's end.
pub proof fn law_unified_view_shows_lines_in_order(
    component: DiffComponent,
    diff: FileDiff,
    width: int,
    height: int,
    highlighted: Option<HighlightedDiff>,
    h: int,
    k: int,
)
    requires
        0 <= k < component.unified_text(diff, width, height, highlighted).len(),
        diff.in_hunk(component.scroll.top + k, h),
    ensures
        component.unified_text(diff, width, height, highlighted)[k] == unified_line(
            width,
            diff.raw_lines()[component.scroll.top + k],
            component.focused && component.selection.has(component.scroll.top + k),
            component.focused && component.selected_hunk is Some && component.selected_hunk->0 == h,
            component.scroll.top + k + 1 == diff.hunk_start(h) + diff.hunks@[h].lines@.len(),
            component.theme,
            component.scroll.right as int,
            highlighted,
        ),
{
    let i = component.scroll.top + k;
    crate::model::law_hunks_follow_each_other(diff, h, 0);
    if let Some(selected) = component.selected_hunk {
        if diff.in_hunk(i, selected as int) {
            crate::model::lemma_one_hunk_per_line(diff, i, selected as int, h);
        }
    }
    crate::components::diff_text::lemma_line_in_hunk(diff, h, i);
}

/// The unified view draws as many lines as fit, as far as there are lines. The line
/// below those is drawn too, unless it is the first of a hunk.
pub proof fn law_unified_view_is_exactly_filled(
    component: DiffComponent,
    diff: FileDiff,
    width: int,
    height: int,
    highlighted: Option<HighlightedDiff>,
)
    requires
        0 <= height,
    ensures
        ({
            let top = component.scroll.top as int;
            let total = diff.raw_lines().len() as int;
            let drawn = component.unified_text(diff, width, height, highlighted).len() as int;
            let hunk_below = exists|h: int|
                0 <= h < diff.hunks@.len() && #[trigger] diff.hunk_start(h) == top + height
                    && diff.hunks@[h].lines@.len() > 0;
            &&& height == 0 || total <= top ==> drawn == 0
            &&& 0 < height && top < total <= top + height ==> drawn == total - top
            &&& 0 < height && top + height < total && hunk_below ==> drawn == height
            &&& 0 < height && top + height < total && !hunk_below ==> drawn == height + 1
        }),
{
    let top = component.scroll.top as int;
    let max = top + height;
    if crate::components::diff_text::starts_hunk(diff, max) {
        let h = choose|h: int| #[trigger] diff.in_hunk(max, h) && diff.hunk_start(h) == max;
        crate::model::law_hunks_follow_each_other(diff, h, max);
        assert(diff.hunk_start(h) == top + height);
    }
    if exists|h: int|
        0 <= h < diff.hunks@.len() && #[trigger] diff.hunk_start(h) == max
            && diff.hunks@[h].lines@.len() > 0 {
        let h = choose|h: int|
            0 <= h < diff.hunks@.len() && #[trigger] diff.hunk_start(h) == max
                && diff.hunks@[h].lines@.len() > 0;
        crate::model::law_hunks_follow_each_other(diff, h, max);
        assert(diff.in_hunk(max, h));
    }
}

/// Only a highlighted diff that is ready is drawn from. A diff with hunks is drawn
/// side by side or one line below the other, one without hunks in a single line,
/// and without a diff there is nothing to draw.
pub proof fn law_text_is_drawn_in_one_way(component: DiffComponent, width: int, height: int)
    ensures
        component.ready_highlight() == if component.syntax_cache is Some
            && component.syntax_cache->0@.status is Ready {
            component.syntax_cache
        } else {
            None
        },
        component.diff is None ==> component.text(width, height).len() == 0,
        component.diff matches Some(diff) ==> {
            &&& diff.hunks@.len() == 0 ==> component.text(width, height) == seq![
                binary_line(diff, component.theme),
            ]
            &&& diff.hunks@.len() > 0 && component.drawn_side_by_side() ==> component.text(
                width,
                height,
            ) == component.side_by_side_text(diff, width, height, component.ready_highlight())
            &&& diff.hunks@.len() > 0 && !component.drawn_side_by_side() ==> component.text(
                width,
                height,
            ) == component.unified_text(diff, width, height, component.ready_highlight())
        },
{
}

/// A diff without hunks is drawn with the size of the file before, its size after,
/// and by how much it grew or shrank, in the colour of an addition or of a
/// deletion.
pub proof fn law_sizes_are_drawn(diff: FileDiff, theme: Theme)
    ensures
        ({
            let drawn = binary_line(diff, theme);
            let grows = diff.size_delta >= 0;
            let distance = if grows { diff.size_delta as int } else { -diff.size_delta };
            &&& drawn.len() == 7
            &&& drawn[0].content == "size: "@
            &&& drawn[1] == span_text(byte_size_text(diff.sizes.0), theme.text)
            &&& drawn[2].content == " -> "@
            &&& drawn[3] == span_text(byte_size_text(diff.sizes.1), theme.text)
            &&& drawn[4].content == " ("@
            &&& drawn[5].content == seq![if grows { '+' } else { '-' }] + byte_size_text(
                distance as u64,
            )
            &&& drawn[5].style == if grows { theme.add.normal } else { theme.delete.normal }
            &&& drawn[6].content == ")"@
        }),
{
}

/// Sizes are drawn one after the other, with the distance between them in brackets,
/// signed and coloured by whether the file grew.
pub proof fn law_sizes_line_holds_both_sizes(
    old_size: Seq<char>,
    new_size: Seq<char>,
    grows: bool,
    distance: Seq<char>,
    theme: Theme,
)
    ensures
        ({
            let line = sizes_line(old_size, new_size, grows, distance, theme);
            &&& line.len() == 7
            &&& line[0] == span_text("size: "@, Style::plain())
            &&& line[1] == span_text(old_size, theme.text)
            &&& line[2] == span_text(" -> "@, Style::plain())
            &&& line[3] == span_text(new_size, theme.text)
            &&& line[4] == span_text(" ("@, Style::plain())
            &&& line[5].content == seq![if grows { '+' } else { '-' }] + distance
            &&& line[5].style == if grows { theme.add.normal } else { theme.delete.normal }
            &&& line[6] == span_text(")"@, Style::plain())
        }),
{
}

/// A line ends in one line feed; before it come the text and, if it is selected,
/// spaces. Pieces are filled with one more piece of spaces, and only where some are
/// asked for.
pub proof fn law_fill_comes_after_text(
    text: Seq<char>,
    width: int,
    pieces: Seq<SpanText>,
    padding: int,
    style: Style,
)
    requires
        0 <= width,
    ensures
        ended(text, false, width) == text + seq!['\n'],
        ended(text, true, width) == padded(text, width as nat) + seq!['\n'],
        padding <= 0 ==> with_padding(pieces, padding, style) == pieces,
        padding > 0 ==> with_padding(pieces, padding, style) == pieces + seq![
            span_text(blank(padding as nat), style),
        ],
{
    assert(text.push('\n') =~= text + seq!['\n']);
    assert(padded(text, width as nat).push('\n') =~= padded(text, width as nat) + seq!['\n']);
    let fill = span_text(blank(padding as nat), style);
    assert(pieces.push(fill) =~= pieces + seq![fill]);
}

/// A reference stands for what it refers to.
pub proof fn law_reference_stands_for_value<T>(value: T)
    ensures
        owned(Some(&value)) == Some(value),
        owned(None::<&T>) is None,
{
}

} // verus!
