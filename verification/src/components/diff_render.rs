//! The text that the diff is drawn as.

use vstd::prelude::*;

use crate::components::diff::{monus, smaller, DiffComponent};
use crate::components::diff_display::{
    all_show, build_side_by_side_lines, cell_index, larger, law_layout_not_longer, rows,
    side_by_side_layout, DisplayRow, SideBySideDisplayLine, SideBySideLine, SideCell,
};
use crate::components::diff_wrap::{cell_texts, joined_lines, wrap_side_cell_fragments, wrapped};
use crate::model::{DiffLine, DiffLineType, FileDiff};
use crate::string_utils::{
    blank, byte_size_text, display_width, expand_tabs, grapheme_clusters,
    law_scrolling_narrow_text, pad_to, padded, scrolled, spaces, starts_without_width,
    tabs_to_spaces, trim_offset, width as text_width,
};
use crate::ui::diff_syntax::{
    draw_pieces, drawn_highlight, highlighted_line_to_spans, highlighted_pieces,
    highlighted_spans_for_side_cell, highlighted_spans_for_unified_line, joined, side_highlight,
    trim_highlighted_spans, unified_highlight, HighlightedDiff, HighlightedLine,
};
use crate::ui::style::{
    bottom_left_symbol, line_texts, span_text, span_texts, top_left_symbol, vertical_symbol, Line,
    Span, SpanText, Style, Theme,
};

verus! {

/// What a reference refers to, if there is one.
pub open spec fn owned<T>(reference: Option<&T>) -> Option<T> {
    match reference {
        Some(value) => Some(*value),
        None => None,
    }
}

/// The text of a diff line as it is drawn: tabs are expanded, and an empty
/// changed line shows the theme's line break mark.
pub open spec fn line_text(line: DiffLine, theme: Theme) -> Seq<char> {
    if line.line_type != DiffLineType::Context && line.content@.len() == 0 {
        theme.line_break@
    } else {
        expand_tabs(line.content@)
    }
}

/// The mark to the left of a diff line.
pub open spec fn line_marker(line_type: DiffLineType, end_of_hunk: bool) -> Seq<char> {
    if end_of_hunk {
        seq!['└']
    } else if line_type == DiffLineType::Header {
        seq!['┌']
    } else {
        seq!['│']
    }
}

/// A text with its line's end, filled up to `width` characters if it is
/// selected.
pub open spec fn ended(text: Seq<char>, selected: bool, width: int) -> Seq<char> {
    (if selected { padded(text, width as nat) } else { text }).push('\n')
}

/// A line of the unified view: the mark, then the highlighted text if there is
/// one, otherwise the text in the style of its kind.
pub open spec fn unified_line(
    width: int,
    line: DiffLine,
    selected: bool,
    selected_hunk: bool,
    end_of_hunk: bool,
    theme: Theme,
    scrolled_right: int,
    highlighted: Option<HighlightedDiff>,
) -> Seq<SpanText> {
    let marker = span_text(
        line_marker(line.line_type, end_of_hunk),
        theme.hunk_marker.of(selected_hunk),
    );
    let highlight = match highlighted {
        Some(highlighted) => unified_highlight(line, highlighted),
        None => None,
    };
    match highlight {
        Some(highlight) => seq![marker] + drawn_highlight(
            highlight@,
            line.line_type,
            selected,
            theme,
            scrolled_right,
            width,
            selected,
            true,
        ),
        None => seq![
            marker,
            span_text(
                ended(scrolled(line_text(line, theme), scrolled_right as nat), selected, width),
                theme.line_style(line.line_type, selected),
            ),
        ],
    }
}

/// The header of a hunk in the side-by-side view.
pub open spec fn header_line(
    width: int,
    line: DiffLine,
    selected: bool,
    selected_hunk: bool,
    theme: Theme,
    scrolled_right: int,
) -> Seq<SpanText> {
    seq![
        span_text(seq!['┌'], theme.hunk_marker.of(selected_hunk)),
        span_text(
            ended(
                scrolled(expand_tabs(line.content@), scrolled_right as nat),
                selected,
                monus(width, 3),
            ),
            theme.line_style(DiffLineType::Header, selected),
        ),
    ]
}

/// The kind of a cell's line; an empty cell counts as unchanged.
pub open spec fn cell_type(cell: Option<DiffLine>) -> DiffLineType {
    match cell {
        Some(line) => line.line_type,
        None => DiffLineType::Context,
    }
}

/// The fragments of text that a cell shows.
pub open spec fn cell_fragments(
    cell: Option<DiffLine>,
    selected: bool,
    use_old_side: bool,
    highlighted: Option<HighlightedDiff>,
    theme: Theme,
    scrolled_right: int,
) -> Seq<SpanText> {
    match cell {
        Some(line) => {
            let highlight = match highlighted {
                Some(highlighted) => side_highlight(line, use_old_side, highlighted),
                None => None,
            };
            match highlight {
                Some(highlight) => highlighted_pieces(
                    highlight@,
                    line.line_type,
                    selected,
                    theme,
                    scrolled_right,
                ),
                None => seq![
                    span_text(
                        scrolled(line_text(line, theme), scrolled_right as nat),
                        theme.line_style(line.line_type, selected),
                    ),
                ],
            }
        },
        None => Seq::empty(),
    }
}

/// The columns of a list of pieces.
pub open spec fn pieces_columns(pieces: Seq<SpanText>) -> int
    decreases pieces.len(),
{
    if pieces.len() == 0 {
        0
    } else {
        pieces_columns(pieces.drop_last()) + display_width(pieces.last().content)
    }
}

/// Pieces with `padding` spaces after them.
pub open spec fn with_padding(pieces: Seq<SpanText>, padding: int, style: Style) -> Seq<SpanText> {
    if padding > 0 {
        pieces.push(span_text(blank(padding as nat), style))
    } else {
        pieces
    }
}

/// Pieces with the spaces that fill them up to `width` columns.
pub open spec fn padded_cell(pieces: Seq<SpanText>, width: int, style: Style) -> Seq<SpanText> {
    with_padding(pieces, monus(width, pieces_columns(pieces)), style)
}

/// Line `i` of a cell's wrapped text, filled up to the cell's width; past the
/// last line there is only the fill.
pub open spec fn cell_line(
    lines: Seq<Seq<SpanText>>,
    i: int,
    width: int,
    style: Style,
) -> Seq<SpanText> {
    padded_cell(line_or_nothing(lines, i), width, style)
}

/// Line `i`, or nothing past the last one.
pub open spec fn line_or_nothing(lines: Seq<Seq<SpanText>>, i: int) -> Seq<SpanText> {
    if 0 <= i < lines.len() { lines[i] } else { Seq::empty() }
}

/// The first `count` lines of a cell are filled: each takes the columns of the
/// cell, unless its text alone takes more.
pub open spec fn is_filled(
    lines: Seq<Seq<SpanText>>,
    count: int,
    width: int,
    style: Style,
) -> bool {
    forall|i: int|
        0 <= i < count ==> pieces_columns(#[trigger] cell_line(lines, i, width, style)) == larger(
            width,
            pieces_columns(line_or_nothing(lines, i)),
        )
}

/// The lines that a cell is wrapped into.
pub open spec fn side_lines(
    cell: Option<DiffLine>,
    width: int,
    selected: bool,
    use_old_side: bool,
    highlighted: Option<HighlightedDiff>,
    theme: Theme,
    scrolled_right: int,
) -> Seq<Seq<SpanText>> {
    wrapped(
        cell_fragments(cell, selected, use_old_side, highlighted, theme, scrolled_right),
        width,
    )
}

/// The lines that a row of two cells is drawn as. Both cells are wrapped; the
/// shorter one is filled up with empty lines in its own style.
pub open spec fn row_lines(
    left: Option<DiffLine>,
    right: Option<DiffLine>,
    cell_width: int,
    selected: bool,
    selected_hunk: bool,
    end_of_hunk: bool,
    highlighted: Option<HighlightedDiff>,
    theme: Theme,
    scrolled_right: int,
) -> Seq<Seq<SpanText>> {
    let left_lines = side_lines(
        left,
        cell_width,
        selected,
        true,
        highlighted,
        theme,
        scrolled_right,
    );
    let right_lines = side_lines(
        right,
        cell_width,
        selected,
        false,
        highlighted,
        theme,
        scrolled_right,
    );
    let left_style = theme.line_style(cell_type(left), selected);
    let right_style = theme.line_style(cell_type(right), selected);
    let count = larger(left_lines.len() as int, right_lines.len() as int);
    Seq::new(
        count as nat,
        |i: int|
            row_line(
                if end_of_hunk && i == count - 1 { seq!['└'] } else { seq!['│'] },
                theme.hunk_marker.of(selected_hunk),
                cell_line(left_lines, i, cell_width, left_style),
                theme.hunk_marker.of(selected),
                cell_line(right_lines, i, cell_width, right_style),
                right_style,
            ),
    )
}

/// One line of a row: the mark, the left cell, a separator, the right cell and
/// the line's end.
pub open spec fn row_line(
    marker: Seq<char>,
    marker_style: Style,
    left: Seq<SpanText>,
    separator_style: Style,
    right: Seq<SpanText>,
    end_style: Style,
) -> Seq<SpanText> {
    seq![span_text(marker, marker_style)] + left + seq![span_text(seq!['│'], separator_style)]
        + right + seq![span_text(seq!['\n'], end_style)]
}

/// The one line that stands for a diff without hunks: both sizes and how they
/// differ.
pub open spec fn sizes_line(
    old_size: Seq<char>,
    new_size: Seq<char>,
    grows: bool,
    distance: Seq<char>,
    theme: Theme,
) -> Seq<SpanText> {
    seq![
        span_text("size: "@, Style::plain()),
        span_text(old_size, theme.text),
        span_text(" -> "@, Style::plain()),
        span_text(new_size, theme.text),
        span_text(" ("@, Style::plain()),
        span_text(
            seq![if grows { '+' } else { '-' }] + distance,
            theme.line_style(
                if grows { DiffLineType::Add } else { DiffLineType::Delete },
                false,
            ),
        ),
        span_text(")"@, Style::plain()),
    ]
}

/// The one line that stands for a diff without hunks.
pub open spec fn binary_line(diff: FileDiff, theme: Theme) -> Seq<SpanText> {
    let grows = diff.size_delta >= 0;
    let distance = (if grows { diff.size_delta as int } else { -diff.size_delta }) as u64;
    sizes_line(
        byte_size_text(diff.sizes.0),
        byte_size_text(diff.sizes.1),
        grows,
        byte_size_text(distance),
        theme,
    )
}

/// Draws the sizes of a diff without hunks.
pub fn draw_sizes(
    old_size: String,
    new_size: String,
    grows: bool,
    distance: &str,
    theme: &Theme,
) -> (line: Line)
    ensures
        line@ == sizes_line(old_size@, new_size@, grows, distance@, *theme),
{
    let mut delta = String::new();
    delta.push(if grows { '+' } else { '-' });
    delta.append(distance);
    assert(delta@ =~= seq![if grows { '+' } else { '-' }] + distance@);
    let mut spans: Vec<Span> = Vec::new();
    spans.push(Span::raw("size: "));
    spans.push(Span::styled(old_size, theme.text));
    spans.push(Span::raw(" -> "));
    spans.push(Span::styled(new_size, theme.text));
    spans.push(Span::raw(" ("));
    spans.push(
        Span::styled(
            delta,
            theme.diff_line(if grows { DiffLineType::Add } else { DiffLineType::Delete }, false),
        ),
    );
    spans.push(Span::raw(")"));
    let line = Line { spans };
    assert(line@ =~= sizes_line(old_size@, new_size@, grows, distance@, *theme));
    line
}

/// The text of a diff line as it is drawn.
fn drawn_text(line: &DiffLine, theme: &Theme) -> (text: String)
    ensures
        text@ == line_text(*line, *theme),
{
    if line.line_type != DiffLineType::Context && line.content.as_str().is_empty() {
        theme.line_break.clone()
    } else {
        tabs_to_spaces(line.content.clone())
    }
}

/// A text with its line's end, filled up to `width` characters if it is
/// selected.
pub fn end_line(text: &str, selected: bool, width: usize) -> (line: String)
    ensures
        line@ == ended(text@, selected, width as int),
{
    let mut line = if selected { pad_to(text, width) } else { text.to_owned() };
    line.push('\n');
    line
}

/// The pieces of a list of spans with one more.
proof fn lemma_push_span(before: Seq<Span>, span: Span)
    ensures
        span_texts(before.push(span)) == span_texts(before).push(span@),
{
    assert(span_texts(before.push(span)) =~= span_texts(before).push(span@));
}

proof fn lemma_add_spans(before: Seq<Span>, more: Seq<Span>)
    ensures
        span_texts(before + more) == span_texts(before) + span_texts(more),
{
    assert(span_texts(before + more) =~= span_texts(before) + span_texts(more));
}

pub proof fn lemma_push_line(before: Seq<Line>, line: Line)
    ensures
        line_texts(before.push(line)) == line_texts(before).push(line@),
{
    assert(line_texts(before.push(line)) =~= line_texts(before).push(line@));
}

/// Appends spans to others.
fn append_spans(spans: &mut Vec<Span>, more: Vec<Span>)
    ensures
        span_texts(final(spans)@) == span_texts(old(spans)@) + span_texts(more@),
{
    let mut more = more;
    proof {
        lemma_add_spans(spans@, more@);
    }
    spans.append(&mut more);
}

/// Fills spans that take `visible_width` columns up to `width` columns, and says
/// how many they take then.
pub fn fill_cell(spans: &mut Vec<Span>, visible_width: usize, width: usize, style: Style) -> (taken:
    usize)
    ensures
        span_texts(final(spans)@) == with_padding(
            span_texts(old(spans)@),
            monus(width as int, visible_width as int),
            style,
        ),
        pieces_columns(span_texts(final(spans)@)) == pieces_columns(span_texts(old(spans)@))
            + monus(width as int, visible_width as int),
        taken == larger(width as int, visible_width as int),
{
    let padding: usize = width.saturating_sub(visible_width);
    if padding > 0 {
        let ghost before = spans@;
        let fill = spaces(padding);
        let fill_width: usize = text_width(fill.as_str());
        let span = Span::styled(fill, style);
        spans.push(span);
        proof {
            lemma_push_span(before, span);
            assert(span_texts(before).push(span@).drop_last() == span_texts(before));
        }
        visible_width + fill_width
    } else {
        visible_width
    }
}

/// Draws one line of a row.
pub fn draw_row_line(
    symbol: &str,
    marker_style: Style,
    left: Vec<Span>,
    separator_style: Style,
    right: Vec<Span>,
    end_style: Style,
) -> (line: Line)
    ensures
        line@ == row_line(
            symbol@,
            marker_style,
            span_texts(left@),
            separator_style,
            span_texts(right@),
            end_style,
        ),
{
    let mut spans: Vec<Span> = Vec::new();
    let marker = Span::styled(symbol.to_owned(), marker_style);
    spans.push(marker);
    assert(span_texts(spans@) =~= seq![span_text(symbol@, marker_style)]);
    append_spans(&mut spans, left);
    let separator = Span::styled(vertical_symbol().to_owned(), separator_style);
    let ghost before = spans@;
    spans.push(separator);
    proof {
        lemma_push_span(before, separator);
    }
    append_spans(&mut spans, right);
    let mut newline = String::new();
    newline.push('\n');
    assert(newline@ =~= seq!['\n']);
    let end = Span::styled(newline, end_style);
    let ghost before = spans@;
    spans.push(end);
    proof {
        lemma_push_span(before, end);
        assert(span_texts(spans@) =~= row_line(
            symbol@,
            marker_style,
            span_texts(left@),
            separator_style,
            span_texts(right@),
            end_style,
        ));
    }
    Line { spans }
}

impl DiffComponent {
    /// Draws a line of the unified view. Without highlighting and scrolled by
    /// nothing, its text is shown whole, unless that starts with a cluster that
    /// takes no column.
    pub fn get_line_to_add(
        width: u16,
        line: &DiffLine,
        selected: bool,
        selected_hunk: bool,
        end_of_hunk: bool,
        theme: &Theme,
        scrolled_right: usize,
        highlighted: Option<&HighlightedDiff>,
    ) -> (drawn: Line)
        ensures
            drawn@ == unified_line(
                width as int,
                *line,
                selected,
                selected_hunk,
                end_of_hunk,
                *theme,
                scrolled_right as int,
                owned(highlighted),
            ),
            scrolled_right == 0 && !starts_without_width(line_text(*line, *theme)) && (
            owned(highlighted) matches Some(diff) ==> unified_highlight(*line, diff) is None)
                ==> drawn@.last() == span_text(
                ended(line_text(*line, *theme), selected, width as int),
                theme.line_style(line.line_type, selected),
            ),
    {
        let style = theme.diff_hunk_marker(selected_hunk);
        let symbol = if end_of_hunk {
            bottom_left_symbol()
        } else {
            match line.line_type {
                DiffLineType::Header => top_left_symbol(),
                _ => vertical_symbol(),
            }
        };
        let marker = Span::styled(symbol.to_owned(), style);
        let ghost mark = marker@;
        let mut spans: Vec<Span> = Vec::new();
        spans.push(marker);
        assert(span_texts(spans@) =~= seq![mark]);
        if let Some(highlighted) = highlighted {
            if let Some(highlight) = highlighted_spans_for_unified_line(line, highlighted) {
                append_spans(
                    &mut spans,
                    highlighted_line_to_spans(
                        highlight,
                        line.line_type,
                        selected,
                        theme,
                        scrolled_right,
                        width as usize,
                        selected,
                        true,
                    ),
                );
                return Line { spans };
            }
        }
        let content = drawn_text(line, theme);
        let visible = trim_offset(content.as_str(), scrolled_right);
        let filled = end_line(visible, selected, width as usize);
        spans.push(Span::styled(filled, theme.diff_line(line.line_type, selected)));
        assert(span_texts(spans@) =~= seq![mark, spans@[1]@]);
        Line { spans }
    }

    /// Draws the header of a hunk in the side-by-side view.
    pub fn get_side_by_side_header(
        &self,
        width: u16,
        line: &DiffLine,
        selected: bool,
        selected_hunk: bool,
    ) -> (drawn: Line)
        ensures
            drawn@ == header_line(
                width as int,
                *line,
                selected,
                selected_hunk,
                self.theme,
                self.scroll.right as int,
            ),
    {
        let content = tabs_to_spaces(line.content.clone());
        let visible = trim_offset(content.as_str(), self.scroll.right);
        let inner_width: usize = width.saturating_sub(3) as usize;
        let filled = end_line(visible, selected, inner_width);
        let mut spans: Vec<Span> = Vec::new();
        spans.push(
            Span::styled(
                top_left_symbol().to_owned(),
                self.theme.diff_hunk_marker(selected_hunk),
            ),
        );
        spans.push(
            Span::styled(filled, self.theme.diff_line(DiffLineType::Header, selected)),
        );
        assert(span_texts(spans@) =~= seq![spans@[0]@, spans@[1]@]);
        Line { spans }
    }

    /// Wraps a highlighted line into a cell.
    pub fn highlighted_side_cell_lines(
        &self,
        line: &HighlightedLine,
        line_type: DiffLineType,
        selected: bool,
        scrolled_right: usize,
        width: usize,
    ) -> (lines: Vec<Vec<Span>>)
        ensures
            cell_texts(lines@) == wrapped(
                highlighted_pieces(
                    line@,
                    line_type,
                    selected,
                    self.theme,
                    scrolled_right as int,
                ),
                width as int,
            ),
            width > 0 ==> joined_lines(cell_texts(lines@)) == joined(
                highlighted_pieces(
                    line@,
                    line_type,
                    selected,
                    self.theme,
                    scrolled_right as int,
                ),
            ),
    {
        let visible = trim_highlighted_spans(line.spans.as_slice(), scrolled_right);
        let fragments = draw_pieces(&visible, line_type, selected, &self.theme);
        wrap_side_cell_fragments(&fragments, width)
    }

    /// The lines that a cell is wrapped into, and the kind of its line. Put
    /// together, they show all of the line's text or highlighting, scrolled; of a
    /// line whose clusters each take one column they leave out one cluster for
    /// every column.
    pub fn get_side_cell_lines(
        &self,
        cell: Option<SideCell<'_>>,
        width: u16,
        selected: bool,
        use_old_side: bool,
        highlighted: Option<&HighlightedDiff>,
    ) -> (lines: (Vec<Vec<Span>>, DiffLineType))
        ensures
            cell_texts(lines.0@) == side_lines(
                line_of(cell),
                width as int,
                selected,
                use_old_side,
                owned(highlighted),
                self.theme,
                self.scroll.right as int,
            ),
            lines.1 == cell_type(line_of(cell)),
            lines.1 == match cell {
                Some(cell) => cell.line.line_type,
                None => DiffLineType::Context,
            },
            width > 0 && cell is Some && (owned(highlighted) matches Some(diff) ==> side_highlight(
                *cell->0.line,
                use_old_side,
                diff,
            ) is None) ==> joined_lines(cell_texts(lines.0@)) == scrolled(
                line_text(*cell->0.line, self.theme),
                self.scroll.right as nat,
            ),
            width > 0 && cell is Some && (owned(highlighted) matches Some(diff) ==> side_highlight(
                *cell->0.line,
                use_old_side,
                diff,
            ) is None) && (forall|i: int|
                0 <= i < grapheme_clusters(line_text(*cell->0.line, self.theme)).len()
                    ==> display_width(
                    #[trigger] grapheme_clusters(line_text(*cell->0.line, self.theme))[i],
                ) == 1) ==> joined_lines(cell_texts(lines.0@)) == grapheme_clusters(
                line_text(*cell->0.line, self.theme),
            ).skip(
                smaller(
                    self.scroll.right as int,
                    grapheme_clusters(line_text(*cell->0.line, self.theme)).len() as int,
                ),
            ).flatten(),
            width > 0 && cell is Some && owned(highlighted) is Some && side_highlight(
                *cell->0.line,
                use_old_side,
                owned(highlighted)->0,
            ) is Some ==> joined_lines(cell_texts(lines.0@)) == joined(
                highlighted_pieces(
                    side_highlight(*cell->0.line, use_old_side, owned(highlighted)->0)->0@,
                    cell->0.line.line_type,
                    selected,
                    self.theme,
                    self.scroll.right as int,
                ),
            ),
    {
        let mut fragments: Vec<Span> = Vec::new();
        match cell {
            Some(cell) => {
                let line_type = cell.line.line_type;
                if let Some(highlighted) = highlighted {
                    if let Some(highlight) = highlighted_spans_for_side_cell(
                        cell.line,
                        use_old_side,
                        highlighted,
                    ) {
                        return (
                            self.highlighted_side_cell_lines(
                                highlight,
                                line_type,
                                selected,
                                self.scroll.right,
                                width as usize,
                            ),
                            line_type,
                        );
                    }
                }
                let content = drawn_text(cell.line, &self.theme);
                let visible = trim_offset(content.as_str(), self.scroll.right);
                fragments.push(
                    Span::styled(visible.to_owned(), self.theme.diff_line(line_type, selected)),
                );
                assert(span_texts(fragments@) =~= seq![fragments@[0]@]);
                proof {
                    let alone = seq![fragments@[0]@];
                    reveal_with_fuel(joined, 2);
                    assert(alone.drop_last() =~= Seq::<SpanText>::empty());
                    assert(joined(alone) =~= visible@);
                    if forall|i: int|
                        0 <= i < grapheme_clusters(content@).len() ==> display_width(
                            #[trigger] grapheme_clusters(content@)[i],
                        ) == 1 {
                        law_scrolling_narrow_text(content@, self.scroll.right as nat);
                    }
                }
                (wrap_side_cell_fragments(&fragments, width as usize), line_type)
            },
            None => {
                assert(span_texts(fragments@) =~= Seq::<SpanText>::empty());
                (wrap_side_cell_fragments(&fragments, width as usize), DiffLineType::Context)
            },
        }
    }

    /// Fills spans up to `width` columns: that many they take then, unless they
    /// took more before.
    pub fn pad_side_cell_spans(
        spans: &mut Vec<Span>,
        width: usize,
        line_type: DiffLineType,
        selected: bool,
        theme: &Theme,
    )
        ensures
            span_texts(final(spans)@) == padded_cell(
                span_texts(old(spans)@),
                width as int,
                theme.line_style(line_type, selected),
            ),
            pieces_columns(span_texts(final(spans)@)) == larger(
                width as int,
                pieces_columns(span_texts(old(spans)@)),
            ),
    {
        let ghost pieces = span_texts(spans@);
        let mut visible_width: usize = 0;
        assert(pieces.take(0) == Seq::<SpanText>::empty());
        for i in 0..spans.len()
            invariant
                pieces == span_texts(spans@),
                visible_width == smaller(pieces_columns(pieces.take(i as int)), usize::MAX as int),
        {
            assert(pieces.take(i + 1).drop_last() == pieces.take(i as int));
            assert(pieces[i as int] == spans@[i as int]@);
            visible_width = visible_width.saturating_add(text_width(spans[i].content.as_str()));
        }
        assert(pieces.take(spans@.len() as int) == pieces);
        fill_cell(spans, visible_width, width, theme.diff_line(line_type, selected));
    }

    /// Line `index` of a cell, filled up to `width` columns.
    pub fn side_cell_spans_at(
        lines: &Vec<Vec<Span>>,
        index: usize,
        width: usize,
        line_type: DiffLineType,
        selected: bool,
        theme: &Theme,
    ) -> (spans: Vec<Span>)
        ensures
            span_texts(spans@) == cell_line(
                cell_texts(lines@),
                index as int,
                width as int,
                theme.line_style(line_type, selected),
            ),
            pieces_columns(span_texts(spans@)) == larger(
                width as int,
                pieces_columns(line_or_nothing(cell_texts(lines@), index as int)),
            ),
    {
        let mut spans: Vec<Span> = Vec::new();
        if index < lines.len() {
            let line = &lines[index];
            let ghost pieces = span_texts(line@);
            assert(span_texts(spans@) =~= pieces.take(0));
            for i in 0..line.len()
                invariant
                    pieces == span_texts(line@),
                    span_texts(spans@) == pieces.take(i as int),
            {
                let ghost before = spans@;
                let span = line[i].clone();
                spans.push(span);
                proof {
                    lemma_push_span(before, span);
                    assert(pieces.take(i + 1) == pieces.take(i as int).push(pieces[i as int]));
                }
            }
            assert(pieces.take(line@.len() as int) == pieces);
        } else {
            assert(span_texts(spans@) =~= Seq::<SpanText>::empty());
        }
        Self::pad_side_cell_spans(&mut spans, width, line_type, selected, theme);
        spans
    }
}

/// The line that a cell shows, if there is a cell.
pub open spec fn line_of(cell: Option<SideCell>) -> Option<DiffLine> {
    match cell {
        Some(cell) => Some(*cell.line),
        None => None,
    }
}

impl DiffComponent {
    /// Draws a row of the side-by-side view. Each cell takes its columns on every
    /// line, unless its text alone takes more, so that the separator and the
    /// line's end stand in the same column throughout.
    pub fn get_side_by_side_row(
        &self,
        row: &SideBySideLine<'_>,
        cell_width: u16,
        selected: bool,
        selected_hunk: bool,
        end_of_hunk: bool,
        highlighted: Option<&HighlightedDiff>,
    ) -> (lines: Vec<Line>)
        ensures
            line_texts(lines@) == row_lines(
                line_of(row.left),
                line_of(row.right),
                cell_width as int,
                selected,
                selected_hunk,
                end_of_hunk,
                owned(highlighted),
                self.theme,
                self.scroll.right as int,
            ),
            is_filled(
                side_lines(
                    line_of(row.left),
                    cell_width as int,
                    selected,
                    true,
                    owned(highlighted),
                    self.theme,
                    self.scroll.right as int,
                ),
                lines@.len() as int,
                cell_width as int,
                self.theme.line_style(cell_type(line_of(row.left)), selected),
            ),
            is_filled(
                side_lines(
                    line_of(row.right),
                    cell_width as int,
                    selected,
                    false,
                    owned(highlighted),
                    self.theme,
                    self.scroll.right as int,
                ),
                lines@.len() as int,
                cell_width as int,
                self.theme.line_style(cell_type(line_of(row.right)), selected),
            ),
    {
        let (left_lines, left_type) = self.get_side_cell_lines(
            row.left,
            cell_width,
            selected,
            true,
            highlighted,
        );
        let (right_lines, right_type) = self.get_side_cell_lines(
            row.right,
            cell_width,
            selected,
            false,
            highlighted,
        );
        let width: usize = cell_width as usize;
        let left_count: usize = left_lines.len();
        let right_count: usize = right_lines.len();
        let row_count: usize = if left_count >= right_count { left_count } else { right_count };
        let ghost goal = row_lines(
            line_of(row.left),
            line_of(row.right),
            cell_width as int,
            selected,
            selected_hunk,
            end_of_hunk,
            owned(highlighted),
            self.theme,
            self.scroll.right as int,
        );
        let ghost left = cell_texts(left_lines@);
        let ghost right = cell_texts(right_lines@);
        assert(left.len() == left_count && right.len() == right_count);
        let mut lines: Vec<Line> = Vec::new();
        assert(line_texts(lines@) =~= goal.take(0));
        for visual_index in 0..row_count
            invariant
                left == cell_texts(left_lines@),
                right == cell_texts(right_lines@),
                left_type == cell_type(line_of(row.left)),
                right_type == cell_type(line_of(row.right)),
                left == side_lines(
                    line_of(row.left),
                    width as int,
                    selected,
                    true,
                    owned(highlighted),
                    self.theme,
                    self.scroll.right as int,
                ),
                is_filled(
                    left,
                    visual_index as int,
                    width as int,
                    self.theme.line_style(left_type, selected),
                ),
                right == side_lines(
                    line_of(row.right),
                    width as int,
                    selected,
                    false,
                    owned(highlighted),
                    self.theme,
                    self.scroll.right as int,
                ),
                is_filled(
                    right,
                    visual_index as int,
                    width as int,
                    self.theme.line_style(right_type, selected),
                ),
                width == cell_width,
                row_count == larger(left.len() as int, right.len() as int),
                goal == row_lines(
                    line_of(row.left),
                    line_of(row.right),
                    cell_width as int,
                    selected,
                    selected_hunk,
                    end_of_hunk,
                    owned(highlighted),
                    self.theme,
                    self.scroll.right as int,
                ),
                line_texts(lines@) == goal.take(visual_index as int),
        {
            let symbol = if end_of_hunk && visual_index == row_count - 1 {
                bottom_left_symbol()
            } else {
                vertical_symbol()
            };
            let left_cell = Self::side_cell_spans_at(
                &left_lines,
                visual_index,
                width,
                left_type,
                selected,
                &self.theme,
            );
            let right_cell = Self::side_cell_spans_at(
                &right_lines,
                visual_index,
                width,
                right_type,
                selected,
                &self.theme,
            );
            let line = draw_row_line(
                symbol,
                self.theme.diff_hunk_marker(selected_hunk),
                left_cell,
                self.theme.diff_hunk_marker(selected),
                right_cell,
                self.theme.diff_line(right_type, selected),
            );
            assert(line@ == goal[visual_index as int]);
            let ghost drawn = lines@;
            lines.push(line);
            proof {
                lemma_push_line(drawn, line);
                assert(goal.take(visual_index + 1) == goal.take(visual_index as int).push(
                    goal[visual_index as int],
                ));
            }
        }
        proof {
            assert(goal.take(row_count as int) == goal);
            assert(line_texts(lines@).len() == lines@.len());
        }
        lines
    }

    /// The lines that display line `i` of the side-by-side view is drawn as.
    pub open spec fn display_line_text(
        self,
        diff: FileDiff,
        i: int,
        width: int,
        highlighted: Option<HighlightedDiff>,
    ) -> Seq<Seq<SpanText>> {
        let layout = side_by_side_layout(diff);
        let raw = diff.raw_lines();
        let row = layout[i];
        let selected = self.focused && self.selection.has(i);
        let selected_hunk = self.focused && self.hunk_is_selected(row.hunk());
        let end_of_hunk = i + 1 >= layout.len() || layout[i + 1].hunk() != row.hunk();
        match row {
            DisplayRow::Header { raw: r, .. } => seq![
                header_line(
                    width,
                    raw[r],
                    selected,
                    selected_hunk,
                    self.theme,
                    self.scroll.right as int,
                ),
            ],
            DisplayRow::Row { left, right, .. } => row_lines(
                raw_line(raw, left),
                raw_line(raw, right),
                self.cell_width(),
                selected,
                selected_hunk,
                end_of_hunk,
                highlighted,
                self.theme,
                self.scroll.right as int,
            ),
        }
    }

    /// `hunk` is the selected one.
    pub open spec fn hunk_is_selected(self, hunk: Option<int>) -> bool {
        match (hunk, self.selected_hunk) {
            (Some(h), Some(selected)) => h == selected,
            _ => false,
        }
    }

    /// The display lines from `from` up to `to`, drawn one after another.
    pub open spec fn display_lines_text(
        self,
        diff: FileDiff,
        from: int,
        to: int,
        width: int,
        highlighted: Option<HighlightedDiff>,
    ) -> Seq<Seq<SpanText>>
        decreases to - from,
    {
        if to <= from {
            Seq::empty()
        } else {
            self.display_lines_text(diff, from, to - 1, width, highlighted)
                + self.display_line_text(diff, to - 1, width, highlighted)
        }
    }

    /// What is drawn of a diff side by side: the display lines from the first
    /// that is in view, one more than fit.
    pub open spec fn side_by_side_text(
        self,
        diff: FileDiff,
        width: int,
        height: int,
        highlighted: Option<HighlightedDiff>,
    ) -> Seq<Seq<SpanText>> {
        let top = self.scroll.top as int;
        self.display_lines_text(
            diff,
            top,
            smaller(side_by_side_layout(diff).len() as int, top + height + 1),
            width,
            highlighted,
        )
    }

    /// Draws one display line of the side-by-side view.
    fn get_display_line(
        &self,
        diff: &FileDiff,
        display_lines: &Vec<SideBySideDisplayLine<'_>>,
        display_index: usize,
        width: u16,
        highlighted: Option<&HighlightedDiff>,
    ) -> (drawn: Vec<Line>)
        requires
            diff.fits(),
            rows(display_lines@) == side_by_side_layout(*diff),
            all_show(display_lines@, diff.raw_lines()),
            display_index < display_lines@.len(),
        ensures
            line_texts(drawn@) == self.display_line_text(
                *diff,
                display_index as int,
                width as int,
                owned(highlighted),
            ),
    {
        let ghost layout = side_by_side_layout(*diff);
        let ghost raw = diff.raw_lines();
        proof {
            law_layout_not_longer(*diff);
            assert(layout.len() == display_lines@.len());
            assert(layout[display_index as int] == display_lines@[display_index as int].row());
            assert(display_lines@[display_index as int].shows(raw));
        }
        let line = &display_lines[display_index];
        let selected: bool = self.focused() && self.selection.contains(display_index);
        let hunk = line.hunk_index();
        let selected_hunk: bool = self.focused() && match (hunk, self.selected_hunk) {
            (Some(hunk), Some(selected)) => hunk == selected,
            _ => false,
        };
        match line {
            SideBySideDisplayLine::Header { line, .. } => {
                let mut drawn: Vec<Line> = Vec::new();
                let header = self.get_side_by_side_header(width, line, selected, selected_hunk);
                drawn.push(header);
                assert(line_texts(drawn@) =~= seq![header@]);
                drawn
            },
            SideBySideDisplayLine::Row(row) => {
                let end_of_hunk: bool = if display_index + 1 >= display_lines.len() {
                    true
                } else {
                    let next = display_lines[display_index + 1].hunk_index();
                    assert(layout[display_index + 1] == display_lines@[display_index + 1].row());
                    match (next, hunk) {
                        (Some(next), Some(hunk)) => next != hunk,
                        (None, None) => false,
                        _ => true,
                    }
                };
                proof {
                    assert(row.shows(raw));
                    assert(line_of(row.left) == raw_line(raw, cell_index(row.left)));
                    assert(line_of(row.right) == raw_line(raw, cell_index(row.right)));
                }
                self.get_side_by_side_row(
                    row,
                    self.side_cell_width(),
                    selected,
                    selected_hunk,
                    end_of_hunk,
                    highlighted,
                )
            },
        }
    }

    /// Draws the diff side by side.
    pub fn get_text_side_by_side(
        &self,
        diff: &FileDiff,
        width: u16,
        height: u16,
        highlighted: Option<&HighlightedDiff>,
    ) -> (res: Vec<Line>)
        requires
            diff.fits(),
        ensures
            line_texts(res@) == self.side_by_side_text(
                *diff,
                width as int,
                height as int,
                owned(highlighted),
            ),
    {
        let display_lines = build_side_by_side_lines(diff);
        let len: usize = display_lines.len();
        let top: usize = self.scroll.top;
        proof {
            law_layout_not_longer(*diff);
            assert(rows(display_lines@).len() == len);
        }
        let end: usize = if top >= len || len - top <= height as usize + 1 {
            len
        } else {
            top + height as usize + 1
        };
        let mut res: Vec<Line> = Vec::new();
        let mut display_index: usize = top;
        assert(line_texts(res@) =~= Seq::<Seq<SpanText>>::empty());
        while display_index < end
            invariant
                diff.fits(),
                rows(display_lines@) == side_by_side_layout(*diff),
                all_show(display_lines@, diff.raw_lines()),
                end <= display_lines@.len(),
                top <= display_index,
                top < end ==> display_index <= end,
                line_texts(res@) == self.display_lines_text(
                    *diff,
                    top as int,
                    display_index as int,
                    width as int,
                    owned(highlighted),
                ),
                top >= end ==> display_index == top,
            decreases end - display_index,
        {
            let mut drawn = self.get_display_line(
                diff,
                &display_lines,
                display_index,
                width,
                highlighted,
            );
            let ghost before = res@;
            let ghost more = drawn@;
            res.append(&mut drawn);
            assert(line_texts(before + more) =~= line_texts(before) + line_texts(more));
            display_index = display_index + 1;
        }
        res
    }
}

/// The raw line of that index, if there is an index.
pub open spec fn raw_line(raw: Seq<DiffLine>, index: Option<int>) -> Option<DiffLine> {
    match index {
        Some(i) => Some(raw[i]),
        None => None,
    }
}

} // verus!
