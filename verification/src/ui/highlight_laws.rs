//! Which highlighted line a diff line is drawn from, and what is drawn of it.

use vstd::prelude::*;
use vstd::seq_lib::lemma_flatten_concat;

use crate::model::{DiffLine, DiffLineType};
use crate::string_utils::{
    blank, clusters_columns, display_width, grapheme_clusters, law_scrolling_drops_what_fits,
    law_scrolling_narrow_text, scrolled,
};
use crate::ui::diff_syntax::{
    drawn_highlight, drawn_pieces, joined, merged_style, nonempty_pieces, scrolled_pieces,
    side_highlight, suffix_style, suffix_text, unified_highlight, HighlightStatus, HighlightedDiff,
    HighlightedDiffKey, HighlightedFile, HighlightedLine, StatusView,
};
use crate::ui::style::{SpanText, Style, Theme};

verus! {

/// The line of a highlighted file with number `n`, counted from one, if there is
/// such a file, number and line.
pub open spec fn line_numbered(file: Option<HighlightedFile>, n: Option<u32>) -> Option<
    HighlightedLine,
> {
    if file is Some && n is Some && 1 <= n->0 <= file->0.lines@.len() {
        Some(file->0.lines@[n->0 - 1])
    } else {
        None
    }
}

/// In the unified view a deletion is drawn from the old file, by its old number,
/// an addition from the new file, by its new number, and an unchanged line from
/// the new file if there is one, by its new number if it has one. A header is not
/// drawn from either.
pub proof fn law_unified_line_is_drawn_from_its_file(line: DiffLine, highlighted: HighlightedDiff)
    ensures
        line.line_type == DiffLineType::Delete ==> unified_highlight(line, highlighted)
            == line_numbered(highlighted.old, line.position.old_lineno),
        line.line_type == DiffLineType::Add ==> unified_highlight(line, highlighted)
            == line_numbered(highlighted.new, line.position.new_lineno),
        line.line_type == DiffLineType::Context && line.position.new_lineno is Some
            && highlighted.new is Some ==> unified_highlight(line, highlighted) == line_numbered(
            highlighted.new,
            line.position.new_lineno,
        ),
        line.line_type == DiffLineType::Context && line.position.new_lineno is Some
            && highlighted.new is None ==> unified_highlight(line, highlighted) == line_numbered(
            highlighted.old,
            line.position.new_lineno,
        ),
        line.line_type == DiffLineType::Context && line.position.new_lineno is None
            && highlighted.new is Some ==> unified_highlight(line, highlighted) == line_numbered(
            highlighted.new,
            line.position.old_lineno,
        ),
        line.line_type == DiffLineType::Context && line.position.new_lineno is None
            && highlighted.new is None ==> unified_highlight(line, highlighted) == line_numbered(
            highlighted.old,
            line.position.old_lineno,
        ),
        line.line_type == DiffLineType::Header ==> unified_highlight(line, highlighted) is None,
{
}

/// In the side-by-side view the left side is drawn from the old file and the right
/// side from the new one, each by the line's number there.
pub proof fn law_side_is_drawn_from_its_file(line: DiffLine, highlighted: HighlightedDiff)
    ensures
        side_highlight(line, true, highlighted) == line_numbered(
            highlighted.old,
            line.position.old_lineno,
        ),
        side_highlight(line, false, highlighted) == line_numbered(
            highlighted.new,
            line.position.new_lineno,
        ),
{
}

/// A highlighted piece keeps its colour and takes the background of its line's
/// kind, if that has one; the theme's selection is laid over it where the line is
/// selected.
pub proof fn law_highlight_keeps_colour(
    syntax: Style,
    line_type: DiffLineType,
    selected: bool,
    theme: Theme,
)
    ensures
        ({
            let plain = merged_style(syntax, line_type, false, theme);
            &&& plain.fg == syntax.fg
            &&& plain.add_modifier == syntax.add_modifier
            &&& plain.sub_modifier == syntax.sub_modifier
            &&& theme.line_background(line_type) is Some ==> plain.bg == theme.line_background(
                line_type,
            )
            &&& theme.line_background(line_type) is None ==> plain.bg == syntax.bg
            &&& merged_style(syntax, line_type, true, theme) == plain.patched(theme.selection)
        }),
{
}

/// What is drawn of visible pieces are the same texts in the same order, each in
/// its own style on the line's background. Only a changed line of which nothing is
/// visible shows the theme's mark, in the style of the line.
pub proof fn law_visible_pieces_are_drawn(
    visible: Seq<SpanText>,
    line_type: DiffLineType,
    selected: bool,
    theme: Theme,
)
    ensures
        ({
            let drawn = drawn_pieces(visible, line_type, selected, theme);
            &&& visible.len() > 0 || line_type == DiffLineType::Context ==> drawn.len()
                == visible.len()
            &&& forall|i: int|
                0 <= i < visible.len() ==> (#[trigger] drawn[i]).content == visible[i].content
                    && drawn[i].style == merged_style(visible[i].style, line_type, selected, theme)
            &&& visible.len() == 0 && line_type != DiffLineType::Context ==> drawn.len() == 1
                && drawn[0].content == theme.line_break@ && drawn[0].style == theme.line_style(
                line_type,
                selected,
            )
        }),
{
}

/// A highlighted line is drawn as its visible pieces. Where it is to be filled or
/// ended, spaces follow that fill up the columns which its text leaves once it was
/// scrolled, and a line feed.
pub proof fn law_highlighted_line_is_filled(
    pieces: Seq<SpanText>,
    line_type: DiffLineType,
    selected: bool,
    theme: Theme,
    scrolled_right: int,
    width: int,
    fill_width: bool,
    trailing_newline: bool,
)
    requires
        scrolled_right >= 0,
        width >= 0,
    ensures
        ({
            let text = drawn_pieces(
                scrolled_pieces(pieces, scrolled_right),
                line_type,
                selected,
                theme,
            );
            let drawn = drawn_highlight(
                pieces,
                line_type,
                selected,
                theme,
                scrolled_right,
                width,
                fill_width,
                trailing_newline,
            );
            let content_width = if pieces.len() == 0 && line_type != DiffLineType::Context {
                display_width(theme.line_break@)
            } else {
                display_width(joined(pieces))
            };
            let visible = if content_width > scrolled_right {
                content_width - scrolled_right
            } else {
                0
            };
            let fill = if fill_width && width > visible { width - visible } else { 0 };
            let last = drawn.last();
            &&& !fill_width && !trailing_newline ==> drawn == text
            &&& fill_width || trailing_newline ==> {
                &&& drawn.len() == text.len() + 1
                &&& drawn.take(text.len() as int) == text
                &&& last.style == suffix_style(line_type, selected, theme)
                &&& last.content.len() == fill + if trailing_newline { 1int } else { 0 }
                &&& forall|i: int| 0 <= i < fill ==> #[trigger] last.content[i] == ' '
                &&& trailing_newline ==> last.content.last() == '\n'
            }
        }),
{
    let text = drawn_pieces(scrolled_pieces(pieces, scrolled_right), line_type, selected, theme);
    let drawn = drawn_highlight(
        pieces,
        line_type,
        selected,
        theme,
        scrolled_right,
        width,
        fill_width,
        trailing_newline,
    );
    if fill_width || trailing_newline {
        assert(drawn.take(text.len() as int) =~= text);
    }
}

/// What follows the text of a highlighted line has the background of the line's
/// kind under the style of an unchanged line.
pub proof fn law_fill_has_background_of_line(
    line_type: DiffLineType,
    selected: bool,
    theme: Theme,
)
    ensures
        ({
            let style = suffix_style(line_type, selected, theme);
            let over = theme.line_style(DiffLineType::Context, selected);
            &&& style.fg == over.fg
            &&& style.bg == if over.bg is Some {
                over.bg
            } else {
                theme.line_background(line_type)
            }
        }),
{
}

/// The text of pieces are their contents, one after another.
pub proof fn law_joined_text_is_all_contents(pieces: Seq<SpanText>)
    ensures
        joined(pieces) == pieces.map_values(|piece: SpanText| piece.content).flatten(),
    decreases pieces.len(),
{
    let content = |piece: SpanText| piece.content;
    if pieces.len() > 0 {
        law_joined_text_is_all_contents(pieces.drop_last());
        let rest = pieces.drop_last().map_values(content);
        rest.lemma_flatten_push(pieces.last().content);
        assert(rest.push(pieces.last().content) =~= pieces.map_values(content));
    }
}

/// The clusters of all pieces, one after another.
pub open spec fn all_clusters(pieces: Seq<SpanText>) -> Seq<Seq<char>> {
    pieces.map_values(|piece: SpanText| grapheme_clusters(piece.content)).flatten()
}

/// Every cluster of a text takes one column, and so does the text take as many
/// columns as it has clusters.
pub open spec fn is_narrow(text: Seq<char>) -> bool {
    &&& forall|i: int|
        0 <= i < grapheme_clusters(text).len() ==> display_width(
            #[trigger] grapheme_clusters(text)[i],
        ) == 1
    &&& display_width(text) == grapheme_clusters(text).len()
}

/// A text is made of its clusters, none of which is empty.
pub open spec fn is_clustered(text: Seq<char>) -> bool {
    &&& grapheme_clusters(text).flatten() == text
    &&& forall|i: int|
        0 <= i < grapheme_clusters(text).len() ==> (#[trigger] grapheme_clusters(text)[i]).len() > 0
}

proof fn lemma_joined_front(first: SpanText, rest: Seq<SpanText>)
    ensures
        joined(seq![first] + rest) == first.content + joined(rest),
{
    let content = |piece: SpanText| piece.content;
    let all = seq![first] + rest;
    law_joined_text_is_all_contents(all);
    law_joined_text_is_all_contents(rest);
    assert(all.map_values(content).first() == first.content);
    assert(all.map_values(content).drop_first() =~= rest.map_values(content));
}

/// Scrolled by some columns, pieces that are narrow throughout lose one cluster
/// for every column, from the first piece on, until none is left.
pub proof fn lemma_scrolled_narrow_pieces(pieces: Seq<SpanText>, columns: int)
    requires
        0 <= columns,
        forall|j: int|
            0 <= j < pieces.len() ==> is_narrow((#[trigger] pieces[j]).content) && is_clustered(
                pieces[j].content,
            ),
    ensures
        joined(scrolled_pieces(pieces, columns)) == all_clusters(pieces).skip(
            if columns <= all_clusters(pieces).len() {
                columns
            } else {
                all_clusters(pieces).len() as int
            },
        ).flatten(),
    decreases pieces.len(),
{
    let own = |piece: SpanText| grapheme_clusters(piece.content);
    if pieces.len() == 0 {
        assert(pieces.map_values(own).flatten() =~= Seq::<Seq<char>>::empty());
        assert(all_clusters(pieces).skip(0) =~= Seq::<Seq<char>>::empty());
    } else {
        let first = pieces[0];
        let rest = pieces.skip(1);
        let clusters = grapheme_clusters(first.content);
        let m = clusters.len() as int;
        assert(is_narrow(first.content) && is_clustered(first.content));
        assert forall|j: int| 0 <= j < rest.len() implies is_narrow((#[trigger] rest[j]).content)
            && is_clustered(rest[j].content) by {
            assert(rest[j] == pieces[j + 1]);
        }
        assert(pieces.map_values(own).first() == clusters);
        assert(pieces.map_values(own).drop_first() =~= rest.map_values(own));
        assert(all_clusters(pieces) == clusters + all_clusters(rest));
        law_scrolling_narrow_text(first.content, columns as nat);
        let total = all_clusters(pieces).len() as int;
        if columns >= m {
            assert(clusters.skip(m) =~= Seq::<Seq<char>>::empty());
            assert(scrolled(first.content, columns as nat).len() == 0);
            lemma_scrolled_narrow_pieces(rest, columns - m);
            let k = if columns <= total { columns } else { total };
            assert(all_clusters(pieces).skip(k) =~= all_clusters(rest).skip(k - m));
        } else {
            let shown = clusters.skip(columns);
            assert(shown[0] == clusters[columns]);
            assert(shown.flatten() == shown.first() + shown.drop_first().flatten());
            assert(scrolled(first.content, columns as nat).len() > 0);
            lemma_scrolled_narrow_pieces(rest, 0);
            assert(all_clusters(rest).skip(0) =~= all_clusters(rest));
            assert(all_clusters(pieces).skip(columns) =~= shown + all_clusters(rest));
            lemma_flatten_concat(shown, all_clusters(rest));
            lemma_joined_front(
                crate::ui::style::span_text(shown.flatten(), first.style),
                scrolled_pieces(rest, 0),
            );
        }
    }
}

/// Every cluster of a text takes room, and the text takes as many columns as its
/// clusters do.
pub open spec fn is_solid(text: Seq<char>) -> bool {
    &&& forall|i: int|
        0 <= i < grapheme_clusters(text).len() ==> display_width(
            #[trigger] grapheme_clusters(text)[i],
        ) >= 1
    &&& display_width(text) == clusters_columns(
        grapheme_clusters(text),
        grapheme_clusters(text).len() as int,
    )
}

/// Without its first `k` clusters a text is `rest`; those are as many as fit into
/// so many columns, and not one less.
pub open spec fn drops_what_fits(
    rest: Seq<char>,
    clusters: Seq<Seq<char>>,
    k: int,
    columns: int,
) -> bool {
    &&& 0 <= k <= clusters.len()
    &&& rest == clusters.skip(k).flatten()
    &&& clusters_columns(clusters, k) <= columns
    &&& k < clusters.len() ==> clusters_columns(clusters, k + 1) > columns
}

proof fn lemma_columns_add(a: Seq<Seq<char>>, b: Seq<Seq<char>>, n: int)
    requires
        0 <= n <= a.len() + b.len(),
    ensures
        n <= a.len() ==> clusters_columns(a + b, n) == clusters_columns(a, n),
        n >= a.len() ==> clusters_columns(a + b, n) == clusters_columns(a, a.len() as int)
            + clusters_columns(b, n - a.len()),
    decreases n,
{
    if n > 0 {
        lemma_columns_add(a, b, n - 1);
        if n <= a.len() {
            assert((a + b)[n - 1] == a[n - 1]);
        } else {
            assert((a + b)[n - 1] == b[n - 1 - a.len()]);
        }
    }
}

proof fn lemma_columns_grow(clusters: Seq<Seq<char>>, n: int)
    requires
        0 <= n <= clusters.len(),
    ensures
        clusters_columns(clusters, n) >= 0,
    decreases n,
{
    if n > 0 {
        lemma_columns_grow(clusters, n - 1);
    }
}

/// Scrolled by some columns, pieces without anything that takes no room lose the
/// clusters that fit into so many columns, from the first piece on.
pub proof fn lemma_scrolled_solid_pieces(pieces: Seq<SpanText>, columns: int) -> (k: int)
    requires
        0 <= columns,
        forall|j: int|
            0 <= j < pieces.len() ==> is_solid((#[trigger] pieces[j]).content) && is_clustered(
                pieces[j].content,
            ),
    ensures
        drops_what_fits(
            joined(scrolled_pieces(pieces, columns)),
            all_clusters(pieces),
            k,
            columns,
        ),
        columns == 0 ==> k == 0,
    decreases pieces.len(),
{
    let own = |piece: SpanText| grapheme_clusters(piece.content);
    if pieces.len() == 0 {
        assert(pieces.map_values(own).flatten() =~= Seq::<Seq<char>>::empty());
        assert(all_clusters(pieces).skip(0) =~= Seq::<Seq<char>>::empty());
        0
    } else {
        let first = pieces[0];
        let rest = pieces.skip(1);
        let clusters = grapheme_clusters(first.content);
        let others = all_clusters(rest);
        let m = clusters.len() as int;
        assert(is_solid(first.content) && is_clustered(first.content));
        assert forall|j: int| 0 <= j < rest.len() implies is_solid((#[trigger] rest[j]).content)
            && is_clustered(rest[j].content) by {
            assert(rest[j] == pieces[j + 1]);
        }
        assert(pieces.map_values(own).first() == clusters);
        assert(pieces.map_values(own).drop_first() =~= rest.map_values(own));
        assert(all_clusters(pieces) == clusters + others);
        let cut = law_scrolling_drops_what_fits(first.content, columns as nat);
        if columns == 0 && cut > 0 {
            assert(display_width(clusters[cut - 1]) >= 1);
            lemma_columns_grow(clusters, cut - 1);
        }
        if cut == m {
            assert(clusters.skip(m) =~= Seq::<Seq<char>>::empty());
            assert(scrolled(first.content, columns as nat).len() == 0);
            let left = columns - display_width(first.content);
            let more = lemma_scrolled_solid_pieces(rest, left);
            assert(all_clusters(pieces).skip(m + more) =~= others.skip(more));
            lemma_columns_add(clusters, others, m + more);
            if more < others.len() {
                lemma_columns_add(clusters, others, m + more + 1);
            }
            m + more
        } else {
            let shown = clusters.skip(cut);
            assert(shown[0] == clusters[cut]);
            assert(shown.flatten() == shown.first() + shown.drop_first().flatten());
            assert(scrolled(first.content, columns as nat).len() > 0);
            lemma_scrolled_solid_pieces(rest, 0);
            assert(others.skip(0) =~= others);
            assert(all_clusters(pieces).skip(cut) =~= shown + others);
            lemma_flatten_concat(shown, others);
            lemma_joined_front(
                crate::ui::style::span_text(shown.flatten(), first.style),
                scrolled_pieces(rest, 0),
            );
            lemma_columns_add(clusters, others, cut);
            lemma_columns_add(clusters, others, cut + 1);
            cut
        }
    }
}

/// What follows a text of `content_width` columns that was scrolled are the spaces that
/// it leaves of `width` columns, if it is to be filled, and a line feed, if it is to be
/// ended.
pub proof fn law_suffix_fills_and_ends(
    content_width: int,
    scrolled_right: int,
    width: int,
    fill_width: bool,
    trailing_newline: bool,
)
    requires
        0 <= content_width,
        0 <= scrolled_right,
        0 <= width,
    ensures
        ({
            let visible = if content_width > scrolled_right {
                content_width - scrolled_right
            } else {
                0
            };
            let fill = if fill_width && width > visible { width - visible } else { 0 };
            let suffix = suffix_text(
                content_width,
                scrolled_right,
                width,
                fill_width,
                trailing_newline,
            );
            &&& trailing_newline ==> suffix == blank(fill as nat) + seq!['\n']
            &&& !trailing_newline ==> suffix == blank(fill as nat)
        }),
{
    let suffix = suffix_text(content_width, scrolled_right, width, fill_width, trailing_newline);
    let visible = if content_width > scrolled_right { content_width - scrolled_right } else { 0 };
    let fill = if fill_width && width > visible { width - visible } else { 0 };
    if trailing_newline {
        assert(suffix =~= blank(fill as nat) + seq!['\n']);
    }
}

/// The pieces that are not empty are kept in their order.
pub proof fn law_nonempty_pieces_are_kept(pieces: Seq<SpanText>)
    ensures
        nonempty_pieces(pieces) == pieces.filter(|piece: SpanText| piece.content.len() > 0),
    decreases pieces.len(),
{
    reveal(Seq::filter);
    if pieces.len() > 0 {
        law_nonempty_pieces_are_kept(pieces.drop_last());
    }
}

/// Keys are told apart by everything that they hold: the path, both hashes, the theme
/// and the width of a tab.
pub proof fn law_keys_differ_in_what_they_hold(a: HighlightedDiffKey, b: HighlightedDiffKey)
    ensures
        a@ == b@ <==> a.path@ == b.path@ && a.diff_hash == b.diff_hash && a.diff_params_hash
            == b.diff_params_hash && a.syntax_theme@ == b.syntax_theme@ && a.tab_width
            == b.tab_width,
{
}

/// A highlighted diff shows its key, its status and both versions, a version its path
/// and all its lines in order, and a line all its pieces in order.
pub proof fn law_highlighted_diff_shows_what_it_holds(
    diff: HighlightedDiff,
    file: HighlightedFile,
    line: HighlightedLine,
    i: int,
)
    ensures
        diff@.key == diff.key@,
        diff@.status == diff.status@,
        diff.status == HighlightStatus::Loading <==> diff@.status is Loading,
        diff.status == HighlightStatus::Ready <==> diff@.status is Ready,
        diff.status matches HighlightStatus::Failed(message) ==> diff@.status
            == StatusView::Failed(message@),
        diff.status matches HighlightStatus::Skipped(reason) ==> diff@.status
            == StatusView::Skipped(reason),
        diff.old is Some <==> diff@.old is Some,
        diff.old matches Some(old) ==> diff@.old == Some(old@),
        diff.new is Some <==> diff@.new is Some,
        diff.new matches Some(new) ==> diff@.new == Some(new@),
        file@.path == file.path@,
        file@.line_count == file.line_count,
        file@.lines.len() == file.lines@.len(),
        0 <= i < file.lines@.len() ==> file@.lines[i] == file.lines@[i]@,
        line@.len() == line.spans@.len(),
        0 <= i < line.spans@.len() ==> line@[i].content == line.spans@[i].content@ && line@[i].style
            == line.spans@[i].style,
{
}

/// Pieces are scrolled one by one. A piece of which nothing is left takes its columns
/// from those that the next ones are scrolled by; the first of which something is left
/// keeps that in its style, and those behind it are scrolled by nothing.
pub proof fn law_pieces_are_scrolled_one_by_one(
    first: SpanText,
    rest: Seq<SpanText>,
    columns: int,
)
    requires
        0 <= columns,
    ensures
        scrolled_pieces(Seq::empty(), columns) == Seq::<SpanText>::empty(),
        scrolled(first.content, columns as nat).len() == 0 && columns >= display_width(first.content)
            ==> scrolled_pieces(seq![first] + rest, columns) == scrolled_pieces(
            rest,
            columns - display_width(first.content),
        ),
        scrolled(first.content, columns as nat).len() == 0 && columns < display_width(first.content)
            ==> scrolled_pieces(seq![first] + rest, columns) == scrolled_pieces(rest, 0),
        scrolled(first.content, columns as nat).len() > 0 ==> scrolled_pieces(
            seq![first] + rest,
            columns,
        ) == seq![SpanText { content: scrolled(first.content, columns as nat), style: first.style }]
            + scrolled_pieces(rest, 0),
{
    assert((seq![first] + rest).skip(1) =~= rest);
}

} // verus!
