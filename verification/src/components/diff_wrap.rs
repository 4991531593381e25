//! Wrapping the text of a side-by-side cell into lines of a given width.

use vstd::prelude::*;

use crate::string_utils::{display_width, grapheme_clusters, graphemes, texts, width as text_width};
use crate::ui::diff_syntax::joined;
use crate::ui::style::{span_text, span_texts, Span, SpanText, Style};

verus! {

/// A grapheme cluster, its width in columns, its style, and the fragment that it
/// comes from.
#[derive(Debug)]
pub struct SideGlyph {
    pub text: String,
    pub width: usize,
    pub style: Style,
    pub fragment: usize,
}

#[verifier::ext_equal]
pub struct Glyph {
    pub text: Seq<char>,
    pub width: nat,
    pub style: Style,
    pub fragment: int,
}

impl View for SideGlyph {
    type V = Glyph;

    open spec fn view(&self) -> Glyph {
        Glyph {
            text: self.text@,
            width: self.width as nat,
            style: self.style,
            fragment: self.fragment as int,
        }
    }
}

/// What a list of glyphs shows.
pub open spec fn glyph_views(glyphs: Seq<SideGlyph>) -> Seq<Glyph> {
    glyphs.map_values(|glyph: SideGlyph| glyph@)
}

/// The glyphs of one fragment.
pub open spec fn fragment_glyphs(fragment: SpanText, index: int) -> Seq<Glyph> {
    grapheme_clusters(fragment.content).map_values(
        |text: Seq<char>|
            Glyph {
                text,
                width: display_width(text) as nat,
                style: fragment.style,
                fragment: index,
            },
    )
}

/// The glyphs of the first `n` fragments.
pub open spec fn glyphs(fragments: Seq<SpanText>, n: int) -> Seq<Glyph>
    decreases n,
{
    if n <= 0 {
        Seq::empty()
    } else {
        glyphs(fragments, n - 1) + fragment_glyphs(fragments[n - 1], n - 1)
    }
}

/// The columns that a line of glyphs takes.
pub open spec fn columns(line: Seq<Glyph>) -> int
    decreases line.len(),
{
    if line.len() == 0 {
        0
    } else {
        columns(line.drop_last()) + line.last().width
    }
}

/// A glyph starts a new line if the line so far takes room and has none left for
/// it.
pub open spec fn overflows(line: Seq<Glyph>, glyph: Glyph, width: int) -> bool {
    columns(line) > 0 && columns(line) + glyph.width > width
}

/// Glyphs filled into lines one after another.
pub open spec fn filled_lines(glyphs: Seq<Glyph>, width: int) -> Seq<Seq<Glyph>>
    decreases glyphs.len(),
{
    if glyphs.len() == 0 {
        Seq::empty()
    } else {
        let before = filled_lines(glyphs.drop_last(), width);
        let glyph = glyphs.last();
        if before.len() == 0 || overflows(before.last(), glyph, width) {
            before.push(seq![glyph])
        } else {
            before.drop_last().push(before.last().push(glyph))
        }
    }
}

/// A line of glyphs as styled text: neighbours of one fragment are one piece.
pub open spec fn line_pieces(line: Seq<Glyph>) -> Seq<SpanText>
    decreases line.len(),
{
    if line.len() == 0 {
        Seq::empty()
    } else {
        let before = line_pieces(line.drop_last());
        let glyph = line.last();
        if line.len() >= 2 && line[line.len() - 2].fragment == glyph.fragment {
            before.drop_last().push(
                span_text(before.last().content + glyph.text, before.last().style),
            )
        } else {
            before.push(span_text(glyph.text, glyph.style))
        }
    }
}

/// Lines of glyphs as lines of styled text.
pub open spec fn lines_pieces(lines: Seq<Seq<Glyph>>) -> Seq<Seq<SpanText>> {
    lines.map_values(|line: Seq<Glyph>| line_pieces(line))
}

/// The lines that fragments of text are wrapped into; there is always one.
pub open spec fn wrapped(fragments: Seq<SpanText>, width: int) -> Seq<Seq<SpanText>> {
    let lines = lines_pieces(filled_lines(glyphs(fragments, fragments.len() as int), width));
    if width <= 0 || lines.len() == 0 {
        seq![Seq::empty()]
    } else {
        lines
    }
}

/// The texts of lists of spans.
pub open spec fn cell_texts(lines: Seq<Vec<Span>>) -> Seq<Seq<SpanText>> {
    lines.map_values(|line: Vec<Span>| span_texts(line@))
}

/// The text of all lines, one after another.
pub open spec fn joined_lines(lines: Seq<Seq<SpanText>>) -> Seq<char>
    decreases lines.len(),
{
    if lines.len() == 0 {
        Seq::empty()
    } else {
        joined_lines(lines.drop_last()) + joined(lines.last())
    }
}

/// The texts of a list of glyphs, one after another.
pub open spec fn glyph_text(glyphs: Seq<Glyph>) -> Seq<char>
    decreases glyphs.len(),
{
    if glyphs.len() == 0 {
        Seq::empty()
    } else {
        glyph_text(glyphs.drop_last()) + glyphs.last().text
    }
}

proof fn lemma_pieces_nonempty(line: Seq<Glyph>)
    requires
        line.len() > 0,
    ensures
        line_pieces(line).len() > 0,
    decreases line.len(),
{
    if line.len() >= 2 {
        lemma_pieces_nonempty(line.drop_last());
    }
}

/// No line is empty.
proof fn lemma_lines_nonempty(glyphs: Seq<Glyph>, width: int)
    ensures
        forall|i: int|
            0 <= i < filled_lines(glyphs, width).len() ==> (#[trigger] filled_lines(
                glyphs,
                width,
            )[i]).len() > 0,
        glyphs.len() > 0 ==> filled_lines(glyphs, width).len() > 0,
    decreases glyphs.len(),
{
    if glyphs.len() > 0 {
        lemma_lines_nonempty(glyphs.drop_last(), width);
        let before = filled_lines(glyphs.drop_last(), width);
        let after = filled_lines(glyphs, width);
        assert forall|i: int| 0 <= i < after.len() implies (#[trigger] after[i]).len() > 0 by {
            if i < before.len() {
                assert(before[i].len() > 0);
            }
        }
    }
}

/// The last glyph ends the last line.
proof fn lemma_last_glyph(glyphs: Seq<Glyph>, width: int)
    requires
        glyphs.len() > 0,
    ensures
        filled_lines(glyphs, width).len() > 0,
        filled_lines(glyphs, width).last().len() > 0,
        filled_lines(glyphs, width).last().last() == glyphs.last(),
{
    lemma_lines_nonempty(glyphs.drop_last(), width);
}

/// Lines hold the same glyphs in the same order: nothing is lost or added by
/// wrapping.
pub proof fn law_wrapping_keeps_glyphs(glyphs: Seq<Glyph>, width: int)
    ensures
        filled_lines(glyphs, width).flatten() == glyphs,
    decreases glyphs.len(),
{
    if glyphs.len() == 0 {
        assert(filled_lines(glyphs, width).flatten() == glyphs);
    } else {
        let before = filled_lines(glyphs.drop_last(), width);
        let glyph = glyphs.last();
        law_wrapping_keeps_glyphs(glyphs.drop_last(), width);
        if before.len() == 0 || overflows(before.last(), glyph, width) {
            before.lemma_flatten_push(seq![glyph]);
            assert(before.flatten() + seq![glyph] == glyphs);
        } else {
            let shorter = before.drop_last();
            shorter.lemma_flatten_push(before.last());
            assert(shorter.push(before.last()) == before);
            shorter.lemma_flatten_push(before.last().push(glyph));
            assert(glyphs.drop_last().push(glyph) == glyphs);
            assert(shorter.flatten() + before.last().push(glyph) == (shorter.flatten()
                + before.last()).push(glyph));
        }
    }
}

/// A line ends in a glyph that is wider than the cell, and nothing else in it
/// takes room.
pub open spec fn one_wide_glyph(line: Seq<Glyph>, width: int) -> bool {
    &&& line.len() > 0
    &&& line.last().width > width
    &&& forall|j: int| 0 <= j < line.len() - 1 ==> (#[trigger] line[j]).width == 0
}

/// A line without columns has no glyph that takes room.
proof fn lemma_columns(line: Seq<Glyph>)
    ensures
        columns(line) >= 0,
        columns(line) == 0 ==> forall|j: int|
            0 <= j < line.len() ==> (#[trigger] line[j]).width == 0,
    decreases line.len(),
{
    if line.len() > 0 {
        lemma_columns(line.drop_last());
        assert forall|j: int| 0 <= j < line.len() && columns(line) == 0 implies (
        #[trigger] line[j]).width == 0 by {
            if j < line.len() - 1 {
                assert(line.drop_last()[j] == line[j]);
            }
        }
    }
}

/// A line is wider than the cell only where a single glyph is: that glyph ends
/// the line, and nothing else in it takes room. If no glyph is wider than the
/// cell, no line is either.
pub proof fn law_wrapped_lines_fit(glyphs: Seq<Glyph>, width: int)
    requires
        0 <= width,
    ensures
        forall|i: int|
            0 <= i < filled_lines(glyphs, width).len() && columns(
                #[trigger] filled_lines(glyphs, width)[i],
            ) > width ==> one_wide_glyph(filled_lines(glyphs, width)[i], width),
        (forall|i: int| 0 <= i < glyphs.len() ==> (#[trigger] glyphs[i]).width <= width) ==> (
        forall|i: int|
            0 <= i < filled_lines(glyphs, width).len() ==> columns(
                #[trigger] filled_lines(glyphs, width)[i],
            ) <= width),
    decreases glyphs.len(),
{
    if glyphs.len() > 0 {
        let shorter = glyphs.drop_last();
        law_wrapped_lines_fit(shorter, width);
        let before = filled_lines(shorter, width);
        let after = filled_lines(glyphs, width);
        let glyph = glyphs.last();
        let line = after.last();
        assert(glyph == glyphs[glyphs.len() - 1]);
        assert(line.last() == glyph);
        lemma_columns(line.drop_last());
        assert forall|j: int|
            0 <= j < line.len() - 1 && columns(line) > width && columns(line.drop_last())
                == 0 implies (#[trigger] line[j]).width == 0 by {
            assert(line.drop_last()[j] == line[j]);
        }
        if before.len() == 0 || overflows(before.last(), glyph, width) {
            assert(line.drop_last() == Seq::<Glyph>::empty());
        } else {
            assert(line.drop_last() == before.last());
        }
        assert(columns(line) > width ==> columns(line.drop_last()) == 0);
        assert(columns(line) > width ==> one_wide_glyph(line, width));
        assert forall|i: int|
            0 <= i < after.len() && columns(#[trigger] after[i]) > width implies one_wide_glyph(
            after[i],
            width,
        ) by {
            if i < after.len() - 1 {
                assert(after[i] == before[i]);
            }
        }
        if forall|i: int| 0 <= i < glyphs.len() ==> (#[trigger] glyphs[i]).width <= width {
            assert forall|i: int| 0 <= i < shorter.len() implies (#[trigger] shorter[i]).width
                <= width by {
                assert(shorter[i] == glyphs[i]);
            }
            assert forall|i: int| 0 <= i < after.len() implies columns(#[trigger] after[i])
                <= width by {
                if i < after.len() - 1 {
                    assert(after[i] == before[i]);
                }
            }
        }
    }
}

/// A line is only broken where the next glyph has no room: every line but the
/// first starts with a glyph that the line before it could not take. No line is
/// empty.
pub proof fn law_lines_break_when_full(glyphs: Seq<Glyph>, width: int)
    ensures
        forall|i: int|
            0 <= i < filled_lines(glyphs, width).len() ==> (#[trigger] filled_lines(
                glyphs,
                width,
            )[i]).len() > 0,
        forall|i: int|
            0 <= i < filled_lines(glyphs, width).len() - 1 ==> columns(
                #[trigger] filled_lines(glyphs, width)[i],
            ) > 0 && columns(filled_lines(glyphs, width)[i]) + filled_lines(glyphs, width)[i
                + 1][0].width > width,
        forall|i: int|
            0 <= i < filled_lines(glyphs, width).len() - 1 ==> overflows(
                #[trigger] filled_lines(glyphs, width)[i],
                filled_lines(glyphs, width)[i + 1][0],
                width,
            ),
    decreases glyphs.len(),
{
    lemma_lines_nonempty(glyphs, width);
    if glyphs.len() > 0 {
        law_lines_break_when_full(glyphs.drop_last(), width);
        lemma_lines_nonempty(glyphs.drop_last(), width);
        let before = filled_lines(glyphs.drop_last(), width);
        let after = filled_lines(glyphs, width);
        assert forall|i: int| 0 <= i < after.len() - 1 implies overflows(
            #[trigger] after[i],
            after[i + 1][0],
            width,
        ) by {
            if i < before.len() - 1 {
                assert(overflows(before[i], before[i + 1][0], width));
            }
        }
    }
}

proof fn lemma_line_text(line: Seq<Glyph>)
    ensures
        joined(line_pieces(line)) == glyph_text(line),
    decreases line.len(),
{
    if line.len() > 0 {
        let before = line_pieces(line.drop_last());
        let glyph = line.last();
        lemma_line_text(line.drop_last());
        if line.len() >= 2 && line[line.len() - 2].fragment == glyph.fragment {
            lemma_pieces_nonempty(line.drop_last());
            let piece = span_text(before.last().content + glyph.text, before.last().style);
            assert(before.drop_last().push(piece).drop_last() == before.drop_last());
            assert(joined(before.drop_last()) + (before.last().content + glyph.text) == (joined(
                before.drop_last(),
            ) + before.last().content) + glyph.text);
        } else {
            let piece = span_text(glyph.text, glyph.style);
            assert(before.push(piece).drop_last() == before);
        }
    }
}

pub proof fn lemma_glyph_text_add(a: Seq<Glyph>, b: Seq<Glyph>)
    ensures
        glyph_text(a + b) == glyph_text(a) + glyph_text(b),
    decreases b.len(),
{
    if b.len() == 0 {
        assert(a + b == a);
    } else {
        lemma_glyph_text_add(a, b.drop_last());
        assert((a + b).drop_last() == a + b.drop_last());
    }
}

proof fn lemma_lines_text(lines: Seq<Seq<Glyph>>)
    ensures
        joined_lines(lines_pieces(lines)) == glyph_text(lines.flatten()),
    decreases lines.len(),
{
    if lines.len() > 0 {
        let shorter = lines.drop_last();
        lemma_lines_text(shorter);
        lemma_line_text(lines.last());
        shorter.lemma_flatten_push(lines.last());
        assert(shorter.push(lines.last()) == lines);
        lemma_glyph_text_add(shorter.flatten(), lines.last());
        assert(lines_pieces(lines).drop_last() == lines_pieces(shorter));
    }
}

/// The wrapped lines show the glyphs of the fragments, one after another.
pub proof fn law_wrapping_keeps_text(fragments: Seq<SpanText>, width: int)
    requires
        width > 0,
    ensures
        joined_lines(wrapped(fragments, width)) == glyph_text(
            glyphs(fragments, fragments.len() as int),
        ),
{
    let all = glyphs(fragments, fragments.len() as int);
    let lines = filled_lines(all, width);
    law_wrapping_keeps_glyphs(all, width);
    lemma_lines_text(lines);
    if lines.len() == 0 {
        let none = Seq::<SpanText>::empty();
        assert(seq![none].drop_last() == Seq::<Seq<SpanText>>::empty());
        reveal_with_fuel(joined_lines, 2);
    }
}

/// The glyphs of fragments are their clusters, one fragment after another, each
/// with its own width and with the style of the fragment it comes from.
pub proof fn law_glyphs_come_from_fragments(fragments: Seq<SpanText>, n: int)
    requires
        0 <= n <= fragments.len(),
    ensures
        glyphs(fragments, n).map_values(|glyph: Glyph| glyph.text) == fragments.take(n).map_values(
            |fragment: SpanText| grapheme_clusters(fragment.content),
        ).flatten(),
        forall|k: int|
            0 <= k < glyphs(fragments, n).len() ==> {
                let glyph = #[trigger] glyphs(fragments, n)[k];
                &&& 0 <= glyph.fragment < n
                &&& glyph.style == fragments[glyph.fragment].style
                &&& glyph.width == display_width(glyph.text)
            },
        forall|j: int, k: int|
            0 <= j < k < glyphs(fragments, n).len() ==> (#[trigger] glyphs(fragments, n)[j]).fragment
                <= (#[trigger] glyphs(fragments, n)[k]).fragment,
    decreases n,
{
    let to_text = |glyph: Glyph| glyph.text;
    let clusters = |fragment: SpanText| grapheme_clusters(fragment.content);
    if n == 0 {
        assert(fragments.take(0).map_values(clusters).flatten() =~= Seq::<Seq<char>>::empty());
        assert(glyphs(fragments, 0).map_values(to_text) =~= Seq::<Seq<char>>::empty());
    } else {
        law_glyphs_come_from_fragments(fragments, n - 1);
        let before = glyphs(fragments, n - 1);
        let own = fragment_glyphs(fragments[n - 1], n - 1);
        let all = glyphs(fragments, n);
        let lists = fragments.take(n - 1).map_values(clusters);
        assert(all.map_values(to_text) =~= before.map_values(to_text) + own.map_values(to_text));
        assert(own.map_values(to_text) =~= grapheme_clusters(fragments[n - 1].content));
        lists.lemma_flatten_push(grapheme_clusters(fragments[n - 1].content));
        assert(lists.push(grapheme_clusters(fragments[n - 1].content))
            =~= fragments.take(n).map_values(clusters));
        assert forall|k: int| 0 <= k < all.len() implies {
            let glyph = #[trigger] all[k];
            &&& 0 <= glyph.fragment < n
            &&& glyph.style == fragments[glyph.fragment].style
            &&& glyph.width == display_width(glyph.text)
        } by {
            if k < before.len() {
                assert(all[k] == before[k]);
            } else {
                assert(all[k] == own[k - before.len()]);
            }
        }
        assert forall|j: int, k: int| 0 <= j < k < all.len() implies (#[trigger] all[j]).fragment
            <= (#[trigger] all[k]).fragment by {
            if k < before.len() {
                assert(all[j] == before[j] && all[k] == before[k]);
            } else {
                assert(all[k] == own[k - before.len()]);
                if j < before.len() {
                    assert(all[j] == before[j]);
                } else {
                    assert(all[j] == own[j - before.len()]);
                }
            }
        }
    }
}

proof fn lemma_one_piece(line: Seq<Glyph>, fragment: int, style: Style)
    requires
        line.len() > 0,
        forall|k: int|
            0 <= k < line.len() ==> (#[trigger] line[k]).fragment == fragment && line[k].style
                == style,
    ensures
        line_pieces(line) == seq![span_text(glyph_text(line), style)],
    decreases line.len(),
{
    let shorter = line.drop_last();
    assert(line[line.len() - 1].fragment == fragment);
    if line.len() > 1 {
        assert forall|k: int| 0 <= k < shorter.len() implies (#[trigger] shorter[k]).fragment
            == fragment && shorter[k].style == style by {
            assert(shorter[k] == line[k]);
        }
        lemma_one_piece(shorter, fragment, style);
        assert(line[line.len() - 2].fragment == fragment);
        assert(line_pieces(line) =~= seq![span_text(glyph_text(line), style)]);
    } else {
        reveal_with_fuel(line_pieces, 2);
        reveal_with_fuel(glyph_text, 2);
        assert(shorter =~= Seq::<Glyph>::empty());
        assert(line_pieces(line) =~= seq![span_text(glyph_text(line), style)]);
    }
}

proof fn lemma_pieces_part(a: Seq<Glyph>, b: Seq<Glyph>)
    requires
        a.len() > 0,
        b.len() > 0,
        a.last().fragment != b[0].fragment,
    ensures
        line_pieces(a + b) == line_pieces(a) + line_pieces(b),
    decreases b.len(),
{
    let all = a + b;
    let shorter = b.drop_last();
    assert(all.drop_last() == a + shorter);
    assert(all.last() == b.last());
    if b.len() > 1 {
        lemma_pieces_part(a, shorter);
        lemma_pieces_nonempty(shorter);
        assert(all[all.len() - 2] == b[b.len() - 2]);
        assert(line_pieces(all) =~= line_pieces(a) + line_pieces(b));
    } else {
        assert(a + shorter =~= a);
        assert(all[all.len() - 2] == a.last());
        reveal_with_fuel(line_pieces, 2);
        assert(line_pieces(all) =~= line_pieces(a) + line_pieces(b));
    }
}

/// The glyphs of a line that come from one fragment are drawn as one piece, in the
/// fragment's style; where the fragment changes, a new piece starts.
pub proof fn law_line_is_drawn_by_fragments(a: Seq<Glyph>, b: Seq<Glyph>)
    ensures
        line_pieces(Seq::empty()) == Seq::<SpanText>::empty(),
        a.len() > 0 && (forall|k: int|
            0 <= k < a.len() ==> (#[trigger] a[k]).fragment == a[0].fragment && a[k].style
                == a[0].style) ==> line_pieces(a) == seq![
            span_text(a.map_values(|glyph: Glyph| glyph.text).flatten(), a[0].style),
        ],
        a.len() > 0 && b.len() > 0 && a.last().fragment != b[0].fragment ==> line_pieces(a + b)
            == line_pieces(a) + line_pieces(b),
{
    if a.len() > 0 && (forall|k: int|
        0 <= k < a.len() ==> (#[trigger] a[k]).fragment == a[0].fragment && a[k].style
            == a[0].style) {
        lemma_one_piece(a, a[0].fragment, a[0].style);
        lemma_glyph_text_flattens(a);
    }
    if a.len() > 0 && b.len() > 0 && a.last().fragment != b[0].fragment {
        lemma_pieces_part(a, b);
    }
}

/// The columns of a line of glyphs are those of each glyph together.
pub proof fn law_line_takes_columns_of_glyphs(line: Seq<Glyph>, glyph: Glyph)
    ensures
        columns(Seq::empty()) == 0,
        columns(line.push(glyph)) == columns(line) + glyph.width,
{
    assert(line.push(glyph).drop_last() == line);
}

/// Where there is room to wrap into and something to wrap, each filled line is drawn
/// as a line; otherwise there is one empty line.
pub proof fn law_every_filled_line_is_drawn(fragments: Seq<SpanText>, width: int, i: int)
    ensures
        ({
            let filled = filled_lines(glyphs(fragments, fragments.len() as int), width);
            let drawn = wrapped(fragments, width);
            &&& width <= 0 || filled.len() == 0 ==> drawn == seq![Seq::<SpanText>::empty()]
            &&& width > 0 && filled.len() > 0 ==> drawn.len() == filled.len() && (0 <= i
                < filled.len() ==> drawn[i] == line_pieces(filled[i]))
        }),
{
}

/// The text of lines is that of each line, one after another.
pub proof fn law_joined_lines_are_all_lines(lines: Seq<Seq<SpanText>>)
    ensures
        joined_lines(lines) == lines.map_values(|line: Seq<SpanText>| joined(line)).flatten(),
    decreases lines.len(),
{
    let text = |line: Seq<SpanText>| joined(line);
    if lines.len() > 0 {
        law_joined_lines_are_all_lines(lines.drop_last());
        let rest = lines.drop_last().map_values(text);
        rest.lemma_flatten_push(joined(lines.last()));
        assert(rest.push(joined(lines.last())) =~= lines.map_values(text));
    }
}

/// The columns of the last line.
pub open spec fn last_columns(lines: Seq<Seq<Glyph>>) -> int {
    if lines.len() == 0 { 0 } else { columns(lines.last()) }
}

/// Puts one more glyph into filled lines. `current_width` is the width of the
/// last line; `same_fragment` says whether the glyph before is of the same
/// fragment.
fn push_side_glyph(
    lines: &mut Vec<Vec<Span>>,
    current_width: usize,
    same_fragment: bool,
    glyph: &SideGlyph,
    width: usize,
    Ghost(done): Ghost<Seq<Glyph>>,
) -> (new_width: usize)
    requires
        cell_texts(old(lines)@) == lines_pieces(filled_lines(done, width as int)),
        current_width == last_columns(filled_lines(done, width as int)),
        same_fragment == (done.len() > 0 && done.last().fragment == glyph.fragment),
    ensures
        cell_texts(final(lines)@) == lines_pieces(filled_lines(done.push(glyph@), width as int)),
        new_width == last_columns(filled_lines(done.push(glyph@), width as int)),
{
    let ghost now = done.push(glyph@);
    let ghost before = filled_lines(done, width as int);
    let ghost after = filled_lines(now, width as int);
    let ghost shown = cell_texts(lines@);
    proof {
        assert(now.drop_last() == done);
        assert(shown.len() == before.len());
        if done.len() > 0 {
            lemma_last_glyph(done, width as int);
        }
        lemma_lines_nonempty(done, width as int);
    }
    let no_room: bool = current_width > 0 && (current_width > width || glyph.width > width
        - current_width);
    if lines.is_empty() || no_room {
        let mut line: Vec<Span> = Vec::new();
        line.push(Span::styled(glyph.text.clone(), glyph.style));
        lines.push(line);
        proof {
            reveal_with_fuel(line_pieces, 2);
            reveal_with_fuel(columns, 2);
            let alone = seq![glyph@];
            assert(alone.drop_last() == Seq::<Glyph>::empty());
            assert(span_texts(line@) == line_pieces(alone));
            assert(after == before.push(alone));
            assert(cell_texts(lines@) == shown.push(span_texts(line@)));
            assert(lines_pieces(after) == lines_pieces(before).push(line_pieces(alone)));
        }
        return glyph.width;
    }
    let ghost last = before.last();
    let ghost longer = last.push(glyph@);
    let mut line = match lines.pop() {
        Some(line) => line,
        None => Vec::new(),
    };
    let ghost pieces = span_texts(line@);
    proof {
        assert(last == before[before.len() - 1]);
        assert(shown[before.len() - 1] == line_pieces(last));
        assert(pieces == line_pieces(last));
        assert(cell_texts(lines@) == shown.drop_last());
        assert(lines_pieces(before).drop_last() == lines_pieces(before.drop_last()));
        assert(longer.drop_last() == last);
        assert(after == before.drop_last().push(longer));
        assert(longer[longer.len() - 2] == last.last());
        lemma_pieces_nonempty(last);
    }
    if same_fragment {
        let mut span = match line.pop() {
            Some(span) => span,
            None => Span::raw(""),
        };
        let ghost content = span.content@;
        assert(pieces.last() == span@);
        assert(span_texts(line@) == pieces.drop_last());
        span.content.append(glyph.text.as_str());
        line.push(span);
        assert(span_texts(line@) == pieces.drop_last().push(
            span_text(content + glyph.text@, span.style),
        ));
    } else {
        line.push(Span::styled(glyph.text.clone(), glyph.style));
        assert(span_texts(line@) == pieces.push(span_text(glyph.text@, glyph.style)));
    }
    assert(span_texts(line@) == line_pieces(longer));
    let ghost rest = cell_texts(lines@);
    lines.push(line);
    proof {
        assert(cell_texts(lines@) == rest.push(span_texts(line@)));
        assert(lines_pieces(after) == lines_pieces(before.drop_last()).push(line_pieces(longer)));
    }
    current_width + glyph.width
}

/// Fills glyphs into lines of `width` columns.
pub fn fill_lines(glyphs: &Vec<SideGlyph>, width: usize) -> (lines: Vec<Vec<Span>>)
    ensures
        cell_texts(lines@) == lines_pieces(filled_lines(glyph_views(glyphs@), width as int)),
{
    let mut lines: Vec<Vec<Span>> = Vec::new();
    let mut current_width: usize = 0;
    let ghost all = glyph_views(glyphs@);
    assert(all.take(0) == Seq::<Glyph>::empty());
    assert(cell_texts(lines@) =~= lines_pieces(filled_lines(all.take(0), width as int)));
    for i in 0..glyphs.len()
        invariant
            all == glyph_views(glyphs@),
            cell_texts(lines@) == lines_pieces(filled_lines(all.take(i as int), width as int)),
            current_width == last_columns(filled_lines(all.take(i as int), width as int)),
    {
        let ghost done = all.take(i as int);
        let glyph = &glyphs[i];
        let same_fragment: bool = i > 0 && glyphs[i - 1].fragment == glyph.fragment;
        proof {
            if i > 0 {
                assert(done.last() == glyphs@[i - 1]@);
            }
            assert(done.push(glyph@) == all.take(i + 1));
        }
        let new_width: usize = push_side_glyph(
            &mut lines,
            current_width,
            same_fragment,
            glyph,
            width,
            Ghost(done),
        );
        current_width = new_width;
    }
    assert(all.take(glyphs@.len() as int) == all);
    lines
}

pub proof fn lemma_fragment_text(fragment: SpanText, index: int)
    ensures
        glyph_text(fragment_glyphs(fragment, index)) == grapheme_clusters(
            fragment.content,
        ).flatten(),
{
    let clusters = grapheme_clusters(fragment.content);
    assert(fragment_glyphs(fragment, index).map_values(|glyph: Glyph| glyph.text) =~= clusters);
    lemma_glyph_text_flattens(fragment_glyphs(fragment, index));
}

proof fn lemma_glyph_text_flattens(glyphs: Seq<Glyph>)
    ensures
        glyph_text(glyphs) == glyphs.map_values(|glyph: Glyph| glyph.text).flatten(),
    decreases glyphs.len(),
{
    let to_text = |glyph: Glyph| glyph.text;
    let list = glyphs.map_values(to_text);
    if glyphs.len() > 0 {
        let shorter = glyphs.drop_last();
        lemma_glyph_text_flattens(shorter);
        let rest = shorter.map_values(to_text);
        rest.lemma_flatten_push(glyphs.last().text);
        assert(rest.push(glyphs.last().text) =~= list);
    }
}

/// Takes fragments of text apart into measured glyphs.
pub fn measure_fragments(fragments: &Vec<Span>) -> (measured: Vec<SideGlyph>)
    ensures
        glyph_views(measured@) == glyphs(span_texts(fragments@), fragments@.len() as int),
        glyph_text(glyph_views(measured@)) == joined(span_texts(fragments@)),
{
    let mut measured: Vec<SideGlyph> = Vec::new();
    let ghost pieces = span_texts(fragments@);
    assert(glyph_views(measured@) =~= glyphs(pieces, 0));
    assert(pieces.take(0) == Seq::<SpanText>::empty());
    for f in 0..fragments.len()
        invariant
            pieces == span_texts(fragments@),
            glyph_views(measured@) == glyphs(pieces, f as int),
            glyph_text(glyph_views(measured@)) == joined(pieces.take(f as int)),
    {
        let fragment = &fragments[f];
        let clusters = graphemes(fragment.content.as_str());
        let ghost start = glyphs(pieces, f as int);
        let ghost own = fragment_glyphs(pieces[f as int], f as int);
        proof {
            assert(pieces[f as int] == fragment@);
            assert(start + own.take(0) == start);
        }
        for k in 0..clusters.len()
            invariant
                pieces[f as int] == fragment@,
                own == fragment_glyphs(pieces[f as int], f as int),
                texts(clusters@) == grapheme_clusters(fragment.content@),
                glyph_views(measured@) == start + own.take(k as int),
        {
            let text = clusters[k].clone();
            let width: usize = text_width(text.as_str());
            let glyph = SideGlyph { text, width, style: fragment.style, fragment: f };
            let ghost before = glyph_views(measured@);
            measured.push(glyph);
            proof {
                assert(texts(clusters@)[k as int] == clusters@[k as int]@);
                assert(glyph_views(measured@) =~= before.push(glyph@));
                assert(before.push(own[k as int]) == start + own.take(k + 1));
            }
        }
        proof {
            assert(own.take(clusters@.len() as int) == own);
            lemma_glyph_text_add(start, own);
            lemma_fragment_text(pieces[f as int], f as int);
            assert(pieces.take(f + 1).drop_last() == pieces.take(f as int));
        }
    }
    assert(pieces.take(pieces.len() as int) == pieces);
    measured
}

/// Wraps fragments of text into lines of `width` columns.
pub fn wrap_side_cell_fragments(fragments: &Vec<Span>, width: usize) -> (lines: Vec<Vec<Span>>)
    ensures
        cell_texts(lines@) == wrapped(span_texts(fragments@), width as int),
        width > 0 ==> joined_lines(cell_texts(lines@)) == joined(span_texts(fragments@)),
{
    let mut lines: Vec<Vec<Span>> = Vec::new();
    if width > 0 {
        let measured = measure_fragments(fragments);
        lines = fill_lines(&measured, width);
        proof {
            law_wrapping_keeps_text(span_texts(fragments@), width as int);
        }
    }
    if lines.is_empty() {
        assert(cell_texts(lines@).len() == 0);
        let line: Vec<Span> = Vec::new();
        assert(span_texts(line@) =~= Seq::<SpanText>::empty());
        lines.push(line);
        assert(cell_texts(lines@) =~= seq![Seq::<SpanText>::empty()]);
    }
    lines
}

/// Glyphs and lines of spans show the texts, widths, styles and fragments that they
/// hold, in order.
pub proof fn law_glyphs_show_what_they_hold(
    glyphs: Seq<SideGlyph>,
    lines: Seq<Vec<Span>>,
    i: int,
)
    ensures
        glyph_views(glyphs).len() == glyphs.len(),
        0 <= i < glyphs.len() ==> glyph_views(glyphs)[i] == (Glyph {
            text: glyphs[i].text@,
            width: glyphs[i].width as nat,
            style: glyphs[i].style,
            fragment: glyphs[i].fragment as int,
        }),
        cell_texts(lines).len() == lines.len(),
        0 <= i < lines.len() ==> cell_texts(lines)[i] == span_texts(lines[i]@),
{
}

} // verus!
