//! The lines of the diff that are in view.

use vstd::prelude::*;

use crate::components::diff::{monus, smaller, DiffComponent};
use crate::components::diff_render::{binary_line, draw_sizes, lemma_push_line, owned, unified_line};
use crate::model::{
    lemma_lines_of_hunks_grow, lemma_one_hunk_per_line, lemma_raw_line_of_hunk, FileDiff,
};
use crate::string_utils::format_byte_size;
use crate::ui::diff_syntax::HighlightedDiff;
use crate::ui::style::{line_texts, Line, SpanText};

verus! {

/// The distance of a signed size.
fn size_distance(delta: i64) -> (distance: u64)
    ensures
        distance == if delta >= 0 { delta as int } else { -delta },
{
    if delta >= 0 {
        delta as u64
    } else {
        (-(delta + 1)) as u64 + 1
    }
}

/// The raw line that the unified view stops before. It shows as many lines as
/// fit; the line after those is drawn too, unless it starts a hunk.
pub open spec fn unified_end(diff: FileDiff, top: int, height: int) -> int {
    let n = diff.raw_lines().len() as int;
    let max = top + height;
    if height <= 0 || top >= n {
        top
    } else if max >= n {
        n
    } else if starts_hunk(diff, max) {
        max
    } else {
        max + 1
    }
}

/// Raw line `i` is the first of its hunk.
pub open spec fn starts_hunk(diff: FileDiff, i: int) -> bool {
    exists|h: int| #[trigger] diff.in_hunk(i, h) && diff.hunk_start(h) == i
}

/// Raw line `i` is the last of its hunk.
pub open spec fn ends_hunk(diff: FileDiff, i: int) -> bool {
    exists|h: int| #[trigger] diff.in_hunk(i, h) && diff.hunk_start(h + 1) == i + 1
}

/// Whether the lines from `hunk_min` to `hunk_max` touch those from `min` to
/// `max`.
pub open spec fn touches(hunk_min: int, hunk_max: int, min: int, max: int) -> bool {
    ||| hunk_min <= min && hunk_max >= max
    ||| min <= hunk_min <= max
    ||| min <= hunk_max <= max
}

impl DiffComponent {
    pub fn hunk_visible(hunk_min: usize, hunk_max: usize, min: usize, max: usize) -> (visible: bool)
        ensures
            visible == touches(hunk_min as int, hunk_max as int, min as int, max as int),
            hunk_min <= hunk_max && min <= max ==> visible == (hunk_min <= max && min <= hunk_max),
    {
        (hunk_min <= min && hunk_max >= max) || (hunk_min >= min && hunk_min <= max) || (hunk_max
            >= min && hunk_max <= max)
    }

    /// Raw line `i` as the unified view draws it.
    pub open spec fn unified_line_text(
        self,
        diff: FileDiff,
        i: int,
        width: int,
        highlighted: Option<HighlightedDiff>,
    ) -> Seq<SpanText> {
        unified_line(
            width,
            diff.raw_lines()[i],
            self.focused && self.selection.has(i),
            self.focused && self.selected_hunk is Some && diff.in_hunk(
                i,
                self.selected_hunk->0 as int,
            ),
            ends_hunk(diff, i),
            self.theme,
            self.scroll.right as int,
            highlighted,
        )
    }

    /// The raw lines from `from` up to `to` as the unified view draws them.
    pub open spec fn unified_lines_text(
        self,
        diff: FileDiff,
        from: int,
        to: int,
        width: int,
        highlighted: Option<HighlightedDiff>,
    ) -> Seq<Seq<SpanText>> {
        Seq::new(
            monus(to, from) as nat,
            |k: int| self.unified_line_text(diff, from + k, width, highlighted),
        )
    }

    /// What the unified view draws of a diff.
    pub open spec fn unified_text(
        self,
        diff: FileDiff,
        width: int,
        height: int,
        highlighted: Option<HighlightedDiff>,
    ) -> Seq<Seq<SpanText>> {
        let top = self.scroll.top as int;
        self.unified_lines_text(diff, top, unified_end(diff, top, height), width, highlighted)
    }

    /// The highlighted files that lines are taken from, once they are ready.
    pub open spec fn ready_highlight(self) -> Option<HighlightedDiff> {
        match self.syntax_cache {
            Some(cache) => if cache@.status is Ready { Some(cache) } else { None },
            None => None,
        }
    }

    /// What is drawn: one line for a diff without hunks, otherwise the lines in
    /// view, side by side or one below the other.
    pub open spec fn text(self, width: int, height: int) -> Seq<Seq<SpanText>> {
        match self.diff {
            Some(diff) => if diff.hunks@.len() == 0 {
                seq![binary_line(diff, self.theme)]
            } else if self.drawn_side_by_side() {
                self.side_by_side_text(diff, width, height, self.ready_highlight())
            } else {
                self.unified_text(diff, width, height, self.ready_highlight())
            },
            None => Seq::empty(),
        }
    }

    /// Draws the lines of one hunk that are in view.
    fn get_hunk_text(
        &self,
        res: &mut Vec<Line>,
        diff: &FileDiff,
        h: usize,
        hunk_min: usize,
        width: u16,
        height: u16,
        highlighted: Option<&HighlightedDiff>,
    )
        requires
            diff.fits(),
            h < diff.hunks@.len(),
            hunk_min == diff.hunk_start(h as int),
            old(res)@.len() < height,
            line_texts(old(res)@) == self.unified_lines_text(
                *diff,
                self.scroll.top as int,
                smaller(
                    hunk_min as int,
                    unified_end(*diff, self.scroll.top as int, height as int),
                ),
                width as int,
                owned(highlighted),
            ),
        ensures
            line_texts(final(res)@) == self.unified_lines_text(
                *diff,
                self.scroll.top as int,
                smaller(
                    diff.hunk_start(h + 1),
                    unified_end(*diff, self.scroll.top as int, height as int),
                ),
                width as int,
                owned(highlighted),
            ),
    {
        let min: usize = self.scroll.top;
        let max: usize = min.saturating_add(height as usize);
        let hunk = &diff.hunks[h];
        let hunk_len: usize = hunk.lines.len();
        let hunk_selected: bool = self.focused() && match self.selected_hunk {
            Some(selected) => selected == h,
            None => false,
        };
        let ghost end = unified_end(*diff, min as int, height as int);
        let ghost raw = diff.raw_lines();
        proof {
            lemma_lines_of_hunks_grow(diff.hunks@, h + 1, diff.hunks@.len() as int);
            assert(line_texts(res@).len() == res@.len());
        }
        for i in 0..hunk_len
            invariant
                diff.fits(),
                h < diff.hunks@.len(),
                hunk_min == diff.hunk_start(h as int),
                hunk_min + hunk_len == diff.hunk_start(h + 1),
                hunk_min + hunk_len <= raw.len(),
                hunk.lines@ == diff.hunks@[h as int].lines@,
                hunk_len == hunk.lines@.len(),
                raw == diff.raw_lines(),
                min == self.scroll.top,
                max == smaller(min + height, usize::MAX as int),
                hunk_selected == (self.focused && self.selected_hunk == Some(h)),
                end == unified_end(*diff, min as int, height as int),
                hunk_len > 0 && min < end ==> hunk_min < min + height,
                height > 0,
                line_texts(res@) == self.unified_lines_text(
                    *diff,
                    min as int,
                    smaller(hunk_min + i, end),
                    width as int,
                    owned(highlighted),
                ),
        {
            let line_cursor: usize = hunk_min + i;
            let line = &hunk.lines[i];
            proof {
                lemma_raw_line_of_hunk(*diff, h as int, i as int);
                lemma_in_view(*diff, min as int, height as int, h as int, line_cursor as int);
            }
            let ghost before = line_texts(res@);
            let ghost now = self.unified_lines_text(
                *diff,
                min as int,
                smaller(hunk_min + i + 1, end),
                width as int,
                owned(highlighted),
            );
            if line_cursor >= min && line_cursor <= max {
                let drawn = Self::get_line_to_add(
                    width,
                    line,
                    self.focused() && self.selection.contains(line_cursor),
                    hunk_selected,
                    i == hunk_len - 1,
                    &self.theme,
                    self.scroll.right,
                    highlighted,
                );
                proof {
                    lemma_push_line(res@, drawn);
                    lemma_line_in_hunk(*diff, h as int, line_cursor as int);
                    if let Some(selected) = self.selected_hunk {
                        if diff.in_hunk(line_cursor as int, selected as int) {
                            lemma_one_hunk_per_line(
                                *diff,
                                line_cursor as int,
                                selected as int,
                                h as int,
                            );
                        }
                    }
                    assert(drawn@ == self.unified_line_text(
                        *diff,
                        line_cursor as int,
                        width as int,
                        owned(highlighted),
                    ));
                    assert(now =~= before.push(drawn@));
                }
                res.push(drawn);
            } else {
                assert(now =~= before);
            }
        }
    }

    /// Draws the diff with one line below the other.
    fn get_text_unified(
        &self,
        diff: &FileDiff,
        width: u16,
        height: u16,
        highlighted: Option<&HighlightedDiff>,
    ) -> (res: Vec<Line>)
        requires
            diff.fits(),
        ensures
            line_texts(res@) == self.unified_text(
                *diff,
                width as int,
                height as int,
                owned(highlighted),
            ),
    {
        let min: usize = self.scroll.top;
        let max: usize = min.saturating_add(height as usize);
        let mut res: Vec<Line> = Vec::new();
        let mut line_cursor: usize = 0;
        let ghost end = unified_end(*diff, min as int, height as int);
        proof {
            assert(line_texts(res@) =~= self.unified_lines_text(
                *diff,
                min as int,
                smaller(0, end),
                width as int,
                owned(highlighted),
            ));
        }
        for h in 0..diff.hunks.len()
            invariant
                diff.fits(),
                min == self.scroll.top,
                max == smaller(min + height, usize::MAX as int),
                end == unified_end(*diff, min as int, height as int),
                line_cursor == diff.hunk_start(h as int),
                line_texts(res@) == self.unified_lines_text(
                    *diff,
                    min as int,
                    smaller(line_cursor as int, end),
                    width as int,
                    owned(highlighted),
                ),
        {
            let hunk_len: usize = diff.hunks[h].lines.len();
            let hunk_min: usize = line_cursor;
            proof {
                lemma_lines_of_hunks_grow(diff.hunks@, h + 1, diff.hunks@.len() as int);
                assert(line_texts(res@).len() == res@.len());
            }
            let hunk_max: usize = hunk_min + hunk_len;
            if res.len() < height as usize && Self::hunk_visible(hunk_min, hunk_max, min, max) {
                self.get_hunk_text(&mut res, diff, h, hunk_min, width, height, highlighted);
            } else {
                proof {
                    let now = self.unified_lines_text(
                        *diff,
                        min as int,
                        smaller(hunk_max as int, end),
                        width as int,
                        owned(highlighted),
                    );
                    if min < smaller(hunk_max as int, end) && hunk_min < end && hunk_len > 0 {
                        let line = if hunk_min <= min { min as int } else { hunk_min as int };
                        lemma_raw_line_of_hunk(*diff, h as int, line - hunk_min);
                        lemma_in_view(*diff, min as int, height as int, h as int, line);
                    }
                    assert(now =~= line_texts(res@));
                }
            }
            line_cursor = hunk_max;
        }
        proof {
            let n = diff.raw_lines().len() as int;
            assert(line_cursor == n);
            assert(self.unified_lines_text(
                *diff,
                min as int,
                smaller(n, end),
                width as int,
                owned(highlighted),
            ) =~= self.unified_lines_text(
                *diff,
                min as int,
                end,
                width as int,
                owned(highlighted),
            ));
        }
        res
    }

    /// Draws the one line that stands for a diff without hunks.
    pub fn get_text_binary(&self, diff: &FileDiff) -> (res: Vec<Line>)
        ensures
            line_texts(res@) == seq![binary_line(*diff, self.theme)],
    {
        let line = draw_sizes(
            format_byte_size(diff.sizes.0),
            format_byte_size(diff.sizes.1),
            diff.size_delta >= 0,
            format_byte_size(size_distance(diff.size_delta)).as_str(),
            &self.theme,
        );
        let mut res: Vec<Line> = Vec::new();
        res.push(line);
        assert(line_texts(res@) =~= seq![line@]);
        res
    }

    /// Draws the lines in view.
    pub fn get_text(&self, width: u16, height: u16) -> (res: Vec<Line>)
        requires
            self.wf(),
        ensures
            line_texts(res@) == self.text(width as int, height as int),
    {
        let diff = match &self.diff {
            Some(diff) => diff,
            None => {
                let res: Vec<Line> = Vec::new();
                assert(line_texts(res@) =~= Seq::<Seq<SpanText>>::empty());
                return res;
            },
        };
        let highlighted = match &self.syntax_cache {
            Some(cache) => if cache.is_ready() { Some(cache) } else { None },
            None => None,
        };
        assert(owned(highlighted) == self.ready_highlight());
        if diff.hunks.is_empty() {
            self.get_text_binary(diff)
        } else if self.side_by_side_render_active() {
            self.get_text_side_by_side(diff, width, height, highlighted)
        } else {
            self.get_text_unified(diff, width, height, highlighted)
        }
    }
}

/// A line of a hunk that the unified view reaches is drawn exactly when it lies
/// between the first line in view and the one after the last; and a hunk with
/// such a line starts among the lines that fit.
proof fn lemma_in_view(diff: FileDiff, top: int, height: int, h: int, line: int)
    requires
        0 <= top,
        0 < height,
        diff.in_hunk(line, h),
        line < diff.raw_lines().len(),
    ensures
        top <= line < unified_end(diff, top, height) ==> line <= top + height && diff.hunk_start(h)
            < top + height,
        diff.hunk_start(h) < top + height && top <= line <= top + height ==> line < unified_end(
            diff,
            top,
            height,
        ),
{
    let max = top + height;
    if line == max && starts_hunk(diff, max) {
        let g = choose|g: int| #[trigger] diff.in_hunk(max, g) && diff.hunk_start(g) == max;
        lemma_one_hunk_per_line(diff, max, g, h);
    }
}

/// The last line of a hunk is known by the hunk's end.
pub proof fn lemma_line_in_hunk(diff: FileDiff, h: int, line: int)
    requires
        diff.in_hunk(line, h),
    ensures
        ends_hunk(diff, line) == (diff.hunk_start(h + 1) == line + 1),
{
    if ends_hunk(diff, line) {
        let g = choose|g: int| #[trigger] diff.in_hunk(line, g) && diff.hunk_start(g + 1) == line + 1;
        lemma_one_hunk_per_line(diff, line, g, h);
    }
}

} // verus!
