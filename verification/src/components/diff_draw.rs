//! What the component puts on the screen: its title, its text and its scroll
//! bars.

use vstd::prelude::*;

use crate::components::diff::{monus, DiffComponent, ScrollOffsets};
use crate::components::diff_display::DiffViewMode;
use crate::model::LineStats;
use crate::string_utils::{decimal, decimal_string};
use crate::ui::diff_syntax::{HighlightSkipReason, HighlightStatus, StatusView};
use crate::ui::style::{line_texts, span_text, Line, Span, SpanText, Style};

verus! {

/// What the scroll positions are worked out from.
#[derive(Clone, Copy, PartialEq, Eq, Debug, Structural)]
pub struct ScrollExtents {
    /// The line that is to stay in view.
    pub selection: usize,
    /// The number of display lines.
    pub lines: usize,
    /// The number of lines that fit.
    pub height: usize,
    /// The width of the longest line.
    pub longest_line: usize,
    /// The number of columns that fit.
    pub columns: usize,
}

/// What is put on the screen.
#[derive(PartialEq, Eq, Debug)]
pub struct Drawing {
    pub title: String,
    pub title_style: Style,
    pub border_style: Style,
    pub text: Vec<Line>,
    /// Counts of added and deleted lines, at the right end of the title line.
    pub line_stats: Option<Line>,
    pub vertical_bar: bool,
    pub horizontal_bar: bool,
}

#[verifier::ext_equal]
pub struct DrawingView {
    pub title: Seq<char>,
    pub title_style: Style,
    pub border_style: Style,
    pub text: Seq<Seq<SpanText>>,
    pub line_stats: Option<Seq<SpanText>>,
    pub vertical_bar: bool,
    pub horizontal_bar: bool,
}

impl View for Drawing {
    type V = DrawingView;

    open spec fn view(&self) -> DrawingView {
        DrawingView {
            title: self.title@,
            title_style: self.title_style,
            border_style: self.border_style,
            text: line_texts(self.text@),
            line_stats: match self.line_stats {
                Some(line) => Some(line@),
                None => None,
            },
            vertical_bar: self.vertical_bar,
            horizontal_bar: self.horizontal_bar,
        }
    }
}

/// The name of a reason, with its numbers.
pub open spec fn reason_text(reason: HighlightSkipReason) -> Seq<char> {
    match reason {
        HighlightSkipReason::Binary => "Binary"@,
        HighlightSkipReason::TooLarge { bytes, max_bytes } => "TooLarge { bytes: "@ + decimal(
            bytes as nat,
        ) + ", max_bytes: "@ + decimal(max_bytes as nat) + " }"@,
        HighlightSkipReason::TooManyLines { lines, max_lines } => "TooManyLines { lines: "@
            + decimal(lines as nat) + ", max_lines: "@ + decimal(max_lines as nat) + " }"@,
        HighlightSkipReason::MissingContent => "MissingContent"@,
    }
}

/// Writes out why a file was not highlighted.
pub fn skip_reason_text(reason: &HighlightSkipReason) -> (text: String)
    ensures
        text@ == reason_text(*reason),
{
    match reason {
        HighlightSkipReason::Binary => "Binary".to_owned(),
        HighlightSkipReason::TooLarge { bytes, max_bytes } => {
            let mut text = "TooLarge { bytes: ".to_owned();
            text.append(decimal_string(*bytes).as_str());
            text.append(", max_bytes: ");
            text.append(decimal_string(*max_bytes).as_str());
            text.append(" }");
            text
        },
        HighlightSkipReason::TooManyLines { lines, max_lines } => {
            let mut text = "TooManyLines { lines: ".to_owned();
            text.append(decimal_string(*lines as u64).as_str());
            text.append(", max_lines: ");
            text.append(decimal_string(*max_lines as u64).as_str());
            text.append(" }");
            text
        },
        HighlightSkipReason::MissingContent => "MissingContent".to_owned(),
    }
}

/// The part of the title that says how highlighting goes.
pub open spec fn highlight_note(progress: Option<u8>, status: Option<StatusView>) -> Seq<char> {
    match (progress, status) {
        (Some(percent), _) => " [syntax: "@ + decimal(percent as nat) + "%]"@,
        (None, Some(StatusView::Skipped(reason))) => " [syntax skipped: "@ + reason_text(reason)
            + "]"@,
        (None, Some(StatusView::Failed(_))) => " [syntax failed]"@,
        _ => Seq::empty(),
    }
}

impl DiffComponent {
    /// How highlighting goes, for the title.
    pub open spec fn title_note(self) -> Seq<char> {
        highlight_note(
            match self.syntax_progress {
                Some(progress) => Some(progress.progress),
                None => None,
            },
            match self.syntax_cache {
                Some(cache) => Some(cache.status@),
                None => None,
            },
        )
    }

    pub fn syntax_title_suffix(&self) -> (suffix: String)
        ensures
            suffix@ == self.title_note(),
    {
        if let Some(progress) = self.syntax_progress {
            let mut suffix = " [syntax: ".to_owned();
            suffix.append(decimal_string(progress.progress as u64).as_str());
            suffix.append("%]");
            return suffix;
        }
        match &self.syntax_cache {
            Some(cache) => match &cache.status {
                HighlightStatus::Skipped(reason) => {
                    let mut suffix = " [syntax skipped: ".to_owned();
                    suffix.append(skip_reason_text(reason).as_str());
                    suffix.append("]");
                    suffix
                },
                HighlightStatus::Failed(_) => " [syntax failed]".to_owned(),
                _ => String::new(),
            },
            None => String::new(),
        }
    }

    /// The title: what it starts with, the view mode, the path, and how
    /// highlighting goes.
    pub open spec fn title_text(self, title_diff: Seq<char>) -> Seq<char> {
        title_diff + (if self.side_by_side() { "[side-by-side] "@ } else { ""@ })
            + self.current.path@ + self.title_note()
    }

    pub fn title(&self, title_diff: &str) -> (title: String)
        ensures
            title@ == self.title_text(title_diff@),
    {
        let mut title = title_diff.to_owned();
        title.append(
            if self.effective_view_mode() == DiffViewMode::SideBySide {
                "[side-by-side] "
            } else {
                ""
            },
        );
        title.append(self.current.path.as_str());
        title.append(self.syntax_title_suffix().as_str());
        title
    }

    /// The counts of added and deleted lines, as the title line shows them.
    pub open spec fn stats_line(self, additions: nat, deletions: nat) -> Seq<SpanText> {
        seq![
            span_text(seq!['+'] + decimal(additions), self.theme.line_stats_addition),
            span_text(seq![' '], Style::plain()),
            span_text(seq!['-'] + decimal(deletions), self.theme.line_stats_deletion),
        ]
    }

    pub fn line_stats_title(&self, line_stats: LineStats) -> (line: Line)
        ensures
            line@ == self.stats_line(line_stats.additions as nat, line_stats.deletions as nat),
    {
        let mut additions = String::new();
        additions.push('+');
        additions.append(decimal_string(line_stats.additions as u64).as_str());
        assert(additions@ =~= seq!['+'] + decimal(line_stats.additions as nat));
        let mut deletions = String::new();
        deletions.push('-');
        deletions.append(decimal_string(line_stats.deletions as u64).as_str());
        assert(deletions@ =~= seq!['-'] + decimal(line_stats.deletions as nat));
        let mut gap = String::new();
        gap.push(' ');
        assert(gap@ =~= seq![' ']);
        let mut spans: Vec<Span> = Vec::new();
        spans.push(Span::styled(additions, self.theme.line_stats_addition));
        spans.push(Span::styled(gap, Style::default()));
        spans.push(Span::styled(deletions, self.theme.line_stats_deletion));
        let line = Line { spans };
        assert(line@ =~= self.stats_line(
            line_stats.additions as nat,
            line_stats.deletions as nat,
        ));
        line
    }

    /// The component in an area of that size: a border takes a line and a column
    /// on each side.
    pub open spec fn sized(self, width: u16, height: u16) -> DiffComponent {
        DiffComponent {
            current_size: (monus(width as int, 2) as u16, monus(height as int, 2) as u16),
            ..self
        }
    }

    /// What the scroll positions are worked out from.
    pub open spec fn extents(self) -> ScrollExtents {
        ScrollExtents {
            selection: self.selection.end() as usize,
            lines: self.line_total() as usize,
            height: self.current_size.1 as usize,
            longest_line: self.longest_line,
            columns: self.visible_columns() as usize,
        }
    }

    /// Takes on the size of the area to draw in, and says what the scroll
    /// positions follow from.
    pub fn prepare_draw(&mut self, width: u16, height: u16) -> (extents: ScrollExtents)
        requires
            old(self).wf(),
        ensures
            final(self).wf(),
            *final(self) == old(self).sized(width, height),
            extents == final(self).extents(),
    {
        self.current_size = (width.saturating_sub(2), height.saturating_sub(2));
        let columns: u16 = if self.side_by_side_render_active() {
            self.side_cell_width()
        } else {
            self.current_size.0
        };
        ScrollExtents {
            selection: self.selection.get_end(),
            lines: self.lines_count(),
            height: self.current_size.1 as usize,
            longest_line: self.longest_line,
            columns: columns as usize,
        }
    }

    /// Scrolls the view.
    pub fn scroll_to(&mut self, scroll: ScrollOffsets)
        ensures
            *final(self) == (DiffComponent { scroll, ..*old(self) }),
    {
        self.scroll = scroll;
    }

    /// What is put on the screen in an area of `width` columns. While the diff is
    /// awaited that is only a notice; scroll bars are for the focused view.
    pub open spec fn drawing(
        self,
        width: u16,
        title_diff: Seq<char>,
        loading_text: Seq<char>,
    ) -> DrawingView {
        DrawingView {
            title: self.title_text(title_diff),
            title_style: self.theme.title.of(self.focused),
            border_style: self.theme.block.of(self.focused),
            text: if self.pending {
                seq![seq![span_text(loading_text, self.theme.text)]]
            } else {
                self.text(width as int, self.current_size.1 as int)
            },
            line_stats: if self.pending {
                None
            } else {
                match self.stats() {
                    Some((additions, deletions)) => Some(self.stats_line(additions, deletions)),
                    None => None,
                }
            },
            vertical_bar: self.focused,
            horizontal_bar: self.focused && self.hidden_columns() > 0,
        }
    }

    /// Draws the component in an area of `width` columns, once its size and its
    /// scroll positions are set.
    pub fn draw(&self, width: u16, title_diff: &str, loading_text: &str) -> (drawing: Drawing)
        requires
            self.wf(),
        ensures
            drawing@ == self.drawing(width, title_diff@, loading_text@),
    {
        let title = self.title(title_diff);
        let text = if self.pending {
            let mut spans: Vec<Span> = Vec::new();
            spans.push(Span::styled(loading_text.to_owned(), self.theme.text));
            let line = Line { spans };
            assert(line@ =~= seq![span_text(loading_text@, self.theme.text)]);
            let mut text: Vec<Line> = Vec::new();
            text.push(line);
            assert(line_texts(text@) =~= seq![line@]);
            text
        } else {
            self.get_text(width, self.current_size.1)
        };
        let line_stats = if self.pending {
            None
        } else {
            match self.line_stats() {
                Some(stats) => Some(self.line_stats_title(stats)),
                None => None,
            }
        };
        Drawing {
            title,
            title_style: self.theme.title.pick(self.focused),
            border_style: self.theme.block.pick(self.focused),
            text,
            line_stats,
            vertical_bar: self.focused(),
            horizontal_bar: self.focused() && self.max_scroll_right() > 0,
        }
    }

    /// The component as the unified view shows it, whatever its own view mode.
    pub open spec fn as_unified(self) -> DiffComponent {
        DiffComponent { render_view_mode_override: Some(DiffViewMode::Unified), ..self }
    }

    /// The component with nothing in the place of its own view mode.
    pub open spec fn in_own_mode(self) -> DiffComponent {
        DiffComponent { render_view_mode_override: None, ..self }
    }

    /// Takes on the size of the area that the unified view is to be drawn in.
    pub fn prepare_draw_unified(&mut self, width: u16, height: u16) -> (extents: ScrollExtents)
        requires
            old(self).wf(),
        ensures
            final(self).wf(),
            *final(self) == old(self).sized(width, height).in_own_mode(),
            extents == old(self).sized(width, height).as_unified().extents(),
    {
        self.render_view_mode_override = Some(DiffViewMode::Unified);
        let extents = self.prepare_draw(width, height);
        self.render_view_mode_override = None;
        extents
    }

    /// Draws the unified view, whatever the component's own view mode.
    pub fn draw_unified(&mut self, width: u16, title_diff: &str, loading_text: &str) -> (drawing:
        Drawing)
        requires
            old(self).wf(),
        ensures
            final(self).wf(),
            *final(self) == old(self).in_own_mode(),
            drawing@ == old(self).as_unified().drawing(width, title_diff@, loading_text@),
    {
        self.render_view_mode_override = Some(DiffViewMode::Unified);
        let drawing = self.draw(width, title_diff, loading_text);
        self.render_view_mode_override = None;
        drawing
    }
}

/// The title starts as it is told to, names the view mode where lines stand side by
/// side, then the path on show, and ends in how highlighting goes.
pub proof fn law_title_names_path_and_mode(component: DiffComponent, title_diff: Seq<char>)
    ensures
        component.side_by_side() ==> component.title_text(title_diff) == title_diff
            + "[side-by-side] "@ + component.current.path@ + component.title_note(),
        !component.side_by_side() ==> component.title_text(title_diff) == title_diff
            + component.current.path@ + component.title_note(),
{
    reveal_strlit("");
    assert(title_diff + ""@ =~= title_diff);
}

/// As long as a job runs the title says how far it has come. Afterwards it says why a
/// file was not highlighted, or that highlighting it failed, and nothing else.
pub proof fn law_title_says_how_highlighting_goes(component: DiffComponent)
    ensures
        component.syntax_progress matches Some(progress) ==> component.title_note()
            == " [syntax: "@ + decimal(progress.progress as nat) + "%]"@,
        component.syntax_progress is None && component.syntax_cache is None
            ==> component.title_note().len() == 0,
        component.syntax_progress is None && component.syntax_cache is Some
            ==> match component.syntax_cache->0.status {
            HighlightStatus::Skipped(reason) => component.title_note() == " [syntax skipped: "@
                + reason_text(reason) + "]"@,
            HighlightStatus::Failed(_) => component.title_note() == " [syntax failed]"@,
            HighlightStatus::Ready => component.title_note().len() == 0,
            HighlightStatus::Loading => component.title_note().len() == 0,
        },
{
}

/// A reason is written out with both numbers that it compares.
pub proof fn law_reason_names_its_numbers(bytes: u64, max_bytes: u64, lines: usize, max_lines: usize)
    ensures
        reason_text(HighlightSkipReason::Binary) == "Binary"@,
        reason_text(HighlightSkipReason::MissingContent) == "MissingContent"@,
        reason_text(HighlightSkipReason::TooLarge { bytes, max_bytes }) == "TooLarge { bytes: "@
            + decimal(bytes as nat) + ", max_bytes: "@ + decimal(max_bytes as nat) + " }"@,
        reason_text(HighlightSkipReason::TooManyLines { lines, max_lines })
            == "TooManyLines { lines: "@ + decimal(lines as nat) + ", max_lines: "@ + decimal(
            max_lines as nat,
        ) + " }"@,
{
}

/// The counts are written with a plus before the additions and a minus before the
/// deletions, each in its own style.
pub proof fn law_counts_are_signed(component: DiffComponent, additions: nat, deletions: nat)
    ensures
        ({
            let line = component.stats_line(additions, deletions);
            &&& line.len() == 3
            &&& line[0].content == seq!['+'] + decimal(additions)
            &&& line[0].style == component.theme.line_stats_addition
            &&& line[1].content == seq![' ']
            &&& line[2].content == seq!['-'] + decimal(deletions)
            &&& line[2].style == component.theme.line_stats_deletion
        }),
{
}

/// A border takes one column and one line on each side of the area. The scroll
/// positions follow the line that the selection was last moved to, among all lines,
/// and the longest of them.
pub proof fn law_area_is_measured(component: DiffComponent, width: u16, height: u16)
    requires
        component.wf(),
    ensures
        ({
            let sized = component.sized(width, height);
            let extents = sized.extents();
            &&& sized == (DiffComponent { current_size: sized.current_size, ..component })
            &&& width >= 2 ==> sized.current_size.0 == width - 2
            &&& width < 2 ==> sized.current_size.0 == 0
            &&& height >= 2 ==> sized.current_size.1 == height - 2
            &&& height < 2 ==> sized.current_size.1 == 0
            &&& extents.selection == component.selection.end()
            &&& extents.lines == component.line_total()
            &&& extents.height == sized.current_size.1
            &&& extents.longest_line == component.longest_line
            &&& extents.columns == sized.visible_columns()
        }),
{
    if let Some(diff) = component.diff {
        crate::components::diff_display::law_layout_not_longer(diff);
    }
}

/// While the diff is awaited only a notice is drawn, otherwise the lines in view and
/// the counts of the diff. Title and border are those of the focused component where
/// it is focused; only then there are scroll bars, the horizontal one only where
/// columns are hidden.
pub proof fn law_waiting_component_draws_notice(
    component: DiffComponent,
    width: u16,
    title_diff: Seq<char>,
    loading_text: Seq<char>,
)
    ensures
        ({
            let drawing = component.drawing(width, title_diff, loading_text);
            &&& drawing.title == component.title_text(title_diff)
            &&& drawing.title_style == if component.focused {
                component.theme.title.active
            } else {
                component.theme.title.normal
            }
            &&& drawing.border_style == if component.focused {
                component.theme.block.active
            } else {
                component.theme.block.normal
            }
            &&& component.pending ==> drawing.text == seq![
                seq![span_text(loading_text, component.theme.text)],
            ] && drawing.line_stats is None
            &&& !component.pending ==> drawing.text == component.text(
                width as int,
                component.current_size.1 as int,
            )
            &&& !component.pending && component.stats() is None ==> drawing.line_stats is None
            &&& !component.pending ==> (component.stats() matches Some((additions, deletions))
                ==> drawing.line_stats == Some(component.stats_line(additions, deletions)))
            &&& drawing.vertical_bar == component.focused
            &&& drawing.horizontal_bar == (component.focused && component.hidden_columns() > 0)
        }),
{
}

/// The unified view is the component with that mode in the place of its own, which it
/// goes back to afterwards.
pub proof fn law_unified_view_takes_place_of_mode(component: DiffComponent)
    ensures
        component.as_unified() == (DiffComponent {
            render_view_mode_override: Some(DiffViewMode::Unified),
            ..component
        }),
        component.as_unified().in_own_mode() == (DiffComponent {
            render_view_mode_override: None,
            ..component
        }),
        !component.as_unified().side_by_side(),
        component.in_own_mode().shown_mode() == component.view_mode,
{
}

/// What is put on the screen shows all that it holds.
pub proof fn law_drawing_shows_what_it_holds(drawing: Drawing)
    ensures
        drawing@.title == drawing.title@,
        drawing@.title_style == drawing.title_style,
        drawing@.border_style == drawing.border_style,
        drawing@.text == line_texts(drawing.text@),
        drawing@.line_stats is Some <==> drawing.line_stats is Some,
        drawing.line_stats matches Some(line) ==> drawing@.line_stats == Some(line@),
        drawing@.vertical_bar == drawing.vertical_bar,
        drawing@.horizontal_bar == drawing.horizontal_bar,
{
}

} // verus!
