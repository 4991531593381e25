//! Styled text and the theme that styles are taken from.

use vstd::prelude::*;

use crate::model::DiffLineType;

verus! {

#[derive(Clone, Copy, PartialEq, Eq, Debug, Structural)]
pub enum Color {
    Reset,
    Black,
    Red,
    Green,
    Yellow,
    Blue,
    Magenta,
    Cyan,
    Gray,
    DarkGray,
    LightRed,
    LightGreen,
    LightYellow,
    LightBlue,
    LightMagenta,
    LightCyan,
    White,
    Rgb(u8, u8, u8),
    Indexed(u8),
}

/// Colours and modifier bits of a text; what is not set is left as it is.
#[derive(Clone, Copy, PartialEq, Eq, Debug, Structural)]
pub struct Style {
    pub fg: Option<Color>,
    pub bg: Option<Color>,
    pub add_modifier: u16,
    pub sub_modifier: u16,
}

/// `a` if it is set, otherwise `b`.
pub open spec fn first_set<T>(a: Option<T>, b: Option<T>) -> Option<T> {
    if a is Some { a } else { b }
}

impl Style {
    /// The style that sets nothing.
    pub open spec fn plain() -> Style {
        Style { fg: None, bg: None, add_modifier: 0, sub_modifier: 0 }
    }

    pub open spec fn on(self, color: Color) -> Style {
        Style { bg: Some(color), ..self }
    }

    /// `other` laid over this style: what `other` sets wins.
    pub open spec fn patched(self, other: Style) -> Style {
        Style {
            fg: first_set(other.fg, self.fg),
            bg: first_set(other.bg, self.bg),
            add_modifier: (self.add_modifier & !other.sub_modifier) | other.add_modifier,
            sub_modifier: (self.sub_modifier & !other.add_modifier) | other.sub_modifier,
        }
    }

    /// This style with another background.
    pub fn bg(self, color: Color) -> (style: Style)
        ensures
            style == self.on(color),
    {
        Style { bg: Some(color), ..self }
    }

    /// Lays `other` over this style.
    pub fn patch(self, other: Style) -> (style: Style)
        ensures
            style == self.patched(other),
    {
        Style {
            fg: if other.fg.is_some() { other.fg } else { self.fg },
            bg: if other.bg.is_some() { other.bg } else { self.bg },
            add_modifier: (self.add_modifier & !other.sub_modifier) | other.add_modifier,
            sub_modifier: (self.sub_modifier & !other.add_modifier) | other.sub_modifier,
        }
    }
}

impl Default for Style {
    fn default() -> (style: Self)
        ensures
            style == Style::plain(),
    {
        Style { fg: None, bg: None, add_modifier: 0, sub_modifier: 0 }
    }
}

/// Laying the plain style over a style changes nothing.
pub proof fn law_patch_plain(style: Style)
    ensures
        style.patched(Style::plain()) == style,
{
    let add = style.add_modifier;
    let sub = style.sub_modifier;
    assert((add & !0u16) | 0u16 == add) by (bit_vector);
    assert((sub & !0u16) | 0u16 == sub) by (bit_vector);
}

/// Laying a style over another twice is laying it once.
pub proof fn law_patch_twice(style: Style, other: Style)
    ensures
        style.patched(other).patched(other) == style.patched(other),
{
    let a = style.add_modifier;
    let s = style.sub_modifier;
    let x = other.add_modifier;
    let y = other.sub_modifier;
    assert((((a & !y) | x) & !y) | x == (a & !y) | x) by (bit_vector);
    assert((((s & !x) | y) & !x) | y == (s & !x) | y) by (bit_vector);
}

/// What the style that is laid over sets wins, colour by colour; what it does not
/// set stays. Modifiers that it adds are added and no longer taken away, and those
/// that it takes away are taken away and no longer added, unless it adds them too.
pub proof fn law_patch_wins_where_it_sets(style: Style, other: Style, color: Color)
    ensures
        other.fg is Some ==> style.patched(other).fg == other.fg,
        other.fg is None ==> style.patched(other).fg == style.fg,
        other.bg is Some ==> style.patched(other).bg == other.bg,
        other.bg is None ==> style.patched(other).bg == style.bg,
        style.patched(other).add_modifier == (style.add_modifier & !other.sub_modifier)
            | other.add_modifier,
        style.patched(other).sub_modifier == (style.sub_modifier & !other.add_modifier)
            | other.sub_modifier,
        style.on(color) == (Style { bg: Some(color), ..style }),
        Style::plain() == (Style { fg: None, bg: None, add_modifier: 0, sub_modifier: 0 }),
{
}

/// A styled piece of text, as contracts speak of it.
#[verifier::ext_equal]
pub struct SpanText {
    pub content: Seq<char>,
    pub style: Style,
}

pub open spec fn span_text(content: Seq<char>, style: Style) -> SpanText {
    SpanText { content, style }
}

/// A styled piece of text.
#[derive(PartialEq, Eq, Debug)]
pub struct Span {
    pub content: String,
    pub style: Style,
}

impl View for Span {
    type V = SpanText;

    open spec fn view(&self) -> SpanText {
        SpanText { content: self.content@, style: self.style }
    }
}

impl Clone for Span {
    fn clone(&self) -> (span: Self)
        ensures
            span@ == self@,
    {
        Span { content: self.content.clone(), style: self.style }
    }
}

impl Span {
    pub fn styled(content: String, style: Style) -> (span: Span)
        ensures
            span@ == span_text(content@, style),
    {
        Span { content, style }
    }

    pub fn raw(content: &str) -> (span: Span)
        ensures
            span@ == span_text(content@, Style::plain()),
    {
        Span { content: content.to_owned(), style: Style::default() }
    }
}

/// The pieces of a list of spans.
pub open spec fn span_texts(spans: Seq<Span>) -> Seq<SpanText> {
    spans.map_values(|span: Span| span@)
}

/// A line of styled text.
#[derive(PartialEq, Eq, Debug)]
pub struct Line {
    pub spans: Vec<Span>,
}

impl View for Line {
    type V = Seq<SpanText>;

    open spec fn view(&self) -> Seq<SpanText> {
        span_texts(self.spans@)
    }
}

/// The texts of a list of lines.
pub open spec fn line_texts(lines: Seq<Line>) -> Seq<Seq<SpanText>> {
    lines.map_values(|line: Line| line@)
}

/// The style of something in its ordinary state and when it is selected or
/// focused.
#[derive(Clone, Copy, PartialEq, Eq, Debug, Structural)]
pub struct StylePair {
    pub normal: Style,
    pub active: Style,
}

impl StylePair {
    pub open spec fn of(self, active: bool) -> Style {
        if active { self.active } else { self.normal }
    }

    pub fn pick(&self, active: bool) -> (style: Style)
        ensures
            style == self.of(active),
    {
        if active { self.active } else { self.normal }
    }
}

/// The styles that the diff is drawn in.
#[derive(Debug)]
pub struct Theme {
    /// Shown in place of an empty changed line.
    pub line_break: String,
    /// The name of the syntax highlighting theme.
    pub syntax: String,
    pub add: StylePair,
    pub delete: StylePair,
    pub header: StylePair,
    pub context: StylePair,
    pub add_background: Option<Color>,
    pub delete_background: Option<Color>,
    pub header_background: Option<Color>,
    pub context_background: Option<Color>,
    pub hunk_marker: StylePair,
    /// Laid over whatever is selected.
    pub selection: Style,
    pub text: Style,
    pub title: StylePair,
    pub block: StylePair,
    pub line_stats_addition: Style,
    pub line_stats_deletion: Style,
}

impl Theme {
    /// The style of a diff line.
    pub open spec fn line_style(self, line_type: DiffLineType, selected: bool) -> Style {
        match line_type {
            DiffLineType::Add => self.add.of(selected),
            DiffLineType::Delete => self.delete.of(selected),
            DiffLineType::Header => self.header.of(selected),
            DiffLineType::Context => self.context.of(selected),
        }
    }

    /// The background of a highlighted diff line, if it has one.
    pub open spec fn line_background(self, line_type: DiffLineType) -> Option<Color> {
        match line_type {
            DiffLineType::Add => self.add_background,
            DiffLineType::Delete => self.delete_background,
            DiffLineType::Header => self.header_background,
            DiffLineType::Context => self.context_background,
        }
    }

    /// A style as it looks on a selected or unselected line.
    pub open spec fn with_selection(self, style: Style, selected: bool) -> Style {
        if selected { style.patched(self.selection) } else { style }
    }

    pub fn diff_line(&self, line_type: DiffLineType, selected: bool) -> (style: Style)
        ensures
            style == self.line_style(line_type, selected),
    {
        match line_type {
            DiffLineType::Add => self.add.pick(selected),
            DiffLineType::Delete => self.delete.pick(selected),
            DiffLineType::Header => self.header.pick(selected),
            DiffLineType::Context => self.context.pick(selected),
        }
    }

    pub fn diff_line_background(&self, line_type: DiffLineType) -> (color: Option<Color>)
        ensures
            color == self.line_background(line_type),
    {
        match line_type {
            DiffLineType::Add => self.add_background,
            DiffLineType::Delete => self.delete_background,
            DiffLineType::Header => self.header_background,
            DiffLineType::Context => self.context_background,
        }
    }

    pub fn diff_hunk_marker(&self, selected: bool) -> (style: Style)
        ensures
            style == self.hunk_marker.of(selected),
    {
        self.hunk_marker.pick(selected)
    }

    pub fn apply_selection(&self, style: Style, selected: bool) -> (result: Style)
        ensures
            result == self.with_selection(style, selected),
    {
        if selected { style.patch(self.selection) } else { style }
    }
}

/// Every kind of line has its own style and its own background; a pair gives its
/// active style where it is selected. The selection is laid over a selected style
/// and leaves another as it is.
pub proof fn law_kinds_have_their_styles(theme: Theme, style: Style, selected: bool)
    ensures
        theme.line_style(DiffLineType::Add, selected) == if selected {
            theme.add.active
        } else {
            theme.add.normal
        },
        theme.line_style(DiffLineType::Delete, selected) == if selected {
            theme.delete.active
        } else {
            theme.delete.normal
        },
        theme.line_style(DiffLineType::Header, selected) == if selected {
            theme.header.active
        } else {
            theme.header.normal
        },
        theme.line_style(DiffLineType::Context, selected) == if selected {
            theme.context.active
        } else {
            theme.context.normal
        },
        theme.hunk_marker.of(selected) == if selected {
            theme.hunk_marker.active
        } else {
            theme.hunk_marker.normal
        },
        theme.line_background(DiffLineType::Add) == theme.add_background,
        theme.line_background(DiffLineType::Delete) == theme.delete_background,
        theme.line_background(DiffLineType::Header) == theme.header_background,
        theme.line_background(DiffLineType::Context) == theme.context_background,
        theme.with_selection(style, true) == style.patched(theme.selection),
        theme.with_selection(style, false) == style,
{
}

/// Pieces and lines show the texts and the styles that they hold, in order.
pub proof fn law_pieces_show_texts_and_styles(span: Span, spans: Seq<Span>, lines: Seq<Line>, i: int)
    ensures
        span@.content == span.content@,
        span@.style == span.style,
        span_texts(spans).len() == spans.len(),
        0 <= i < spans.len() ==> span_texts(spans)[i] == spans[i]@,
        line_texts(lines).len() == lines.len(),
        0 <= i < lines.len() ==> line_texts(lines)[i] == span_texts(lines[i].spans@),
{
}

impl Default for Theme {
    /// A theme without any colour.
    fn default() -> (theme: Self)
        ensures
            theme.line_break@ == seq!['¶'],
            theme.syntax@ == Seq::<char>::empty(),
            forall|line_type: DiffLineType, selected: bool|
                theme.line_style(line_type, selected) == Style::plain()
                    && theme.line_background(line_type) is None && theme.hunk_marker.of(selected)
                    == Style::plain() && theme.title.of(selected) == Style::plain()
                    && theme.block.of(selected) == Style::plain(),
            theme.selection == Style::plain(),
            theme.text == Style::plain(),
            theme.line_stats_addition == Style::plain(),
            theme.line_stats_deletion == Style::plain(),
    {
        let plain = Style::default();
        let pair = StylePair { normal: plain, active: plain };
        let mut line_break = String::new();
        line_break.push('¶');
        assert(line_break@ == seq!['¶']);
        Theme {
            line_break,
            syntax: String::new(),
            add: pair,
            delete: pair,
            header: pair,
            context: pair,
            add_background: None,
            delete_background: None,
            header_background: None,
            context_background: None,
            hunk_marker: pair,
            selection: plain,
            text: plain,
            title: pair,
            block: pair,
            line_stats_addition: plain,
            line_stats_deletion: plain,
        }
    }
}

/// `symbols::line::VERTICAL`: one box drawing character.
#[verifier::external_body]
pub(crate) fn vertical_symbol() -> (symbol: &'static str)
    ensures
        symbol@ == seq!['│'],
{
    ratatui::symbols::line::VERTICAL
}

/// `symbols::line::TOP_LEFT`: one box drawing character.
#[verifier::external_body]
pub(crate) fn top_left_symbol() -> (symbol: &'static str)
    ensures
        symbol@ == seq!['┌'],
{
    ratatui::symbols::line::TOP_LEFT
}

/// `symbols::line::BOTTOM_LEFT`: one box drawing character.
#[verifier::external_body]
pub(crate) fn bottom_left_symbol() -> (symbol: &'static str)
    ensures
        symbol@ == seq!['└'],
{
    ratatui::symbols::line::BOTTOM_LEFT
}

} // verus!
