//! Syntax highlighted files and how their lines are drawn in a diff.

use vstd::prelude::*;

use crate::model::{DiffLine, DiffLineType};
use crate::string_utils::{
    blank, display_width, is_suffix, scrolled, spaces, starts_without_width, trim_offset,
    width as text_width,
};
use crate::ui::highlight_laws::{
    all_clusters, drops_what_fits, is_clustered, is_narrow, is_solid, lemma_scrolled_narrow_pieces,
    lemma_scrolled_solid_pieces,
};
use crate::ui::style::{span_text, span_texts, Span, SpanText, Style, Theme};

verus! {

/// What a highlighted diff was made for.
#[derive(PartialEq, Eq, Hash, Debug)]
pub struct HighlightedDiffKey {
    pub path: String,
    pub diff_hash: u64,
    pub diff_params_hash: u64,
    pub syntax_theme: String,
    pub tab_width: usize,
}

#[verifier::ext_equal]
pub struct KeyView {
    pub path: Seq<char>,
    pub diff_hash: u64,
    pub diff_params_hash: u64,
    pub syntax_theme: Seq<char>,
    pub tab_width: usize,
}

impl View for HighlightedDiffKey {
    type V = KeyView;

    open spec fn view(&self) -> KeyView {
        KeyView {
            path: self.path@,
            diff_hash: self.diff_hash,
            diff_params_hash: self.diff_params_hash,
            syntax_theme: self.syntax_theme@,
            tab_width: self.tab_width,
        }
    }
}

impl HighlightedDiffKey {
    /// A key for the diff that hashes to `diff_hash`, asked for with parameters
    /// that hash to `diff_params_hash`.
    pub fn new(
        path: String,
        diff_hash: u64,
        diff_params_hash: u64,
        syntax_theme: String,
        tab_width: usize,
    ) -> (key: Self)
        ensures
            key == (HighlightedDiffKey {
                path,
                diff_hash,
                diff_params_hash,
                syntax_theme,
                tab_width,
            }),
    {
        HighlightedDiffKey { path, diff_hash, diff_params_hash, syntax_theme, tab_width }
    }

    /// Whether two keys agree in everything.
    pub fn same(&self, other: &HighlightedDiffKey) -> (same: bool)
        ensures
            same == (self@ == other@),
    {
        self.path == other.path && self.diff_hash == other.diff_hash && self.diff_params_hash
            == other.diff_params_hash && self.syntax_theme == other.syntax_theme && self.tab_width
            == other.tab_width
    }
}

impl Clone for HighlightedDiffKey {
    fn clone(&self) -> (key: Self)
        ensures
            key == *self,
    {
        HighlightedDiffKey {
            path: self.path.clone(),
            diff_hash: self.diff_hash,
            diff_params_hash: self.diff_params_hash,
            syntax_theme: self.syntax_theme.clone(),
            tab_width: self.tab_width,
        }
    }
}

/// Why a file was not highlighted.
#[derive(Clone, Copy, PartialEq, Eq, Debug, Structural)]
pub enum HighlightSkipReason {
    Binary,
    TooLarge { bytes: u64, max_bytes: u64 },
    TooManyLines { lines: usize, max_lines: usize },
    MissingContent,
}

#[derive(PartialEq, Eq, Debug)]
pub enum HighlightStatus {
    Loading,
    Ready,
    Failed(String),
    Skipped(HighlightSkipReason),
}

#[verifier::ext_equal]
pub enum StatusView {
    Loading,
    Ready,
    Failed(Seq<char>),
    Skipped(HighlightSkipReason),
}

impl View for HighlightStatus {
    type V = StatusView;

    open spec fn view(&self) -> StatusView {
        match self {
            HighlightStatus::Loading => StatusView::Loading,
            HighlightStatus::Ready => StatusView::Ready,
            HighlightStatus::Failed(message) => StatusView::Failed(message@),
            HighlightStatus::Skipped(reason) => StatusView::Skipped(*reason),
        }
    }
}

impl HighlightStatus {
    pub fn is_loading(&self) -> (loading: bool)
        ensures
            loading == (self@ is Loading),
    {
        matches!(self, HighlightStatus::Loading)
    }
}

impl Clone for HighlightStatus {
    fn clone(&self) -> (status: Self)
        ensures
            status@ == self@,
    {
        match self {
            HighlightStatus::Loading => HighlightStatus::Loading,
            HighlightStatus::Ready => HighlightStatus::Ready,
            HighlightStatus::Failed(message) => HighlightStatus::Failed(message.clone()),
            HighlightStatus::Skipped(reason) => HighlightStatus::Skipped(*reason),
        }
    }
}

#[derive(PartialEq, Eq, Debug)]
pub struct HighlightedSpan {
    pub content: String,
    pub style: Style,
}

impl View for HighlightedSpan {
    type V = SpanText;

    open spec fn view(&self) -> SpanText {
        SpanText { content: self.content@, style: self.style }
    }
}

impl Clone for HighlightedSpan {
    fn clone(&self) -> (span: Self)
        ensures
            span@ == self@,
    {
        HighlightedSpan { content: self.content.clone(), style: self.style }
    }
}

/// The pieces of a list of highlighted spans.
pub open spec fn highlighted_texts(spans: Seq<HighlightedSpan>) -> Seq<SpanText> {
    spans.map_values(|span: HighlightedSpan| span@)
}

#[derive(PartialEq, Eq, Debug)]
pub struct HighlightedLine {
    pub spans: Vec<HighlightedSpan>,
}

impl View for HighlightedLine {
    type V = Seq<SpanText>;

    open spec fn view(&self) -> Seq<SpanText> {
        highlighted_texts(self.spans@)
    }
}

impl Clone for HighlightedLine {
    fn clone(&self) -> (line: Self)
        ensures
            line@ == self@,
    {
        let mut spans: Vec<HighlightedSpan> = Vec::new();
        for i in 0..self.spans.len()
            invariant
                highlighted_texts(spans@) == highlighted_texts(self.spans@.take(i as int)),
        {
            spans.push(self.spans[i].clone());
            assert(highlighted_texts(spans@) =~= highlighted_texts(
                self.spans@.take(i as int),
            ).push(self.spans@[i as int]@));
            assert(highlighted_texts(self.spans@.take(i + 1)) =~= highlighted_texts(
                self.spans@.take(i as int),
            ).push(self.spans@[i as int]@));
        }
        assert(self.spans@.take(self.spans@.len() as int) == self.spans@);
        HighlightedLine { spans }
    }
}

/// The texts of a list of highlighted lines.
pub open spec fn highlighted_line_texts(lines: Seq<HighlightedLine>) -> Seq<Seq<SpanText>> {
    lines.map_values(|line: HighlightedLine| line@)
}

#[derive(PartialEq, Eq, Debug)]
pub struct HighlightedFile {
    pub path: String,
    pub line_count: usize,
    pub lines: Vec<HighlightedLine>,
}

#[verifier::ext_equal]
pub struct FileView {
    pub path: Seq<char>,
    pub line_count: usize,
    pub lines: Seq<Seq<SpanText>>,
}

impl View for HighlightedFile {
    type V = FileView;

    open spec fn view(&self) -> FileView {
        FileView {
            path: self.path@,
            line_count: self.line_count,
            lines: highlighted_line_texts(self.lines@),
        }
    }
}

impl Clone for HighlightedFile {
    fn clone(&self) -> (file: Self)
        ensures
            file@ == self@,
    {
        let mut lines: Vec<HighlightedLine> = Vec::new();
        for i in 0..self.lines.len()
            invariant
                highlighted_line_texts(lines@) == highlighted_line_texts(
                    self.lines@.take(i as int),
                ),
        {
            lines.push(self.lines[i].clone());
            assert(highlighted_line_texts(lines@) =~= highlighted_line_texts(
                self.lines@.take(i as int),
            ).push(self.lines@[i as int]@));
            assert(highlighted_line_texts(self.lines@.take(i + 1)) =~= highlighted_line_texts(
                self.lines@.take(i as int),
            ).push(self.lines@[i as int]@));
        }
        assert(self.lines@.take(self.lines@.len() as int) == self.lines@);
        HighlightedFile { path: self.path.clone(), line_count: self.line_count, lines }
    }
}

/// The highlighted old and new version of a diffed file.
#[derive(PartialEq, Eq, Debug)]
pub struct HighlightedDiff {
    pub key: HighlightedDiffKey,
    pub old: Option<HighlightedFile>,
    pub new: Option<HighlightedFile>,
    pub status: HighlightStatus,
}

#[verifier::ext_equal]
pub struct HighlightedDiffView {
    pub key: KeyView,
    pub old: Option<FileView>,
    pub new: Option<FileView>,
    pub status: StatusView,
}

pub open spec fn file_view(file: Option<HighlightedFile>) -> Option<FileView> {
    match file {
        Some(file) => Some(file@),
        None => None,
    }
}

impl View for HighlightedDiff {
    type V = HighlightedDiffView;

    open spec fn view(&self) -> HighlightedDiffView {
        HighlightedDiffView {
            key: self.key@,
            old: file_view(self.old),
            new: file_view(self.new),
            status: self.status@,
        }
    }
}

impl Clone for HighlightedDiff {
    fn clone(&self) -> (diff: Self)
        ensures
            diff@ == self@,
    {
        HighlightedDiff {
            key: self.key.clone(),
            old: match &self.old {
                Some(file) => Some(file.clone()),
                None => None,
            },
            new: match &self.new {
                Some(file) => Some(file.clone()),
                None => None,
            },
            status: self.status.clone(),
        }
    }
}

impl HighlightedDiff {
    pub fn is_ready(&self) -> (ready: bool)
        ensures
            ready == (self@.status is Ready),
    {
        matches!(self.status, HighlightStatus::Ready)
    }
}

/// The index of a line that is counted from one.
pub open spec fn line_index(line_no: Option<u32>) -> Option<int> {
    match line_no {
        Some(n) => if n >= 1 { Some(n - 1) } else { None },
        None => None,
    }
}

/// The line that a reference refers to, if there is one.
pub open spec fn referred(line: Option<&HighlightedLine>) -> Option<HighlightedLine> {
    match line {
        Some(line) => Some(*line),
        None => None,
    }
}

/// Line `index` of a highlighted file, if both exist.
pub open spec fn highlighted_line_at(file: Option<HighlightedFile>, index: Option<int>) -> Option<
    HighlightedLine,
> {
    match (file, index) {
        (Some(file), Some(i)) => if i < file.lines@.len() { Some(file.lines@[i]) } else { None },
        _ => None,
    }
}

pub fn line_no_to_index(line_no: Option<u32>) -> (index: Option<usize>)
    ensures
        match index {
            Some(i) => line_index(line_no) == Some(i as int),
            None => line_index(line_no) is None,
        },
        index is Some <==> line_no is Some && line_no->0 >= 1,
        index matches Some(i) ==> i + 1 == line_no->0,
{
    match line_no {
        Some(n) => if n >= 1 { Some((n - 1) as usize) } else { None },
        None => None,
    }
}

/// Line `index` of a highlighted file, if both exist.
fn get_highlighted_line<'a>(file: &'a Option<HighlightedFile>, index: Option<usize>) -> (line:
    Option<&'a HighlightedLine>)
    ensures
        referred(line) == highlighted_line_at(
            *file,
            match index {
                Some(i) => Some(i as int),
                None => None,
            },
        ),
{
    match (file, index) {
        (Some(file), Some(i)) => if i < file.lines.len() { Some(&file.lines[i]) } else { None },
        _ => None,
    }
}

/// The highlighted line for a line of the unified view: a deletion is looked up
/// in the old file, an addition in the new one, an unchanged line in the new
/// file and, without one, in the old; a header has none.
pub open spec fn unified_highlight(line: DiffLine, highlighted: HighlightedDiff) -> Option<
    HighlightedLine,
> {
    match line.line_type {
        DiffLineType::Delete => highlighted_line_at(
            highlighted.old,
            line_index(line.position.old_lineno),
        ),
        DiffLineType::Add => highlighted_line_at(
            highlighted.new,
            line_index(line.position.new_lineno),
        ),
        DiffLineType::Context => highlighted_line_at(
            if highlighted.new is Some { highlighted.new } else { highlighted.old },
            line_index(
                if line.position.new_lineno is Some {
                    line.position.new_lineno
                } else {
                    line.position.old_lineno
                },
            ),
        ),
        DiffLineType::Header => None,
    }
}

pub fn highlighted_spans_for_unified_line<'a>(
    line: &DiffLine,
    highlighted: &'a HighlightedDiff,
) -> (found: Option<&'a HighlightedLine>)
    ensures
        referred(found) == unified_highlight(*line, *highlighted),
        found is Some <==> unified_highlight(*line, *highlighted) is Some,
        found matches Some(own) ==> *own == unified_highlight(*line, *highlighted)->0,
{
    match line.line_type {
        DiffLineType::Delete => get_highlighted_line(
            &highlighted.old,
            line_no_to_index(line.position.old_lineno),
        ),
        DiffLineType::Add => get_highlighted_line(
            &highlighted.new,
            line_no_to_index(line.position.new_lineno),
        ),
        DiffLineType::Context => {
            let line_no = if line.position.new_lineno.is_some() {
                line.position.new_lineno
            } else {
                line.position.old_lineno
            };
            let index = line_no_to_index(line_no);
            if highlighted.new.is_some() {
                get_highlighted_line(&highlighted.new, index)
            } else {
                get_highlighted_line(&highlighted.old, index)
            }
        },
        DiffLineType::Header => None,
    }
}

/// The highlighted line for one side of a row: the left side is looked up in
/// the old file, the right side in the new one.
pub open spec fn side_highlight(
    line: DiffLine,
    use_old_side: bool,
    highlighted: HighlightedDiff,
) -> Option<HighlightedLine> {
    if use_old_side {
        highlighted_line_at(highlighted.old, line_index(line.position.old_lineno))
    } else {
        highlighted_line_at(highlighted.new, line_index(line.position.new_lineno))
    }
}

pub fn highlighted_spans_for_side_cell<'a>(
    line: &DiffLine,
    use_old_side: bool,
    highlighted: &'a HighlightedDiff,
) -> (found: Option<&'a HighlightedLine>)
    ensures
        referred(found) == side_highlight(*line, use_old_side, *highlighted),
        found is Some <==> side_highlight(*line, use_old_side, *highlighted) is Some,
        found matches Some(own) ==> *own == side_highlight(*line, use_old_side, *highlighted)->0,
{
    if use_old_side {
        get_highlighted_line(&highlighted.old, line_no_to_index(line.position.old_lineno))
    } else {
        get_highlighted_line(&highlighted.new, line_no_to_index(line.position.new_lineno))
    }
}

/// A syntax style on the background of the line's kind, as it looks when the
/// line is selected or not.
pub open spec fn merged_style(
    syntax: Style,
    line_type: DiffLineType,
    selected: bool,
    theme: Theme,
) -> Style {
    theme.with_selection(
        match theme.line_background(line_type) {
            Some(bg) => syntax.on(bg),
            None => syntax,
        },
        selected,
    )
}

pub fn merge_syntax_and_diff_style(
    syntax: Style,
    line_type: DiffLineType,
    selected: bool,
    theme: &Theme,
) -> (style: Style)
    ensures
        style == merged_style(syntax, line_type, selected, *theme),
{
    let style = match theme.diff_line_background(line_type) {
        Some(bg) => syntax.bg(bg),
        None => syntax,
    };
    theme.apply_selection(style, selected)
}

/// The contents of a list of pieces, one after another.
pub open spec fn joined(pieces: Seq<SpanText>) -> Seq<char>
    decreases pieces.len(),
{
    if pieces.len() == 0 {
        Seq::empty()
    } else {
        joined(pieces.drop_last()) + pieces.last().content
    }
}

pub fn spans_to_line_content(spans: &[HighlightedSpan]) -> (content: String)
    ensures
        content@ == joined(highlighted_texts(spans@)),
{
    let mut content = String::new();
    let ghost pieces = highlighted_texts(spans@);
    for i in 0..spans.len()
        invariant
            pieces == highlighted_texts(spans@),
            content@ == joined(pieces.take(i as int)),
    {
        content.append(spans[i].content.as_str());
        assert(pieces.take(i + 1).drop_last() == pieces.take(i as int));
    }
    assert(pieces.take(spans@.len() as int) == pieces);
    content
}

/// What is left of a list of pieces that was scrolled to the right by
/// `columns`: pieces scrolled out wholly are dropped, the next one is cut.
pub open spec fn scrolled_pieces(pieces: Seq<SpanText>, columns: int) -> Seq<SpanText>
    decreases pieces.len(),
{
    if pieces.len() == 0 {
        Seq::empty()
    } else {
        let first = pieces[0];
        let rest = scrolled(first.content, columns as nat);
        if rest.len() == 0 {
            scrolled_pieces(pieces.skip(1), left_over(columns, first.content))
        } else {
            seq![span_text(rest, first.style)] + scrolled_pieces(pieces.skip(1), 0)
        }
    }
}

/// The columns that are left to scroll once a text was scrolled out.
pub open spec fn left_over(columns: int, text: Seq<char>) -> int {
    if columns >= display_width(text) { columns - display_width(text) } else { 0 }
}

/// The columns that are left to scroll after a span of `width` columns, of which
/// `trimmed` is still to be seen.
pub fn columns_left(columns: usize, trimmed: &str, width: usize) -> (left: usize)
    ensures
        left == if trimmed@.len() > 0 || columns < width { 0 } else { columns - width },
{
    if trimmed.is_empty() { columns.saturating_sub(width) } else { 0 }
}

/// The first of a list of pieces that something is left of after scrolling; the
/// number of pieces where nothing is left.
pub open spec fn first_seen(pieces: Seq<SpanText>, columns: int) -> int
    decreases pieces.len(),
{
    if pieces.len() == 0 || scrolled(pieces[0].content, columns as nat).len() > 0 {
        0
    } else {
        1 + first_seen(pieces.skip(1), left_over(columns, pieces[0].content))
    }
}

/// None of the pieces from `from` up to `to` starts with a grapheme cluster that
/// takes no column.
pub open spec fn start_with_width(pieces: Seq<SpanText>, from: int, to: int) -> bool {
    forall|j: int|
        from <= j < to && 0 <= j < pieces.len() ==> !starts_without_width(
            (#[trigger] pieces[j]).content,
        )
}

/// The pieces that are not empty.
pub open spec fn nonempty_pieces(pieces: Seq<SpanText>) -> Seq<SpanText>
    decreases pieces.len(),
{
    if pieces.len() == 0 {
        Seq::empty()
    } else if pieces.last().content.len() == 0 {
        nonempty_pieces(pieces.drop_last())
    } else {
        nonempty_pieces(pieces.drop_last()).push(pieces.last())
    }
}

/// Piece `i` of `rest` is the end of piece `sources[i]`, in its style, and is not
/// empty. The sources follow each other as they do in `pieces`, and only the
/// first is shortened, except for one that starts with a cluster that takes no
/// column.
pub open spec fn left_of(
    rest: Seq<SpanText>,
    pieces: Seq<SpanText>,
    sources: Seq<int>,
) -> bool {
    &&& sources.len() == rest.len()
    &&& forall|i: int| 0 <= i < rest.len() ==> is_end_of(#[trigger] rest[i], pieces, sources[i])
    &&& forall|i: int, j: int|
        0 <= i < j < rest.len() ==> #[trigger] sources[i] < #[trigger] sources[j]
    &&& forall|i: int|
        0 < i < rest.len() && !starts_without_width(pieces[sources[i]].content)
            ==> #[trigger] rest[i] == pieces[sources[i]]
}

/// A piece is the end of piece `source`, in its style, and is not empty.
pub open spec fn is_end_of(piece: SpanText, pieces: Seq<SpanText>, source: int) -> bool {
    &&& 0 <= source < pieces.len()
    &&& piece.style == pieces[source].style
    &&& piece.content.len() > 0
    &&& is_suffix(piece.content, pieces[source].content)
}

proof fn lemma_suffix_grows(rest: Seq<char>, text: Seq<char>, more: Seq<char>)
    requires
        is_suffix(rest, text),
    ensures
        is_suffix(rest + more, text + more),
{
    let k = choose|k: int| 0 <= k <= text.len() && rest == #[trigger] text.skip(k);
    assert((text + more).skip(k) == text.skip(k) + more);
}

proof fn lemma_suffix_of_end(rest: Seq<char>, text: Seq<char>, end: Seq<char>)
    requires
        is_suffix(rest, end),
    ensures
        is_suffix(rest, text + end),
{
    let k = choose|k: int| 0 <= k <= end.len() && rest == #[trigger] end.skip(k);
    assert((text + end).skip(text.len() + k) == end.skip(k));
}

/// Scrolls a highlighted line to the right. What is left are the ends of its
/// pieces, in their order and styles; put together they are what the line ends
/// in, unless a piece behind the first one seen starts with a cluster that takes
/// no column. A line without such pieces that is scrolled by nothing only loses
/// its empty pieces. A line whose clusters each take one column loses one cluster
/// for every column that it is scrolled by, and one whose clusters all take room
/// loses those that fit into so many columns.
pub fn trim_highlighted_spans(spans: &[HighlightedSpan], scrolled_right: usize) -> (out: Vec<
    HighlightedSpan,
>)
    ensures
        highlighted_texts(out@) == scrolled_pieces(
            highlighted_texts(spans@),
            scrolled_right as int,
        ),
        exists|sources: Seq<int>| #[trigger]
            left_of(highlighted_texts(out@), highlighted_texts(spans@), sources),
        start_with_width(
            highlighted_texts(spans@),
            first_seen(highlighted_texts(spans@), scrolled_right as int) + 1,
            spans@.len() as int,
        ) ==> is_suffix(joined(highlighted_texts(out@)), joined(highlighted_texts(spans@))),
        scrolled_right == 0 && start_with_width(
            highlighted_texts(spans@),
            0,
            spans@.len() as int,
        ) ==> highlighted_texts(out@) == nonempty_pieces(highlighted_texts(spans@)),
        (forall|j: int| 0 <= j < spans@.len() ==> is_narrow((#[trigger] spans@[j]).content@)) ==> (
        joined(highlighted_texts(out@)) == all_clusters(highlighted_texts(spans@)).skip(
            if scrolled_right <= all_clusters(highlighted_texts(spans@)).len() {
                scrolled_right as int
            } else {
                all_clusters(highlighted_texts(spans@)).len() as int
            },
        ).flatten()),
        (forall|j: int| 0 <= j < spans@.len() ==> is_solid((#[trigger] spans@[j]).content@)) ==> (
        exists|k: int| #[trigger]
            drops_what_fits(
                joined(highlighted_texts(out@)),
                all_clusters(highlighted_texts(spans@)),
                k,
                scrolled_right as int,
            )),
{
    let mut remaining: usize = scrolled_right;
    let mut out: Vec<HighlightedSpan> = Vec::new();
    let ghost pieces = highlighted_texts(spans@);
    let ghost goal = scrolled_pieces(pieces, scrolled_right as int);
    let ghost seen = first_seen(pieces, scrolled_right as int);
    let ghost mut sources: Seq<int> = Seq::empty();
    proof {
        assert(pieces.skip(0) == pieces);
        assert(pieces.take(0) == Seq::<SpanText>::empty());
        assert(highlighted_texts(out@) == Seq::<SpanText>::empty());
        assert(highlighted_texts(out@) + goal == goal);
    }
    for i in 0..spans.len()
        invariant
            pieces == highlighted_texts(spans@),
            seen == first_seen(pieces, scrolled_right as int),
            highlighted_texts(out@) + scrolled_pieces(pieces.skip(i as int), remaining as int)
                == goal,
            left_of(highlighted_texts(out@), pieces, sources),
            forall|k: int| 0 <= k < sources.len() ==> #[trigger] sources[k] < i,
            sources.len() == 0 ==> seen == i + first_seen(pieces.skip(i as int), remaining as int),
            sources.len() > 0 ==> seen == sources[0] && remaining == 0 && (start_with_width(
                pieces,
                seen + 1,
                i as int,
            ) ==> is_suffix(
                joined(highlighted_texts(out@)),
                joined(pieces.take(i as int)),
            )),
            forall|j: int| 0 <= j < i ==> is_clustered((#[trigger] pieces[j]).content),
            scrolled_right == 0 ==> remaining == 0,
            scrolled_right == 0 && start_with_width(pieces, 0, i as int) ==> highlighted_texts(
                out@,
            ) == nonempty_pieces(pieces.take(i as int)),
    {
        let span = &spans[i];
        let trimmed = trim_offset(span.content.as_str(), remaining);
        let ghost todo = pieces.skip(i as int);
        let ghost before = highlighted_texts(out@);
        let ghost was_remaining = remaining;
        let ghost old_sources = sources;
        let ghost piece = span_text(trimmed@, span.style);
        proof {
            assert(todo[0] == span@);
            assert(todo.skip(1) == pieces.skip(i + 1));
            assert(pieces[i as int] == span@);
            assert(pieces.take(i + 1).drop_last() == pieces.take(i as int));
            assert(pieces.take(i + 1).last() == span@);
        }
        remaining = columns_left(remaining, trimmed, text_width(span.content.as_str()));
        if !trimmed.is_empty() {
            out.push(HighlightedSpan { content: trimmed.to_owned(), style: span.style });
            proof {
                sources = old_sources.push(i as int);
                assert(highlighted_texts(out@) == before.push(piece));
                assert(before.push(piece) + scrolled_pieces(pieces.skip(i + 1), 0) == before + (
                seq![piece] + scrolled_pieces(pieces.skip(i + 1), 0)));
                assert(before.push(piece).drop_last() == before);
                if old_sources.len() > 0 {
                    assert(sources[0] == old_sources[0]);
                    assert(!starts_without_width(span.content@) ==> piece == span@);
                } else {
                    assert(before == Seq::<SpanText>::empty());
                }
                assert(left_of(before.push(piece), pieces, sources));
            }
        }
        proof {
            lemma_trim_step(pieces, before, i as int, piece, was_remaining as int, seen);
        }
    }
    proof {
        assert(pieces.take(spans@.len() as int) == pieces);
        assert(highlighted_texts(out@) + scrolled_pieces(
            pieces.skip(spans@.len() as int),
            remaining as int,
        ) == highlighted_texts(out@));
        if sources.len() == 0 {
            let whole = joined(pieces);
            assert(whole.skip(whole.len() as int) == joined(highlighted_texts(out@)));
        }
        assert(left_of(highlighted_texts(out@), pieces, sources));
        if forall|j: int| 0 <= j < spans@.len() ==> is_narrow((#[trigger] spans@[j]).content@) {
            assert forall|j: int| 0 <= j < pieces.len() implies is_narrow(
                (#[trigger] pieces[j]).content,
            ) && is_clustered(pieces[j].content) by {
                assert(pieces[j] == spans@[j]@);
                assert(is_narrow(spans@[j].content@));
            }
            lemma_scrolled_narrow_pieces(pieces, scrolled_right as int);
        }
        if forall|j: int| 0 <= j < spans@.len() ==> is_solid((#[trigger] spans@[j]).content@) {
            assert forall|j: int| 0 <= j < pieces.len() implies is_solid(
                (#[trigger] pieces[j]).content,
            ) && is_clustered(pieces[j].content) by {
                assert(pieces[j] == spans@[j]@);
                assert(is_solid(spans@[j].content@));
            }
            let k = lemma_scrolled_solid_pieces(pieces, scrolled_right as int);
        }
    }
    out
}

/// What one more piece adds to what is left of a line.
proof fn lemma_trim_step(
    pieces: Seq<SpanText>,
    before: Seq<SpanText>,
    i: int,
    piece: SpanText,
    remaining: int,
    seen: int,
)
    requires
        0 <= i < pieces.len(),
        is_suffix(piece.content, pieces[i].content),
        remaining == 0 && !starts_without_width(pieces[i].content) ==> piece.content
            == pieces[i].content,
    ensures
        before.len() == 0 && piece.content.len() > 0 ==> is_suffix(
            joined(before.push(piece)),
            joined(pieces.take(i + 1)),
        ),
        ({
            let after = if piece.content.len() > 0 { before.push(piece) } else { before };
            remaining == 0 && seen < i && start_with_width(pieces, seen + 1, i + 1) && is_suffix(
                joined(before),
                joined(pieces.take(i)),
            ) ==> is_suffix(joined(after), joined(pieces.take(i + 1)))
        }),
{
    let text = joined(pieces.take(i));
    let content = pieces[i].content;
    assert(pieces.take(i + 1).drop_last() == pieces.take(i));
    assert(joined(pieces.take(i + 1)) == text + content);
    assert(before.push(piece).drop_last() == before);
    assert(joined(before.push(piece)) == joined(before) + piece.content);
    if before.len() == 0 {
        assert(joined(before) + piece.content == piece.content);
        lemma_suffix_of_end(piece.content, text, content);
    }
    if remaining == 0 && seen < i && start_with_width(pieces, seen + 1, i + 1) && is_suffix(
        joined(before),
        text,
    ) {
        assert(!starts_without_width(pieces[i].content));
        lemma_suffix_grows(joined(before), text, content);
        if content.len() == 0 {
            assert(joined(before) + content == joined(before));
        }
    }
}

/// Pieces with each style merged into that of the line.
pub open spec fn merged_pieces(
    pieces: Seq<SpanText>,
    line_type: DiffLineType,
    selected: bool,
    theme: Theme,
) -> Seq<SpanText> {
    pieces.map_values(
        |piece: SpanText|
            span_text(piece.content, merged_style(piece.style, line_type, selected, theme)),
    )
}

/// The pieces that are drawn for what is visible of a highlighted line; an empty
/// changed line shows the theme's line break mark.
pub open spec fn drawn_pieces(
    visible: Seq<SpanText>,
    line_type: DiffLineType,
    selected: bool,
    theme: Theme,
) -> Seq<SpanText> {
    if visible.len() == 0 && line_type != DiffLineType::Context {
        seq![span_text(theme.line_break@, theme.line_style(line_type, selected))]
    } else {
        merged_pieces(visible, line_type, selected, theme)
    }
}

/// The pieces that are drawn for a highlighted line.
pub open spec fn highlighted_pieces(
    pieces: Seq<SpanText>,
    line_type: DiffLineType,
    selected: bool,
    theme: Theme,
    scrolled_right: int,
) -> Seq<SpanText> {
    drawn_pieces(scrolled_pieces(pieces, scrolled_right), line_type, selected, theme)
}

/// Styles what is visible of a highlighted line.
pub fn draw_pieces(
    visible: &Vec<HighlightedSpan>,
    line_type: DiffLineType,
    selected: bool,
    theme: &Theme,
) -> (out: Vec<Span>)
    ensures
        span_texts(out@) == drawn_pieces(
            highlighted_texts(visible@),
            line_type,
            selected,
            *theme,
        ),
{
    let mut out: Vec<Span> = Vec::new();
    let ghost pieces = highlighted_texts(visible@);
    if visible.is_empty() && line_type != DiffLineType::Context {
        out.push(Span::styled(theme.line_break.clone(), theme.diff_line(line_type, selected)));
        assert(span_texts(out@) =~= seq![out@[0]@]);
    } else {
        let ghost merged = merged_pieces(pieces, line_type, selected, *theme);
        for i in 0..visible.len()
            invariant
                pieces == highlighted_texts(visible@),
                merged == merged_pieces(pieces, line_type, selected, *theme),
                span_texts(out@) == merged.take(i as int),
        {
            let span = &visible[i];
            let ghost before = span_texts(out@);
            out.push(
                Span::styled(
                    span.content.clone(),
                    merge_syntax_and_diff_style(span.style, line_type, selected, theme),
                ),
            );
            assert(pieces[i as int] == span@);
            assert(span_texts(out@) == before.push(merged[i as int]));
            assert(merged.take(i + 1) == merged.take(i as int).push(merged[i as int]));
        }
        assert(merged.take(visible@.len() as int) == merged);
    }
    out
}

/// The style of what follows the text of a highlighted line.
pub open spec fn suffix_style(line_type: DiffLineType, selected: bool, theme: Theme) -> Style {
    (match theme.line_background(line_type) {
        Some(bg) => Style::plain().on(bg),
        None => Style::plain(),
    }).patched(theme.line_style(DiffLineType::Context, selected))
}

/// The columns that a highlighted line takes before scrolling.
pub open spec fn highlighted_width(
    pieces: Seq<SpanText>,
    line_type: DiffLineType,
    theme: Theme,
) -> usize {
    if pieces.len() == 0 && line_type != DiffLineType::Context {
        display_width(theme.line_break@)
    } else {
        display_width(joined(pieces))
    }
}

/// The spaces that fill a line up to `width` columns, and the line's end.
pub open spec fn suffix_text(
    content_width: int,
    scrolled_right: int,
    width: int,
    fill_width: bool,
    trailing_newline: bool,
) -> Seq<char> {
    let visible = if content_width >= scrolled_right { content_width - scrolled_right } else { 0 };
    let fill = blank(if fill_width && width >= visible { (width - visible) as nat } else { 0 });
    if trailing_newline { fill.push('\n') } else { fill }
}

/// The spaces that fill a line up to `width` columns, and the line's end.
pub fn line_suffix(
    content_width: usize,
    scrolled_right: usize,
    width: usize,
    fill_width: bool,
    trailing_newline: bool,
) -> (suffix: String)
    ensures
        suffix@ == suffix_text(
            content_width as int,
            scrolled_right as int,
            width as int,
            fill_width,
            trailing_newline,
        ),
{
    let visible_width: usize = content_width.saturating_sub(scrolled_right);
    let padding: usize = if fill_width { width.saturating_sub(visible_width) } else { 0 };
    let mut suffix = spaces(padding);
    if trailing_newline {
        suffix.push('\n');
    }
    suffix
}

/// What is drawn for a highlighted line.
pub open spec fn drawn_highlight(
    pieces: Seq<SpanText>,
    line_type: DiffLineType,
    selected: bool,
    theme: Theme,
    scrolled_right: int,
    width: int,
    fill_width: bool,
    trailing_newline: bool,
) -> Seq<SpanText> {
    let text = highlighted_pieces(pieces, line_type, selected, theme, scrolled_right);
    if fill_width || trailing_newline {
        text.push(
            span_text(
                suffix_text(
                    highlighted_width(pieces, line_type, theme) as int,
                    scrolled_right,
                    width,
                    fill_width,
                    trailing_newline,
                ),
                suffix_style(line_type, selected, theme),
            ),
        )
    } else {
        text
    }
}

pub fn highlighted_line_to_spans(
    line: &HighlightedLine,
    line_type: DiffLineType,
    selected: bool,
    theme: &Theme,
    scrolled_right: usize,
    width: usize,
    fill_width: bool,
    trailing_newline: bool,
) -> (out: Vec<Span>)
    ensures
        span_texts(out@) == drawn_highlight(
            line@,
            line_type,
            selected,
            *theme,
            scrolled_right as int,
            width as int,
            fill_width,
            trailing_newline,
        ),
{
    let visible = trim_highlighted_spans(line.spans.as_slice(), scrolled_right);
    let mut out = draw_pieces(&visible, line_type, selected, theme);
    if fill_width || trailing_newline {
        let content = spans_to_line_content(line.spans.as_slice());
        let content_width: usize = if line.spans.is_empty() && line_type != DiffLineType::Context {
            text_width(theme.line_break.as_str())
        } else {
            text_width(content.as_str())
        };
        assert(line@.len() == line.spans@.len());
        let suffix = line_suffix(
            content_width,
            scrolled_right,
            width,
            fill_width,
            trailing_newline,
        );
        let base = match theme.diff_line_background(line_type) {
            Some(bg) => Style::default().bg(bg),
            None => Style::default(),
        };
        let ghost before = span_texts(out@);
        out.push(
            Span::styled(suffix, base.patch(theme.diff_line(DiffLineType::Context, selected))),
        );
        assert(span_texts(out@) == before.push(out@.last()@));
    }
    out
}

} // verus!
