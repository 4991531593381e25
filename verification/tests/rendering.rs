use gitdiff::components::diff::{DiffComponent, ScrollOffsets};
use gitdiff::components::diff_display::{DiffViewMode, MIN_SIDE_BY_SIDE_WIDTH};
use gitdiff::components::diff_draw::{skip_reason_text, ScrollExtents};
use gitdiff::components::diff_render::{draw_row_line, draw_sizes, end_line, fill_cell};
use gitdiff::components::diff_wrap::{
    fill_lines, measure_fragments, wrap_side_cell_fragments, SideGlyph,
};
use gitdiff::components::selection::Selection;
use gitdiff::model::{
    DiffLine, DiffLinePosition, DiffLineType, FileDiff, Hunk, LineStats, ProgressPercent,
};
use gitdiff::string_utils::{
    count_leading, decimal_string, measure, pad_to, skip_pieces, spaces, tabs_to_spaces,
    trim_line_breaks, trim_offset,
};
use gitdiff::ui::diff_syntax::{
    HighlightSkipReason, HighlightStatus, HighlightedDiff, HighlightedDiffKey, HighlightedFile,
    HighlightedLine, HighlightedSpan,
};
use gitdiff::ui::style::{Color, Line, Span, Style, StylePair, Theme};

fn diff_line(content: &str, line_type: DiffLineType) -> DiffLine {
    DiffLine {
        content: content.into(),
        line_type,
        position: DiffLinePosition { old_lineno: None, new_lineno: None },
    }
}

fn file_diff(hunks: Vec<Vec<DiffLine>>) -> FileDiff {
    let lines = hunks.iter().map(Vec::len).sum();
    FileDiff {
        lines,
        hunks: hunks.into_iter().map(|lines| Hunk { header_hash: 7, lines }).collect(),
        untracked: false,
        sizes: (0, 0),
        size_delta: 0,
    }
}

fn component_with(hunks: Vec<Vec<DiffLine>>) -> DiffComponent {
    let mut component = DiffComponent::new(colored_theme(), false);
    component.diff = Some(file_diff(hunks));
    component
}

fn fg(color: Color) -> Style {
    Style { fg: Some(color), ..Style::default() }
}

fn pair(normal: Color, active: Color) -> StylePair {
    StylePair { normal: fg(normal), active: fg(active) }
}

fn colored_theme() -> Theme {
    Theme {
        syntax: String::from("dark"),
        add: pair(Color::Green, Color::LightGreen),
        delete: pair(Color::Red, Color::LightRed),
        header: pair(Color::Blue, Color::LightBlue),
        context: pair(Color::Gray, Color::White),
        add_background: Some(Color::Indexed(22)),
        hunk_marker: pair(Color::DarkGray, Color::Yellow),
        selection: Style { bg: Some(Color::Magenta), ..Style::default() },
        text: fg(Color::Cyan),
        title: pair(Color::Gray, Color::White),
        block: pair(Color::DarkGray, Color::LightCyan),
        line_stats_addition: fg(Color::Green),
        line_stats_deletion: fg(Color::Red),
        ..Theme::default()
    }
}

fn texts(lines: &[Line]) -> Vec<String> {
    lines
        .iter()
        .map(|line| line.spans.iter().map(|span| span.content.as_str()).collect())
        .collect()
}

fn span(content: &str, style: Style) -> Span {
    Span::styled(String::from(content), style)
}

fn key() -> HighlightedDiffKey {
    HighlightedDiffKey::new(String::from("a.rs"), 1, 2, String::from("dark"), 2)
}

fn highlighted_file(lines: &[&[(&str, Color)]]) -> HighlightedFile {
    HighlightedFile {
        path: String::from("a.rs"),
        line_count: lines.len(),
        lines: lines
            .iter()
            .map(|line| HighlightedLine {
                spans: line
                    .iter()
                    .map(|(content, color)| HighlightedSpan {
                        content: String::from(*content),
                        style: fg(*color),
                    })
                    .collect(),
            })
            .collect(),
    }
}

#[test]
fn numbers_are_written_in_decimal() {
    assert_eq!(decimal_string(0), "0");
    assert_eq!(decimal_string(907), "907");
    assert_eq!(decimal_string(u64::MAX), "18446744073709551615");
}

#[test]
fn tabs_become_two_spaces() {
    assert_eq!(tabs_to_spaces(String::from("\ta\tb")), "  a  b");
    assert_eq!(tabs_to_spaces(String::from("plain")), "plain");
}

#[test]
fn padding_counts_characters() {
    assert_eq!(spaces(3), "   ");
    assert_eq!(pad_to("あ", 3), "あ  ");
    assert_eq!(pad_to("long", 2), "long");
}

#[test]
fn line_breaks_are_cut_off_both_ends() {
    assert_eq!(trim_line_breaks("\r\na\nb\n\r"), "a\nb");
    assert_eq!(trim_line_breaks("\n\n"), "");
    assert_eq!(trim_line_breaks(" a "), " a ");
}

#[test]
fn scrolling_cuts_whole_clusters_by_their_width() {
    assert_eq!(trim_offset("abc", 1), "bc");
    assert_eq!(trim_offset("abc", 5), "");
    // A wide character does not fit into one column.
    assert_eq!(trim_offset("あb", 1), "あb");
    assert_eq!(trim_offset("あb", 2), "b");
    // A combining mark stays with its letter.
    assert_eq!(trim_offset("e\u{301}x", 1), "x");
}

#[test]
fn fragments_are_wrapped_by_width() {
    let fragments = vec![span("ab", fg(Color::Red)), span("cde", fg(Color::Green))];
    let lines = wrap_side_cell_fragments(&fragments, 3);
    assert_eq!(
        lines,
        vec![
            vec![span("ab", fg(Color::Red)), span("c", fg(Color::Green))],
            vec![span("de", fg(Color::Green))],
        ]
    );
    let text: String =
        lines.iter().flatten().map(|span| span.content.as_str()).collect();
    assert_eq!(text, "abcde");
}

#[test]
fn a_glyph_that_is_too_wide_has_a_line_of_its_own() {
    let lines = wrap_side_cell_fragments(&vec![span("aあb", fg(Color::Red))], 1);
    assert_eq!(
        lines,
        vec![
            vec![span("a", fg(Color::Red))],
            vec![span("あ", fg(Color::Red))],
            vec![span("b", fg(Color::Red))],
        ]
    );
}

#[test]
fn combining_marks_are_not_torn_off() {
    let lines = wrap_side_cell_fragments(&vec![span("e\u{301}e\u{301}", fg(Color::Red))], 1);
    assert_eq!(
        lines,
        vec![vec![span("e\u{301}", fg(Color::Red))], vec![span("e\u{301}", fg(Color::Red))]]
    );
}

#[test]
fn an_empty_cell_has_one_empty_line() {
    assert_eq!(wrap_side_cell_fragments(&vec![], 4), vec![vec![]]);
    assert_eq!(wrap_side_cell_fragments(&vec![span("ab", fg(Color::Red))], 0), vec![vec![]]);
    assert_eq!(wrap_side_cell_fragments(&vec![span("", fg(Color::Red))], 4), vec![vec![]]);
}

#[test]
fn a_cell_is_filled_up_to_its_width() {
    let theme = colored_theme();
    let lines = vec![vec![span("あ", fg(Color::Red))]];
    assert_eq!(
        DiffComponent::side_cell_spans_at(&lines, 0, 5, DiffLineType::Add, false, &theme),
        vec![span("あ", fg(Color::Red)), span("   ", fg(Color::Green))]
    );
    assert_eq!(
        DiffComponent::side_cell_spans_at(&lines, 1, 5, DiffLineType::Delete, true, &theme),
        vec![span("     ", fg(Color::LightRed))]
    );
    assert_eq!(
        DiffComponent::side_cell_spans_at(&lines, 0, 2, DiffLineType::Add, false, &theme),
        vec![span("あ", fg(Color::Red))]
    );
}

#[test]
fn a_selected_line_is_filled_up_and_marked() {
    let theme = colored_theme();
    let line = DiffComponent::get_line_to_add(
        5,
        &diff_line("a\tb", DiffLineType::Delete),
        true,
        true,
        false,
        &theme,
        1,
        None,
    );
    assert_eq!(
        line.spans,
        vec![span("│", fg(Color::Yellow)), span("  b  \n", fg(Color::LightRed))]
    );
}

#[test]
fn marks_show_where_hunks_start_and_end() {
    let theme = colored_theme();
    let mark = |line_type, end_of_hunk| {
        DiffComponent::get_line_to_add(
            9,
            &diff_line("x", line_type),
            false,
            false,
            end_of_hunk,
            &theme,
            0,
            None,
        )
        .spans[0]
            .content
            .clone()
    };
    assert_eq!(mark(DiffLineType::Header, false), "┌");
    assert_eq!(mark(DiffLineType::Add, false), "│");
    assert_eq!(mark(DiffLineType::Add, true), "└");
    assert_eq!(mark(DiffLineType::Header, true), "└");
}

#[test]
fn an_empty_unchanged_line_stays_empty() {
    let theme = colored_theme();
    let line = DiffComponent::get_line_to_add(
        9,
        &diff_line("", DiffLineType::Context),
        false,
        false,
        false,
        &theme,
        0,
        None,
    );
    assert_eq!(line.spans[1], span("\n", fg(Color::Gray)));
}

#[test]
fn highlighted_text_takes_the_place_of_plain_text() {
    let theme = colored_theme();
    let highlighted = HighlightedDiff {
        key: key(),
        old: None,
        new: Some(highlighted_file(&[&[("fn", Color::Blue), (" x", Color::White)]])),
        status: HighlightStatus::Ready,
    };
    let mut line = diff_line("fn x", DiffLineType::Add);
    line.position.new_lineno = Some(1);
    let drawn = DiffComponent::get_line_to_add(
        6,
        &line,
        true,
        false,
        false,
        &theme,
        1,
        Some(&highlighted),
    );
    let on = |color| Style { bg: Some(Color::Magenta), ..fg(color) };
    assert_eq!(
        drawn.spans,
        vec![
            span("│", fg(Color::DarkGray)),
            span("n", on(Color::Blue)),
            span(" x", on(Color::White)),
            span("   \n", Style { bg: Some(Color::Indexed(22)), ..fg(Color::White) }),
        ]
    );
}

#[test]
fn only_a_ready_highlight_is_drawn() {
    let mut component = component_with(vec![vec![diff_line("plain", DiffLineType::Add)]]);
    component.diff.as_mut().unwrap().hunks[0].lines[0].position.new_lineno = Some(1);
    component.syntax_cache = Some(HighlightedDiff {
        key: key(),
        old: None,
        new: Some(highlighted_file(&[&[("colored", Color::Blue)]])),
        status: HighlightStatus::Loading,
    });
    assert_eq!(texts(&component.get_text(20, 5)), vec!["└plain\n"]);
    component.syntax_cache.as_mut().unwrap().status = HighlightStatus::Ready;
    assert_eq!(texts(&component.get_text(20, 5)), vec!["└colored\n"]);
}

fn numbered(count: usize) -> Vec<DiffLine> {
    (0..count).map(|i| diff_line(&format!("{i}"), DiffLineType::Add)).collect()
}

#[test]
fn the_unified_view_draws_one_line_more_than_fits() {
    let mut component = component_with(vec![numbered(6)]);
    assert_eq!(component.get_text(20, 3).len(), 4);
    component.scroll_to(ScrollOffsets { top: 4, right: 0 });
    assert_eq!(texts(&component.get_text(20, 3)), vec!["│4\n", "└5\n"]);
    component.scroll_to(ScrollOffsets { top: 6, right: 0 });
    assert_eq!(component.get_text(20, 3), vec![]);
    component.scroll_to(ScrollOffsets { top: 0, right: 0 });
    assert_eq!(component.get_text(20, 0), vec![]);
}

#[test]
fn the_unified_view_does_not_start_a_hunk_on_the_extra_line() {
    let component = component_with(vec![numbered(3), numbered(3)]);
    assert_eq!(component.get_text(20, 3).len(), 3);
    assert_eq!(component.get_text(20, 2).len(), 3);
    assert_eq!(component.get_text(20, 4).len(), 5);
}

#[test]
fn the_unified_view_can_be_scrolled_past_any_line() {
    let mut component = component_with(vec![numbered(2)]);
    component.scroll_to(ScrollOffsets { top: usize::MAX, right: usize::MAX });
    assert_eq!(component.get_text(20, u16::MAX), vec![]);
}

#[test]
fn only_the_focused_view_shows_the_selection() {
    let mut component = component_with(vec![numbered(2)]);
    component.selection = Selection::Single(1);
    component.selected_hunk = Some(0);
    let plain = component.get_text(4, 2);
    assert_eq!(plain[1].spans[1], span("1\n", fg(Color::Green)));
    assert_eq!(plain[1].spans[0], span("└", fg(Color::DarkGray)));
    component.focus(true);
    let marked = component.get_text(4, 2);
    assert_eq!(marked[0].spans[1], span("0\n", fg(Color::Green)));
    assert_eq!(marked[1].spans[1], span("1   \n", fg(Color::LightGreen)));
    assert_eq!(marked[1].spans[0], span("└", fg(Color::Yellow)));
}

#[test]
fn a_row_ends_its_hunk_on_its_last_line() {
    let mut component = component_with(vec![vec![
        diff_line("@@", DiffLineType::Header),
        diff_line(&"x".repeat(60), DiffLineType::Delete),
        diff_line("new", DiffLineType::Add),
    ]]);
    component.current_size = (MIN_SIDE_BY_SIDE_WIDTH, 20);
    component.view_mode = DiffViewMode::SideBySide;
    let lines = component.get_text(MIN_SIDE_BY_SIDE_WIDTH, 10);
    let drawn = texts(&lines);
    assert_eq!(drawn.len(), 3);
    assert_eq!(drawn[0], "┌@@\n");
    assert_eq!(drawn[1], format!("│{}│new{}\n", "x".repeat(49), " ".repeat(46)));
    assert_eq!(drawn[2], format!("└{}{}│{}\n", "x".repeat(11), " ".repeat(38), " ".repeat(49)));
    assert_eq!(lines[2].spans.last(), Some(&span("\n", fg(Color::Green))));
}

#[test]
fn the_side_by_side_view_draws_one_display_line_more_than_fits() {
    let mut component = component_with(vec![numbered(6)]);
    component.current_size = (MIN_SIDE_BY_SIDE_WIDTH, 20);
    component.view_mode = DiffViewMode::SideBySide;
    assert_eq!(component.get_text(MIN_SIDE_BY_SIDE_WIDTH, 3).len(), 4);
    assert_eq!(component.get_text(MIN_SIDE_BY_SIDE_WIDTH, 9).len(), 6);
    component.scroll_to(ScrollOffsets { top: 5, right: 0 });
    assert_eq!(component.get_text(MIN_SIDE_BY_SIDE_WIDTH, 3).len(), 1);
}

#[test]
fn a_selected_header_is_filled_up() {
    let mut component = component_with(vec![vec![diff_line("@@", DiffLineType::Header)]]);
    component.focus(true);
    component.selected_hunk = Some(0);
    let line = component.get_side_by_side_header(
        8,
        &diff_line("@@", DiffLineType::Header),
        true,
        true,
    );
    assert_eq!(
        line.spans,
        vec![span("┌", fg(Color::Yellow)), span("@@   \n", fg(Color::LightBlue))]
    );
}

#[test]
fn highlighted_cells_take_each_side_from_its_own_file() {
    let mut component = component_with(vec![vec![diff_line("same", DiffLineType::Context)]]);
    component.diff.as_mut().unwrap().hunks[0].lines[0].position =
        DiffLinePosition { old_lineno: Some(1), new_lineno: Some(2) };
    component.current_size = (MIN_SIDE_BY_SIDE_WIDTH, 20);
    component.view_mode = DiffViewMode::SideBySide;
    component.syntax_cache = Some(HighlightedDiff {
        key: key(),
        old: Some(highlighted_file(&[&[("left", Color::Blue)]])),
        new: Some(highlighted_file(&[&[("no", Color::Red)], &[("right", Color::Cyan)]])),
        status: HighlightStatus::Ready,
    });
    let lines = component.get_text(MIN_SIDE_BY_SIDE_WIDTH, 5);
    assert_eq!(lines[0].spans[1], span("left", fg(Color::Blue)));
    assert_eq!(lines[0].spans[4], span("right", fg(Color::Cyan)));
}

#[test]
fn a_binary_diff_shows_its_sizes() {
    let mut component = component_with(vec![]);
    let diff = component.diff.as_mut().unwrap();
    diff.sizes = (1000, 10);
    diff.size_delta = -990;
    let lines = component.get_text(40, 5);
    assert_eq!(texts(&lines), vec!["size: 1000 B -> 10 B (-990 B)"]);
    assert_eq!(lines[0].spans[5].style, fg(Color::Red));
    assert_eq!(lines[0].spans[1].style, fg(Color::Cyan));

    let diff = component.diff.as_mut().unwrap();
    diff.sizes = (0, 2048);
    diff.size_delta = 2048;
    let lines = component.get_text(40, 5);
    assert_eq!(texts(&lines), vec!["size: 0 B -> 2.0 KiB (+2.0 KiB)"]);
    assert_eq!(lines[0].spans[5].style, fg(Color::Green));
}

#[test]
fn the_smallest_size_delta_has_a_distance() {
    let mut component = component_with(vec![]);
    component.diff.as_mut().unwrap().size_delta = i64::MIN;
    assert_eq!(texts(&component.get_text(40, 5)), vec!["size: 0 B -> 0 B (-8.0 EiB)"]);
}

#[test]
fn without_a_diff_there_is_no_text() {
    let component = DiffComponent::new(colored_theme(), false);
    assert_eq!(component.get_text(40, 5), vec![]);
    assert_eq!(component.line_stats(), None);
}

#[test]
fn line_stats_count_changed_lines() {
    let component = component_with(vec![
        vec![diff_line("a", DiffLineType::Add), diff_line("d", DiffLineType::Delete)],
        vec![diff_line("c", DiffLineType::Context), diff_line("a", DiffLineType::Add)],
    ]);
    let stats = component.line_stats();
    assert_eq!(stats, Some(LineStats { additions: 2, deletions: 1 }));
    let line = component.line_stats_title(stats.unwrap());
    assert_eq!(
        line.spans,
        vec![
            span("+2", fg(Color::Green)),
            span(" ", Style::default()),
            span("-1", fg(Color::Red)),
        ]
    );
    assert_eq!(component_with(vec![]).line_stats(), None);
}

#[test]
fn the_title_says_how_highlighting_goes() {
    let mut component = component_with(vec![numbered(1)]);
    component.current.path = String::from("a.rs");
    assert_eq!(component.title("Diff: "), "Diff: a.rs");

    component.view_mode = DiffViewMode::SideBySide;
    component.syntax_progress = Some(ProgressPercent { progress: 42 });
    assert_eq!(component.title("Diff: "), "Diff: [side-by-side] a.rs [syntax: 42%]");

    component.syntax_progress = None;
    let mut diff =
        HighlightedDiff { key: key(), old: None, new: None, status: HighlightStatus::Ready };
    component.syntax_cache = Some(diff.clone());
    assert_eq!(component.syntax_title_suffix(), "");
    diff.status = HighlightStatus::Failed(String::from("oops"));
    component.syntax_cache = Some(diff.clone());
    assert_eq!(component.syntax_title_suffix(), " [syntax failed]");
    diff.status = HighlightStatus::Skipped(HighlightSkipReason::Binary);
    component.syntax_cache = Some(diff);
    assert_eq!(component.syntax_title_suffix(), " [syntax skipped: Binary]");
}

#[test]
fn skip_reasons_are_written_with_their_numbers() {
    let reasons = [
        HighlightSkipReason::Binary,
        HighlightSkipReason::TooLarge { bytes: 600, max_bytes: 512 },
        HighlightSkipReason::TooManyLines { lines: 11, max_lines: 10 },
        HighlightSkipReason::MissingContent,
    ];
    for reason in reasons {
        assert_eq!(skip_reason_text(&reason), format!("{reason:?}"));
    }
    assert_eq!(skip_reason_text(&reasons[1]), "TooLarge { bytes: 600, max_bytes: 512 }");
}

#[test]
fn drawing_takes_on_the_size_of_the_area() {
    let mut component = component_with(vec![numbered(3)]);
    component.selection = Selection::Multiple(0, 2);
    component.longest_line = 30;
    let extents = component.prepare_draw(22, 7);
    assert_eq!(component.current_size, (20, 5));
    assert_eq!(
        extents,
        ScrollExtents { selection: 2, lines: 3, height: 5, longest_line: 30, columns: 20 }
    );
    let drawing = component.draw(22, "Diff: ", "loading");
    assert_eq!(drawing.title, "Diff: ");
    assert_eq!(drawing.text.len(), 3);
    assert_eq!(drawing.title_style, fg(Color::Gray));
    assert!(!drawing.vertical_bar && !drawing.horizontal_bar);

    component.focus(true);
    let drawing = component.draw(22, "Diff: ", "loading");
    assert_eq!(drawing.title_style, fg(Color::White));
    assert_eq!(drawing.border_style, fg(Color::LightCyan));
    assert!(drawing.vertical_bar && drawing.horizontal_bar);
    component.longest_line = 20;
    assert!(!component.draw(22, "Diff: ", "loading").horizontal_bar);

    assert_eq!(component.prepare_draw(1, 0).height, 0);
    assert_eq!(component.current_size, (0, 0));
}

#[test]
fn a_pending_diff_draws_only_a_notice() {
    let mut component = component_with(vec![numbered(3)]);
    component.pending = true;
    let drawing = component.draw(22, "Diff: ", "loading");
    assert_eq!(drawing.text, vec![Line { spans: vec![span("loading", fg(Color::Cyan))] }]);
    assert_eq!(drawing.line_stats, None);
}

#[test]
fn side_by_side_scrolls_within_a_cell() {
    let mut component = component_with(vec![numbered(2)]);
    component.view_mode = DiffViewMode::SideBySide;
    component.longest_line = 60;
    assert_eq!(component.prepare_draw(102, 9).columns, 49);
    assert_eq!(component.max_scroll_right(), 11);
    assert_eq!(component.prepare_draw(101, 9).columns, 99);
    assert_eq!(component.max_scroll_right(), 0);
}

#[test]
fn draw_unified_leaves_the_view_mode_alone() {
    let mut component = component_with(vec![vec![
        diff_line("old", DiffLineType::Delete),
        diff_line("new", DiffLineType::Add),
    ]]);
    component.view_mode = DiffViewMode::SideBySide;
    assert_eq!(component.prepare_draw_unified(120, 9).lines, 2);
    assert_eq!(component.render_view_mode_override, None);
    let drawing = component.draw_unified(120, "Diff: ", "loading");
    assert_eq!(drawing.title, "Diff: ");
    assert_eq!(texts(&drawing.text), vec!["│old\n", "└new\n"]);
    assert_eq!(component.view_mode, DiffViewMode::SideBySide);
    assert_eq!(component.render_view_mode_override, None);

    let mut unified = component_with(vec![vec![
        diff_line("old", DiffLineType::Delete),
        diff_line("new", DiffLineType::Add),
    ]]);
    unified.prepare_draw(120, 9);
    assert_eq!(unified.draw(120, "Diff: ", "loading"), drawing);
}

#[test]
fn hunks_are_visible_where_they_touch_the_window() {
    assert!(DiffComponent::hunk_visible(0, 10, 2, 5));
    assert!(DiffComponent::hunk_visible(4, 9, 2, 5));
    assert!(DiffComponent::hunk_visible(0, 3, 2, 5));
    assert!(!DiffComponent::hunk_visible(0, 1, 2, 5));
    assert!(!DiffComponent::hunk_visible(6, 8, 2, 5));
    assert!(DiffComponent::hunk_visible(0, 2, 2, 5));
    assert!(DiffComponent::hunk_visible(5, 8, 2, 5));
    assert!(DiffComponent::hunk_visible(3, 4, 2, 5));
}

#[test]
fn leading_widths_are_counted_while_they_fit() {
    assert_eq!(count_leading(&vec![1, 2, 1], 3), 2);
    assert_eq!(count_leading(&vec![1, 2, 1], 2), 1);
    assert_eq!(count_leading(&vec![0, 0, 2], 0), 2);
    assert_eq!(count_leading(&vec![2], 1), 0);
    assert_eq!(count_leading(&vec![1, 1], 9), 2);
}

#[test]
fn pieces_are_skipped_from_the_front() {
    let pieces = vec![String::from("あ"), String::from("bc"), String::from("d")];
    assert_eq!(skip_pieces("あbcd", &pieces, 0), "あbcd");
    assert_eq!(skip_pieces("あbcd", &pieces, 2), "d");
    assert_eq!(skip_pieces("あbcd", &pieces, 3), "");
    assert_eq!(measure(&pieces), vec![2, 2, 1]);
}

#[test]
fn an_unscrolled_line_is_shown_whole_unless_it_starts_without_width() {
    let shown = |mark: &str| {
        let theme = Theme { line_break: String::from(mark), ..colored_theme() };
        let empty = diff_line("", DiffLineType::Delete);
        let drawn =
            DiffComponent::get_line_to_add(4, &empty, true, false, false, &theme, 0, None);
        drawn.spans.into_iter().last().unwrap()
    };
    assert_eq!(shown("+-"), span("+-  \n", fg(Color::LightRed)));
    assert_eq!(shown("\u{301}x"), span("x   \n", fg(Color::LightRed)));
}

fn glyph(text: &str, width: usize, fragment: usize) -> SideGlyph {
    SideGlyph { text: String::from(text), width, style: fg(Color::Red), fragment }
}

#[test]
fn glyphs_are_filled_into_lines_by_the_width_they_are_given() {
    let red = |content: &str| span(content, fg(Color::Red));
    let glyphs = vec![glyph("a", 1, 0), glyph("b", 1, 0), glyph("c", 1, 1), glyph("d", 3, 1)];
    assert_eq!(fill_lines(&glyphs, 3), vec![vec![red("ab"), red("c")], vec![red("d")]]);
    let marks = vec![glyph("x", 0, 0), glyph("y", 9, 0), glyph("z", 0, 0)];
    assert_eq!(fill_lines(&marks, 3), vec![vec![red("xy")], vec![red("z")]]);
    assert_eq!(fill_lines(&vec![], 3), Vec::<Vec<Span>>::new());
    let huge = vec![glyph("a", 1, 0), glyph("b", usize::MAX, 0)];
    assert_eq!(fill_lines(&huge, 3), vec![vec![red("a")], vec![red("b")]]);
}

#[test]
fn fragments_are_taken_apart_into_measured_glyphs() {
    let fragments = vec![span("e\u{301}", fg(Color::Red)), span("あ", fg(Color::Blue))];
    let glyphs = measure_fragments(&fragments);
    assert_eq!(glyphs.len(), 2);
    assert_eq!((glyphs[0].text.as_str(), glyphs[0].width, glyphs[0].fragment), ("e\u{301}", 1, 0));
    assert_eq!((glyphs[1].text.as_str(), glyphs[1].width, glyphs[1].fragment), ("あ", 2, 1));
    assert_eq!(glyphs[1].style, fg(Color::Blue));
}

#[test]
fn cells_and_lines_are_filled_by_the_width_they_are_given() {
    let mut spans = vec![span("x", fg(Color::Red))];
    assert_eq!(fill_cell(&mut spans, 9, 9, fg(Color::Blue)), 9);
    assert_eq!(spans, vec![span("x", fg(Color::Red))]);
    assert_eq!(fill_cell(&mut spans, 7, 3, fg(Color::Blue)), 7);
    assert_eq!(fill_cell(&mut spans, 2, 4, fg(Color::Blue)), 4);
    assert_eq!(spans, vec![span("x", fg(Color::Red)), span("  ", fg(Color::Blue))]);
    assert_eq!(end_line("x", true, 3), "x  \n");
    assert_eq!(end_line("x", false, 3), "x\n");
}

#[test]
fn a_row_line_puts_both_cells_around_a_separator() {
    let line = draw_row_line(
        "└",
        fg(Color::Yellow),
        vec![span("l", fg(Color::Red))],
        fg(Color::Gray),
        vec![span("r", fg(Color::Green))],
        fg(Color::Blue),
    );
    assert_eq!(
        line.spans,
        vec![
            span("└", fg(Color::Yellow)),
            span("l", fg(Color::Red)),
            span("│", fg(Color::Gray)),
            span("r", fg(Color::Green)),
            span("\n", fg(Color::Blue)),
        ]
    );
}

#[test]
fn sizes_are_drawn_as_they_are_given() {
    let draw = |grows| {
        let line = draw_sizes(String::from("A"), String::from("B"), grows, "C", &colored_theme());
        let style = line.spans[5].style;
        (texts(&[line]).remove(0), style)
    };
    assert_eq!(draw(true), (String::from("size: A -> B (+C)"), fg(Color::Green)));
    assert_eq!(draw(false), (String::from("size: A -> B (-C)"), fg(Color::Red)));
}

#[test]
fn scrolling_by_nothing_keeps_a_text_that_starts_with_width() {
    assert_eq!(trim_offset("abc", 0), "abc");
    assert_eq!(trim_offset("\u{200b}abc", 0), "abc");
    for columns in 0..5 {
        assert!("aあb".ends_with(trim_offset("aあb", columns)));
    }
}

#[test]
fn a_wrapped_row_keeps_the_style_of_each_side() {
    let mut component = component_with(vec![vec![
        diff_line("old", DiffLineType::Delete),
        diff_line(&"y".repeat(60), DiffLineType::Add),
    ]]);
    component.current_size = (MIN_SIDE_BY_SIDE_WIDTH, 20);
    component.view_mode = DiffViewMode::SideBySide;
    let lines = component.get_text(MIN_SIDE_BY_SIDE_WIDTH, 10);
    assert_eq!(lines.len(), 2);
    assert_eq!(
        lines[0].spans,
        vec![
            span("│", fg(Color::DarkGray)),
            span("old", fg(Color::Red)),
            span(&" ".repeat(46), fg(Color::Red)),
            span("│", fg(Color::DarkGray)),
            span(&"y".repeat(49), fg(Color::Green)),
            span("\n", fg(Color::Green)),
        ]
    );
    assert_eq!(
        lines[1].spans,
        vec![
            span("└", fg(Color::DarkGray)),
            span(&" ".repeat(49), fg(Color::Red)),
            span("│", fg(Color::DarkGray)),
            span(&"y".repeat(11), fg(Color::Green)),
            span(&" ".repeat(38), fg(Color::Green)),
            span("\n", fg(Color::Green)),
        ]
    );
}

#[test]
fn a_selected_hunk_is_marked_and_its_selected_row_highlighted() {
    let hunk = || {
        vec![
            diff_line("@@", DiffLineType::Header),
            diff_line("old", DiffLineType::Delete),
            diff_line("new", DiffLineType::Add),
        ]
    };
    let mut component = component_with(vec![hunk(), hunk()]);
    component.focus(true);
    component.current_size = (MIN_SIDE_BY_SIDE_WIDTH, 20);
    component.view_mode = DiffViewMode::SideBySide;
    component.update_selection(1);
    let lines = component.get_text(MIN_SIDE_BY_SIDE_WIDTH, 10);
    let marks: Vec<&Span> = lines.iter().map(|line| &line.spans[0]).collect();
    assert_eq!(
        marks,
        vec![
            &span("┌", fg(Color::Yellow)),
            &span("└", fg(Color::Yellow)),
            &span("┌", fg(Color::DarkGray)),
            &span("└", fg(Color::DarkGray)),
        ]
    );
    assert_eq!(lines[0].spans[1].style, fg(Color::Blue));
    assert_eq!(lines[1].spans[1], span("old", fg(Color::LightRed)));
    assert_eq!(lines[1].spans[3], span("│", fg(Color::Yellow)));
    assert_eq!(lines[1].spans[4], span("new", fg(Color::LightGreen)));
    assert_eq!(lines[3].spans[1], span("old", fg(Color::Red)));
    assert_eq!(lines[3].spans[3], span("│", fg(Color::DarkGray)));
}
