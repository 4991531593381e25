use crossterm::event::{KeyCode, KeyEvent, KeyModifiers};
use gitdiff::components::diff::{DiffComponent, ScrollOffsets};
use gitdiff::components::diff_commands::{Event, EventState, KeyMatches};
use gitdiff::components::diff_display::{DiffViewMode, MIN_SIDE_BY_SIDE_WIDTH};
use gitdiff::components::selection::Selection;
use gitdiff::model::{DiffLine, DiffLinePosition, DiffLineType, FileDiff, Hunk};
use gitdiff::options::Options;
use gitdiff::queue::{Action, Effect, InternalEvent};
use gitdiff::ui::style::{Color, Line, Span, Style, StylePair, Theme};
use ratatui::symbols;
use unicode_width::UnicodeWidthStr;

fn no_key() -> KeyMatches {
    KeyMatches {
        move_down: false,
        shift_down: false,
        shift_up: false,
        end: false,
        home: false,
        move_up: false,
        page_up: false,
        page_down: false,
        move_right: false,
        move_left: false,
        diff_hunk_next: false,
        diff_hunk_prev: false,
        diff_toggle_view_mode: false,
        diff_context_increase: false,
        diff_context_decrease: false,
        edit_file: false,
        stage_unstage_item: false,
        status_reset_item: false,
        diff_stage_lines: false,
        diff_reset_lines: false,
        copy: false,
    }
}

/// A key press under the bindings that the tests use.
fn press(key: KeyEvent) -> Event {
    Event::Key(KeyMatches {
        edit_file: key == KeyEvent::new(KeyCode::Char('e'), KeyModifiers::empty()),
        diff_context_increase: key == KeyEvent::new(KeyCode::Char('+'), KeyModifiers::empty()),
        diff_context_decrease: key == KeyEvent::new(KeyCode::Char('-'), KeyModifiers::empty()),
        ..no_key()
    })
}

fn pair(normal: Color, active: Color) -> StylePair {
    StylePair {
        normal: Style { fg: Some(normal), ..Style::default() },
        active: Style { fg: Some(active), ..Style::default() },
    }
}

/// The default theme in colours that tell every kind of line apart.
fn colored_theme() -> Theme {
    Theme {
        add: pair(Color::Green, Color::LightGreen),
        delete: pair(Color::Red, Color::LightRed),
        header: pair(Color::Blue, Color::LightBlue),
        context: pair(Color::Gray, Color::White),
        hunk_marker: pair(Color::DarkGray, Color::Yellow),
        ..Theme::default()
    }
}

fn new_component() -> DiffComponent {
    DiffComponent::new(Theme::default(), false)
}

fn test_diff_line(
    content: &str,
    line_type: DiffLineType,
    old_lineno: Option<u32>,
    new_lineno: Option<u32>,
) -> DiffLine {
    DiffLine {
        content: content.into(),
        line_type,
        position: DiffLinePosition { old_lineno, new_lineno },
    }
}

fn test_file_diff_hunks(hunks: Vec<Vec<DiffLine>>) -> FileDiff {
    let lines = hunks.iter().map(Vec::len).sum();
    FileDiff {
        lines,
        hunks: hunks
            .into_iter()
            .enumerate()
            .map(|(i, lines)| Hunk { header_hash: i as u64, lines })
            .collect(),
        untracked: false,
        sizes: (0, 0),
        size_delta: 0,
    }
}

fn test_file_diff(lines: Vec<DiffLine>) -> FileDiff {
    test_file_diff_hunks(vec![lines])
}

fn line_content(line: &Line) -> String {
    line.spans.iter().map(|span| span.content.as_str()).collect()
}

fn strip_side_by_side_hunk_marker(line: &str) -> &str {
    line.strip_prefix(symbols::line::VERTICAL)
        .or_else(|| line.strip_prefix(symbols::line::BOTTOM_LEFT))
        .or_else(|| line.strip_prefix(symbols::line::TOP_LEFT))
        .unwrap_or(line)
}

#[test]
fn test_line_break() {
    let diff_line = test_diff_line("", DiffLineType::Add, None, None);

    {
        let default_theme = colored_theme();

        assert_eq!(
            DiffComponent::get_line_to_add(
                4,
                &diff_line,
                false,
                false,
                false,
                &default_theme,
                0,
                None
            )
            .spans
            .last()
            .unwrap(),
            &Span::styled(
                String::from("¶\n"),
                default_theme.diff_line(diff_line.line_type, false)
            )
        );
    }

    {
        let theme = Theme { line_break: String::from("+"), ..colored_theme() };

        assert_eq!(
            DiffComponent::get_line_to_add(4, &diff_line, false, false, false, &theme, 0, None)
                .spans
                .last()
                .unwrap(),
            &Span::styled(String::from("+\n"), theme.diff_line(diff_line.line_type, false))
        );
    }
}

#[test]
fn diff_component_opens_editor_for_current_file() {
    let mut options = Options::new(None);
    let mut diff = new_component();

    diff.focus(true);
    diff.current.path = String::from("src/main.rs");

    let event = press(KeyEvent::new(KeyCode::Char('e'), KeyModifiers::empty()));
    let outcome = diff.event(&event, &mut options);
    assert!(matches!(outcome.state, EventState::Consumed));

    assert!(matches!(
        outcome.effect,
        Some(Effect::Push(InternalEvent::OpenExternalEditor(Some(path))))
            if path.path == "src/main.rs" && path.line.is_none()
    ));
}

#[test]
fn diff_component_opens_editor_at_selected_new_line() {
    let mut options = Options::new(None);
    let mut diff = new_component();

    diff.focus(true);
    diff.current.path = String::from("src/main.rs");
    diff.diff = Some(test_file_diff(vec![
        test_diff_line("@@ -10,2 +10,2 @@", DiffLineType::Header, None, None),
        test_diff_line("old", DiffLineType::Delete, Some(10), None),
        test_diff_line("new", DiffLineType::Add, None, Some(10)),
    ]));
    diff.selection = Selection::Single(2);

    let event = press(KeyEvent::new(KeyCode::Char('e'), KeyModifiers::empty()));
    let outcome = diff.event(&event, &mut options);
    assert!(matches!(outcome.state, EventState::Consumed));

    assert!(matches!(
        outcome.effect,
        Some(Effect::Push(InternalEvent::OpenExternalEditor(Some(path))))
            if path.path == "src/main.rs" && path.line == Some(10)
    ));
}

#[test]
fn diff_component_opens_editor_at_nearest_line_from_header() {
    let mut options = Options::new(None);
    let mut diff = new_component();

    diff.focus(true);
    diff.current.path = String::from("src/main.rs");
    diff.diff = Some(test_file_diff(vec![
        test_diff_line("@@ -20,2 +20,2 @@", DiffLineType::Header, None, None),
        test_diff_line("context", DiffLineType::Context, Some(20), Some(20)),
    ]));
    diff.selection = Selection::Single(0);

    let event = press(KeyEvent::new(KeyCode::Char('e'), KeyModifiers::empty()));
    let outcome = diff.event(&event, &mut options);
    assert!(matches!(outcome.state, EventState::Consumed));

    assert!(matches!(
        outcome.effect,
        Some(Effect::Push(InternalEvent::OpenExternalEditor(Some(path))))
            if path.path == "src/main.rs" && path.line == Some(20)
    ));
}

#[test]
fn diff_component_draws_line_stats_in_title() {
    let mut component = new_component();
    component.current.path = String::from("src/main.rs");
    component.diff = Some(test_file_diff(vec![
        test_diff_line("@@ -1,2 +1,3 @@", DiffLineType::Header, None, None),
        test_diff_line("old", DiffLineType::Delete, Some(1), None),
        test_diff_line("new", DiffLineType::Add, None, Some(1)),
        test_diff_line("another", DiffLineType::Add, None, Some(2)),
        test_diff_line("context", DiffLineType::Context, Some(2), Some(3)),
    ]));

    component.prepare_draw(48, 5);
    component.scroll_to(ScrollOffsets { top: 0, right: 0 });
    let drawing = component.draw(48, "Diff: ", "loading");

    let mut terminal = ratatui::Terminal::new(ratatui::backend::TestBackend::new(48, 5))
        .expect("Unable to set up terminal");
    terminal
        .draw(|frame| {
            let text: Vec<ratatui::text::Line> = drawing
                .text
                .iter()
                .map(|line| ratatui::text::Line::from(line_content(line)))
                .collect();
            let stats = drawing.line_stats.as_ref().map(line_content).unwrap_or_default();
            let block = ratatui::widgets::Block::default()
                .title(drawing.title.as_str())
                .borders(ratatui::widgets::Borders::ALL)
                .title(ratatui::text::Line::from(stats).right_aligned());
            frame.render_widget(
                ratatui::widgets::Paragraph::new(text).block(block),
                ratatui::layout::Rect::new(0, 0, 48, 5),
            );
        })
        .expect("Draw failed");

    let rendered = terminal.backend().to_string();
    let title_line = rendered.lines().find(|line| line.contains("Diff:")).unwrap_or_default();
    assert!(title_line.contains("+2 -1"), "title line: {title_line:?}");
}

#[test]
fn unified_text_renders_headers_changes_empty_lines_and_context() {
    let mut component = new_component();
    component.diff = Some(test_file_diff(vec![
        test_diff_line("@@ -1,3 +1,3 @@", DiffLineType::Header, None, None),
        test_diff_line("old", DiffLineType::Delete, Some(1), None),
        test_diff_line("", DiffLineType::Add, None, Some(1)),
        test_diff_line("context", DiffLineType::Context, Some(2), Some(2)),
    ]));

    let lines = component.get_text(40, 10).iter().map(line_content).collect::<Vec<_>>();

    assert_eq!(lines.len(), 4);
    assert!(lines[0].contains("@@ -1,3 +1,3 @@"));
    assert!(lines[1].contains("old"));
    assert!(lines[2].contains('¶'));
    assert!(lines[3].contains("context"));
}

#[test]
fn side_by_side_text_renders_full_width_header_separator_and_cells() {
    let mut component = new_component();
    component.current_size = (MIN_SIDE_BY_SIDE_WIDTH, 20);
    component.view_mode = DiffViewMode::SideBySide;
    component.diff = Some(test_file_diff(vec![
        test_diff_line("@@ -1 +1 @@", DiffLineType::Header, None, None),
        test_diff_line("old", DiffLineType::Delete, Some(1), None),
        test_diff_line("new", DiffLineType::Add, None, Some(1)),
    ]));

    let lines = component
        .get_text(MIN_SIDE_BY_SIDE_WIDTH, 10)
        .iter()
        .map(line_content)
        .collect::<Vec<_>>();

    assert_eq!(lines.len(), 2);
    assert!(lines[0].contains("@@ -1 +1 @@"));
    assert!(lines[1].contains("old"));
    assert!(lines[1].contains(symbols::line::VERTICAL));
    assert!(lines[1].contains("new"));
}

#[test]
fn side_by_side_text_renders_selected_hunk_marker_column() {
    let mut component = DiffComponent::new(colored_theme(), false);
    component.focus(true);
    component.current_size = (MIN_SIDE_BY_SIDE_WIDTH, 20);
    component.view_mode = DiffViewMode::SideBySide;
    component.selected_hunk = Some(0);
    component.diff = Some(test_file_diff(vec![
        test_diff_line("@@ -1,2 +1,2 @@", DiffLineType::Header, None, None),
        test_diff_line("context", DiffLineType::Context, Some(1), Some(1)),
        test_diff_line("old", DiffLineType::Delete, Some(2), None),
        test_diff_line("new", DiffLineType::Add, None, Some(2)),
    ]));

    let lines = component.get_text(MIN_SIDE_BY_SIDE_WIDTH, 10);

    assert_eq!(lines[0].spans[0].content.as_str(), symbols::line::TOP_LEFT);
    assert_eq!(lines[0].spans[0].style, component.theme.diff_hunk_marker(true));
    assert_eq!(lines[1].spans[0].content.as_str(), symbols::line::VERTICAL);
    assert_eq!(lines[1].spans[0].style, component.theme.diff_hunk_marker(true));
}

#[test]
fn unified_render_override_ignores_side_by_side_view_mode() {
    let mut component = new_component();
    component.current_size = (MIN_SIDE_BY_SIDE_WIDTH, 20);
    component.view_mode = DiffViewMode::SideBySide;
    component.render_view_mode_override = Some(DiffViewMode::Unified);
    component.diff = Some(test_file_diff(vec![
        test_diff_line("old", DiffLineType::Delete, Some(1), None),
        test_diff_line("new", DiffLineType::Add, None, Some(1)),
    ]));

    let lines = component
        .get_text(MIN_SIDE_BY_SIDE_WIDTH, 10)
        .iter()
        .map(line_content)
        .collect::<Vec<_>>();

    assert_eq!(lines.len(), 2);
    assert!(lines[0].contains("old"));
    assert!(lines[1].contains("new"));
    assert!(!lines[0].contains("new"));
    assert!(!lines[1].contains("old"));
}

#[test]
fn side_by_side_wraps_long_left_cell_with_fixed_separator() {
    let mut component = new_component();
    component.current_size = (MIN_SIDE_BY_SIDE_WIDTH, 20);
    component.view_mode = DiffViewMode::SideBySide;
    let cell_width = usize::from(component.side_cell_width());
    let left = "x".repeat(cell_width + 8);
    component.diff = Some(test_file_diff(vec![
        test_diff_line(&left, DiffLineType::Delete, Some(1), None),
        test_diff_line("new", DiffLineType::Add, None, Some(1)),
    ]));

    let lines = component
        .get_text(MIN_SIDE_BY_SIDE_WIDTH, 10)
        .iter()
        .map(line_content)
        .collect::<Vec<_>>();

    assert_eq!(lines.len(), 2);
    for line in &lines {
        let line = strip_side_by_side_hunk_marker(line);
        assert_eq!(line.find(symbols::line::VERTICAL), Some(cell_width));
    }
    assert!(strip_side_by_side_hunk_marker(&lines[0]).starts_with(&"x".repeat(cell_width)));
    assert!(lines[0].contains("new"));
    assert!(strip_side_by_side_hunk_marker(&lines[1]).starts_with(&"x".repeat(8)));
}

#[test]
fn side_by_side_wraps_left_cell_by_display_width() {
    let mut component = new_component();
    component.current_size = (MIN_SIDE_BY_SIDE_WIDTH, 20);
    component.view_mode = DiffViewMode::SideBySide;
    let cell_width = usize::from(component.side_cell_width());
    let left = "あ".repeat(cell_width);
    component.diff = Some(test_file_diff(vec![
        test_diff_line(&left, DiffLineType::Delete, Some(1), None),
        test_diff_line("new", DiffLineType::Add, None, Some(1)),
    ]));

    let lines = component
        .get_text(MIN_SIDE_BY_SIDE_WIDTH, 10)
        .iter()
        .map(line_content)
        .collect::<Vec<_>>();

    assert!(lines.len() > 1);
    for line in &lines {
        let line = strip_side_by_side_hunk_marker(line);
        let (left, _) = line.split_once(symbols::line::VERTICAL).unwrap();
        assert_eq!(left.width(), cell_width);
    }
}

#[test]
fn side_by_side_continuation_keeps_short_side_line_style() {
    let mut component = DiffComponent::new(colored_theme(), false);
    component.current_size = (MIN_SIDE_BY_SIDE_WIDTH, 20);
    component.view_mode = DiffViewMode::SideBySide;
    let cell_width = usize::from(component.side_cell_width());
    let right = "y".repeat(cell_width + 8);
    component.diff = Some(test_file_diff(vec![
        test_diff_line("old", DiffLineType::Delete, Some(1), None),
        test_diff_line(&right, DiffLineType::Add, None, Some(1)),
    ]));

    let lines = component.get_text(MIN_SIDE_BY_SIDE_WIDTH, 10);

    assert_eq!(lines.len(), 2);
    assert_eq!(lines[1].spans[1].content.as_str(), " ".repeat(cell_width));
    assert_eq!(
        lines[1].spans[1].style,
        component.theme.diff_line(DiffLineType::Delete, false)
    );
}

#[test]
fn side_by_side_narrow_fallback_renders_unified_lines_but_uses_side_selection_model() {
    let mut component = new_component();
    component.current_size = (MIN_SIDE_BY_SIDE_WIDTH - 1, 20);
    component.view_mode = DiffViewMode::SideBySide;
    component.diff = Some(test_file_diff(vec![
        test_diff_line("old", DiffLineType::Delete, Some(3), None),
        test_diff_line("new", DiffLineType::Add, None, Some(4)),
    ]));
    component.selection = Selection::Single(0);

    let lines = component
        .get_text(MIN_SIDE_BY_SIDE_WIDTH - 1, 10)
        .iter()
        .map(line_content)
        .collect::<Vec<_>>();

    assert_eq!(lines.len(), 2);
    assert!(lines[0].contains("old"));
    assert!(lines[1].contains("new"));
    assert_eq!(
        component.selected_lines(),
        vec![
            DiffLinePosition { old_lineno: Some(3), new_lineno: None },
            DiffLinePosition { old_lineno: None, new_lineno: Some(4) },
        ]
    );
}

#[test]
fn side_by_side_selection_skips_context_lines_for_line_actions() {
    let mut component = new_component();
    component.current.path = "src/lib.rs".to_string();
    component.current_size = (MIN_SIDE_BY_SIDE_WIDTH, 20);
    component.view_mode = DiffViewMode::SideBySide;
    component.diff = Some(test_file_diff(vec![
        test_diff_line("context", DiffLineType::Context, Some(2), Some(2)),
        test_diff_line("old", DiffLineType::Delete, Some(3), None),
        test_diff_line("new", DiffLineType::Add, None, Some(3)),
    ]));
    component.selection = Selection::Multiple(0, 1);

    assert_eq!(
        component.selected_lines(),
        vec![
            DiffLinePosition { old_lineno: Some(3), new_lineno: None },
            DiffLinePosition { old_lineno: None, new_lineno: Some(3) },
        ]
    );

    let effect = component.reset_lines();

    assert!(matches!(
        effect,
        Effect::Push(InternalEvent::ConfirmAction(Action::ResetLines(path, lines)))
            if path == "src/lib.rs" && lines == component.selected_lines()
    ));
}

#[test]
fn toggling_view_mode_preserves_selected_hunk() {
    let mut component = new_component();
    component.current_size = (MIN_SIDE_BY_SIDE_WIDTH, 20);
    component.diff = Some(test_file_diff_hunks(vec![
        vec![
            test_diff_line("@@ -1 +1 @@", DiffLineType::Header, None, None),
            test_diff_line("old", DiffLineType::Delete, Some(1), None),
            test_diff_line("new", DiffLineType::Add, None, Some(1)),
        ],
        vec![
            test_diff_line("@@ -5 +5 @@", DiffLineType::Header, None, None),
            test_diff_line("next", DiffLineType::Add, None, Some(5)),
        ],
    ]));
    component.selection = Selection::Single(3);
    component.selected_hunk = Some(1);

    component.toggle_view_mode();

    assert!(matches!(component.view_mode, DiffViewMode::SideBySide));
    assert_eq!(component.selected_hunk, Some(1));
    assert!(matches!(component.selection, Selection::Single(2)));

    component.toggle_view_mode();

    assert!(matches!(component.view_mode, DiffViewMode::Unified));
    assert_eq!(component.selected_hunk, Some(1));
    assert!(matches!(component.selection, Selection::Single(3)));
}

#[test]
fn side_by_side_selected_display_line_maps_to_raw_positions() {
    let mut component = new_component();
    component.current_size = (MIN_SIDE_BY_SIDE_WIDTH, 20);
    component.view_mode = DiffViewMode::SideBySide;
    component.diff = Some(test_file_diff(vec![
        test_diff_line("foo", DiffLineType::Delete, Some(3), None),
        test_diff_line("bar", DiffLineType::Add, None, Some(4)),
    ]));
    component.selection = Selection::Single(0);

    assert_eq!(
        component.selected_lines(),
        vec![
            DiffLinePosition { old_lineno: Some(3), new_lineno: None },
            DiffLinePosition { old_lineno: None, new_lineno: Some(4) },
        ]
    );
}

#[test]
fn side_by_side_fallback_width_keeps_selected_line_mapping() {
    let mut component = new_component();
    component.current_size = (MIN_SIDE_BY_SIDE_WIDTH - 1, 20);
    component.view_mode = DiffViewMode::SideBySide;
    component.diff = Some(test_file_diff(vec![
        test_diff_line("foo", DiffLineType::Delete, Some(3), None),
        test_diff_line("bar", DiffLineType::Add, None, Some(4)),
    ]));
    component.selection = Selection::Single(0);

    assert_eq!(
        component.selected_lines(),
        vec![
            DiffLinePosition { old_lineno: Some(3), new_lineno: None },
            DiffLinePosition { old_lineno: None, new_lineno: Some(4) },
        ]
    );
}

#[test]
fn diff_context_keys_update_options_and_queue_diff_refresh() {
    let mut options = Options::new(None);
    let mut component = new_component();
    component.focus(true);
    component.diff = Some(test_file_diff(vec![test_diff_line(
        "@@ -1 +1 @@",
        DiffLineType::Header,
        None,
        None,
    )]));

    let increase = press(KeyEvent::new(KeyCode::Char('+'), KeyModifiers::empty()));
    let outcome = component.event(&increase, &mut options);
    assert!(matches!(outcome.state, EventState::Consumed));
    assert_eq!(options.diff_options().context, 2);
    assert!(matches!(
        outcome.effect,
        Some(Effect::Push(InternalEvent::Update(update))) if update.diff && update.commands
    ));

    let decrease = press(KeyEvent::new(KeyCode::Char('-'), KeyModifiers::empty()));
    let outcome = component.event(&decrease, &mut options);
    assert!(matches!(outcome.state, EventState::Consumed));
    assert_eq!(options.diff_options().context, 1);
    assert!(matches!(
        outcome.effect,
        Some(Effect::Push(InternalEvent::Update(update))) if update.diff && update.commands
    ));
}
