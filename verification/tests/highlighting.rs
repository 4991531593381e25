use gitdiff::components::diff::{DiffComponent, HashedParams};
use gitdiff::components::diff_update::SyntaxNotification;
use gitdiff::components::selection::Selection;
use gitdiff::model::{
    CommitId, DiffLine, DiffLinePosition, DiffLineType, DiffOptions, DiffParams, DiffType,
    FileContent, FileDiff, Hunk, ProgressPercent,
};
use gitdiff::options::{Options, OptionsData};
use gitdiff::ui::diff_syntax::{
    columns_left, draw_pieces, highlighted_line_to_spans, highlighted_spans_for_side_cell,
    highlighted_spans_for_unified_line, line_no_to_index, line_suffix, merge_syntax_and_diff_style,
    spans_to_line_content, trim_highlighted_spans, HighlightSkipReason, HighlightStatus,
    HighlightedDiff, HighlightedDiffKey, HighlightedFile, HighlightedLine, HighlightedSpan,
};
use gitdiff::ui::highlight_cache::{
    cache_file, cache_highlighted_diff, cached_highlighted_diff, flush_highlighted_diff_cache,
    init_highlighted_diff_cache, HIGHLIGHTED_DIFF_CACHE_CAPACITY, HIGHLIGHTED_DIFF_CACHE_VERSION,
    HighlightedDiffCache, HighlightedDiffCacheFile,
};
use gitdiff::ui::highlight_job::{
    build_highlighted_diff, count_lines, diff_content_sources, highlight_file, highlighted_diff,
    parent_needed, prepare_content, should_skip, AsyncDiffSyntaxJob, ContentError, ContentSource,
    DiffSyntaxRequest, HighlightPlan,
};
use gitdiff::ui::style::{Color, Span, Style, Theme};

fn fg(color: Color) -> Style {
    Style { fg: Some(color), ..Style::default() }
}

fn piece(content: &str, color: Color) -> HighlightedSpan {
    HighlightedSpan { content: String::from(content), style: fg(color) }
}

fn key(hash: u64) -> HighlightedDiffKey {
    HighlightedDiffKey::new(String::from("a.rs"), hash, 5, String::from("dark"), 2)
}

fn diff_with(hash: u64, status: HighlightStatus) -> HighlightedDiff {
    HighlightedDiff { key: key(hash), old: None, new: None, status }
}

fn file_of(lines: &[&str]) -> HighlightedFile {
    HighlightedFile {
        path: String::from("a.rs"),
        line_count: lines.len(),
        lines: lines
            .iter()
            .map(|line| HighlightedLine { spans: vec![piece(line, Color::Blue)] })
            .collect(),
    }
}

fn line_at(line_type: DiffLineType, old_lineno: Option<u32>, new_lineno: Option<u32>) -> DiffLine {
    DiffLine {
        content: String::from("x"),
        line_type,
        position: DiffLinePosition { old_lineno, new_lineno },
    }
}

fn text_of(line: Option<&HighlightedLine>) -> Option<String> {
    line.map(|line| spans_to_line_content(&line.spans))
}

#[test]
fn line_numbers_count_from_one() {
    assert_eq!(line_no_to_index(Some(1)), Some(0));
    assert_eq!(line_no_to_index(Some(u32::MAX)), Some(u32::MAX as usize - 1));
    assert_eq!(line_no_to_index(Some(0)), None);
    assert_eq!(line_no_to_index(None), None);
}

#[test]
fn each_kind_of_line_is_looked_up_in_its_file() {
    let diff = HighlightedDiff {
        key: key(1),
        old: Some(file_of(&["old 1", "old 2"])),
        new: Some(file_of(&["new 1", "new 2"])),
        status: HighlightStatus::Ready,
    };
    let unified = |line: DiffLine| text_of(highlighted_spans_for_unified_line(&line, &diff));
    assert_eq!(unified(line_at(DiffLineType::Delete, Some(2), None)).as_deref(), Some("old 2"));
    assert_eq!(unified(line_at(DiffLineType::Add, None, Some(1))).as_deref(), Some("new 1"));
    assert_eq!(
        unified(line_at(DiffLineType::Context, Some(1), Some(2))).as_deref(),
        Some("new 2")
    );
    assert_eq!(unified(line_at(DiffLineType::Header, Some(1), Some(1))), None);
    assert_eq!(unified(line_at(DiffLineType::Add, Some(1), None)), None);
    assert_eq!(unified(line_at(DiffLineType::Add, None, Some(3))), None);

    let side = |line: &DiffLine, old| text_of(highlighted_spans_for_side_cell(line, old, &diff));
    let line = line_at(DiffLineType::Context, Some(1), Some(2));
    assert_eq!(side(&line, true).as_deref(), Some("old 1"));
    assert_eq!(side(&line, false).as_deref(), Some("new 2"));

    let deleted = HighlightedDiff { new: None, ..diff.clone() };
    assert_eq!(
        text_of(highlighted_spans_for_unified_line(&line, &deleted)).as_deref(),
        Some("old 2")
    );
}

#[test]
fn scrolling_drops_whole_spans_and_cuts_the_next() {
    let spans = vec![piece("ab", Color::Red), piece("cd", Color::Green), piece("e", Color::Blue)];
    assert_eq!(
        trim_highlighted_spans(&spans, 3),
        vec![piece("d", Color::Green), piece("e", Color::Blue)]
    );
    assert_eq!(trim_highlighted_spans(&spans, 0), spans);
    assert_eq!(trim_highlighted_spans(&spans, 9), vec![]);
    let wide = vec![piece("あ", Color::Red), piece("bc", Color::Green)];
    assert_eq!(trim_highlighted_spans(&wide, 3), vec![piece("c", Color::Green)]);
    assert_eq!(trim_highlighted_spans(&wide, 1), wide);
}

#[test]
fn a_syntax_style_gets_the_background_of_its_line() {
    let theme = Theme {
        add_background: Some(Color::Green),
        selection: Style { bg: Some(Color::Blue), add_modifier: 1, ..Style::default() },
        ..Theme::default()
    };
    assert_eq!(
        merge_syntax_and_diff_style(fg(Color::Red), DiffLineType::Add, false, &theme),
        Style { bg: Some(Color::Green), ..fg(Color::Red) }
    );
    assert_eq!(
        merge_syntax_and_diff_style(fg(Color::Red), DiffLineType::Add, true, &theme),
        Style { bg: Some(Color::Blue), add_modifier: 1, ..fg(Color::Red) }
    );
    assert_eq!(
        merge_syntax_and_diff_style(fg(Color::Red), DiffLineType::Context, false, &theme),
        fg(Color::Red)
    );
}

#[test]
fn patching_a_style_overrides_what_is_set() {
    let base = Style {
        fg: Some(Color::Red),
        bg: Some(Color::Blue),
        add_modifier: 0b0110,
        sub_modifier: 0b1000,
    };
    let over = Style { fg: None, bg: Some(Color::White), add_modifier: 0b1000, sub_modifier: 0b0010 };
    let patched = base.patch(over);
    assert_eq!(
        patched,
        Style {
            fg: Some(Color::Red),
            bg: Some(Color::White),
            add_modifier: 0b1100,
            sub_modifier: 0b0010,
        }
    );
    assert_eq!(patched.patch(over), patched);
    assert_eq!(base.patch(Style::default()), base);
    let outside = ratatui::style::Style {
        add_modifier: ratatui::style::Modifier::from_bits_truncate(0b0110),
        sub_modifier: ratatui::style::Modifier::from_bits_truncate(0b1000),
        ..ratatui::style::Style::default()
    }
    .patch(ratatui::style::Style {
        add_modifier: ratatui::style::Modifier::from_bits_truncate(0b1000),
        sub_modifier: ratatui::style::Modifier::from_bits_truncate(0b0010),
        ..ratatui::style::Style::default()
    });
    assert_eq!(outside.add_modifier.bits(), patched.add_modifier);
    assert_eq!(outside.sub_modifier.bits(), patched.sub_modifier);
}

#[test]
fn a_highlighted_line_is_filled_and_ended_on_demand() {
    let theme = Theme::default();
    let line = HighlightedLine { spans: vec![piece("あb", Color::Red)] };
    let draw = |scrolled, width, fill, newline| {
        highlighted_line_to_spans(
            &line,
            DiffLineType::Add,
            false,
            &theme,
            scrolled,
            width,
            fill,
            newline,
        )
    };
    let text = Span::styled(String::from("あb"), fg(Color::Red));
    let plain = |content: &str| Span::styled(String::from(content), Style::default());
    assert_eq!(draw(0, 6, false, false), vec![text.clone()]);
    assert_eq!(draw(0, 6, true, false), vec![text.clone(), plain("   ")]);
    assert_eq!(draw(0, 6, true, true), vec![text.clone(), plain("   \n")]);
    assert_eq!(draw(0, 6, false, true), vec![text, plain("\n")]);
    assert_eq!(
        draw(2, 6, true, false),
        vec![Span::styled(String::from("b"), fg(Color::Red)), plain("     ")]
    );
    assert_eq!(draw(9, 2, true, false), vec![plain("¶"), plain("  ")]);
}

#[test]
fn an_empty_highlighted_line_shows_a_mark_if_it_changed() {
    let theme = Theme::default();
    let line = HighlightedLine { spans: vec![] };
    let draw =
        |line_type| highlighted_line_to_spans(&line, line_type, false, &theme, 0, 3, true, false);
    let plain = |content: &str| Span::styled(String::from(content), Style::default());
    assert_eq!(draw(DiffLineType::Add), vec![plain("¶"), plain("  ")]);
    assert_eq!(draw(DiffLineType::Context), vec![plain("   ")]);
}

fn hashes(cache: &HighlightedDiffCache) -> Vec<u64> {
    cache.snapshot().iter().map(|diff| diff.key.diff_hash).collect()
}

#[test]
fn the_cache_keeps_the_last_used_first() {
    let mut cache = HighlightedDiffCache::new();
    for hash in 0..3 {
        cache_highlighted_diff(&mut cache, diff_with(hash, HighlightStatus::Ready));
    }
    assert_eq!(hashes(&cache), vec![2, 1, 0]);
    assert_eq!(
        cached_highlighted_diff(&mut cache, &key(0)),
        Some(diff_with(0, HighlightStatus::Ready))
    );
    assert_eq!(hashes(&cache), vec![0, 2, 1]);
    assert_eq!(cached_highlighted_diff(&mut cache, &key(7)), None);
    assert_eq!(hashes(&cache), vec![0, 2, 1]);
}

#[test]
fn the_cache_replaces_and_forgets() {
    let mut cache = HighlightedDiffCache::new();
    let failed = HighlightStatus::Failed(String::from("oops"));
    cache_highlighted_diff(&mut cache, diff_with(0, HighlightStatus::Ready));
    let snapshot = cache_highlighted_diff(&mut cache, diff_with(0, failed.clone()));
    assert_eq!(snapshot, Some(vec![diff_with(0, failed)]));
    let capacity = HIGHLIGHTED_DIFF_CACHE_CAPACITY as u64;
    for hash in 1..=capacity {
        cache_highlighted_diff(&mut cache, diff_with(hash, HighlightStatus::Ready));
    }
    let expected: Vec<u64> = (1..=capacity).rev().collect();
    assert_eq!(hashes(&cache), expected);
}

#[test]
fn what_is_still_loading_is_not_cached() {
    let mut cache = HighlightedDiffCache::new();
    assert_eq!(
        cache_highlighted_diff(&mut cache, diff_with(0, HighlightStatus::Loading)),
        None
    );
    assert_eq!(hashes(&cache), vec![]);
}

#[test]
fn a_flushed_cache_is_restored() {
    let mut cache = HighlightedDiffCache::new();
    cache_highlighted_diff(&mut cache, diff_with(1, HighlightStatus::Ready));
    cache_highlighted_diff(
        &mut cache,
        diff_with(2, HighlightStatus::Skipped(HighlightSkipReason::Binary)),
    );
    let (path, file) = flush_highlighted_diff_cache(Some("here"), Some(&cache)).unwrap();
    assert_eq!(path, "here");
    assert_eq!(file.version, HIGHLIGHTED_DIFF_CACHE_VERSION);
    let mut restored = HighlightedDiffCache::new();
    init_highlighted_diff_cache(&mut restored, Some(file));
    assert_eq!(restored.snapshot(), cache.snapshot());

    assert!(flush_highlighted_diff_cache(None::<&str>, Some(&cache)).is_none());
    assert!(flush_highlighted_diff_cache(Some("here"), None).is_none());
}

#[test]
fn a_cache_file_of_another_version_is_ignored() {
    let mut cache = HighlightedDiffCache::new();
    cache_highlighted_diff(&mut cache, diff_with(1, HighlightStatus::Ready));
    let file = HighlightedDiffCacheFile {
        version: HIGHLIGHTED_DIFF_CACHE_VERSION + 1,
        entries: vec![diff_with(2, HighlightStatus::Ready)],
    };
    init_highlighted_diff_cache(&mut cache, Some(file));
    assert_eq!(hashes(&cache), vec![]);
    init_highlighted_diff_cache(&mut cache, None);
    assert_eq!(hashes(&cache), vec![]);
}

#[test]
fn a_cache_file_is_cut_to_what_the_cache_holds() {
    let mut cache = HighlightedDiffCache::new();
    let mut entries = vec![diff_with(99, HighlightStatus::Loading)];
    entries.extend((0..20).map(|hash| diff_with(hash, HighlightStatus::Ready)));
    init_highlighted_diff_cache(&mut cache, Some(cache_file(entries)));
    let expected: Vec<u64> = (0..HIGHLIGHTED_DIFF_CACHE_CAPACITY as u64).collect();
    assert_eq!(hashes(&cache), expected);
}

fn content(text: &str, bytes: u64) -> FileContent {
    FileContent { path: String::from("a.rs"), content: String::from(text), bytes }
}

fn request() -> DiffSyntaxRequest {
    DiffSyntaxRequest {
        key: key(1),
        diff_type: DiffType::WorkDir,
        max_file_bytes: 10,
        max_file_lines: 2,
    }
}

#[test]
fn lines_are_counted_by_their_ends() {
    assert_eq!(count_lines(""), 0);
    assert_eq!(count_lines("a"), 1);
    assert_eq!(count_lines("a\n"), 1);
    assert_eq!(count_lines("a\n\nb"), 3);
    for text in ["", "\n", "a\r\nb\n", "x\n\n"] {
        assert_eq!(count_lines(text), text.lines().count());
    }
}

#[test]
fn large_files_are_skipped() {
    assert_eq!(should_skip(&content("a\nb", 10), 10, 2), None);
    assert_eq!(
        should_skip(&content("a\nb\nc", 11), 10, 2),
        Some(HighlightSkipReason::TooLarge { bytes: 11, max_bytes: 10 })
    );
    assert_eq!(
        should_skip(&content("a\nb\nc", 5), 10, 2),
        Some(HighlightSkipReason::TooManyLines { lines: 3, max_lines: 2 })
    );
}

#[test]
fn a_request_is_answered_at_once_where_nothing_can_be_highlighted() {
    let skipped = |plan: Result<HighlightPlan, String>| match plan {
        Ok(HighlightPlan::Answer(diff)) => {
            assert_eq!(diff.key, key(1));
            assert!(diff.old.is_none() && diff.new.is_none());
            diff.status
        }
        _ => panic!("expected an answer"),
    };
    let reason = HighlightStatus::Skipped;
    assert_eq!(
        skipped(build_highlighted_diff(request(), Err(ContentError::BinaryFile))),
        reason(HighlightSkipReason::Binary)
    );
    assert_eq!(
        skipped(build_highlighted_diff(request(), Ok((None, None)))),
        reason(HighlightSkipReason::MissingContent)
    );
    assert_eq!(
        skipped(build_highlighted_diff(
            request(),
            Ok((Some(content("a", 12)), Some(content("a", 99))))
        )),
        reason(HighlightSkipReason::TooLarge { bytes: 12, max_bytes: 10 })
    );
    assert_eq!(
        skipped(build_highlighted_diff(request(), Ok((None, Some(content("a\nb\nc", 5)))))),
        reason(HighlightSkipReason::TooManyLines { lines: 3, max_lines: 2 })
    );
}

#[test]
fn other_errors_and_contents_are_handed_on() {
    assert!(matches!(
        build_highlighted_diff(request(), Err(ContentError::Other(String::from("gone")))),
        Err(message) if message == "gone"
    ));
    assert!(matches!(
        build_highlighted_diff(request(), Ok((None, Some(content("a", 1))))),
        Ok(HighlightPlan::Highlight { key: asked, old: None, new: Some(new) })
            if asked == key(1) && new.content == "a"
    ));
}

#[test]
fn contents_come_from_both_sides_of_the_diff() {
    let one = CommitId { id: [1; 20] };
    let two = CommitId { id: [2; 20] };
    assert_eq!(
        diff_content_sources(&DiffType::WorkDir, None),
        (Some(ContentSource::Index), Some(ContentSource::WorkTree))
    );
    assert_eq!(
        diff_content_sources(&DiffType::Stage, None),
        (Some(ContentSource::Head), Some(ContentSource::Index))
    );
    assert_eq!(
        diff_content_sources(&DiffType::Commit(two), Some(one)),
        (Some(ContentSource::Commit(one)), Some(ContentSource::Commit(two)))
    );
    assert_eq!(
        diff_content_sources(&DiffType::Commit(two), None),
        (None, Some(ContentSource::Commit(two)))
    );
    assert_eq!(
        diff_content_sources(&DiffType::Commits { old: one, new: two }, None),
        (Some(ContentSource::Commit(one)), Some(ContentSource::Commit(two)))
    );
    assert_eq!(parent_needed(&DiffType::Commit(two)), Some(two));
    assert_eq!(parent_needed(&DiffType::Stage), None);
}

#[test]
fn highlighted_lines_are_collected() {
    assert_eq!(prepare_content(content("\tx", 2)).content, "  x");
    let file = highlight_file(
        String::from("a.rs"),
        vec![Some(vec![piece("a", Color::Red)]), None, Some(vec![])],
    );
    assert_eq!(file.line_count, 3);
    assert_eq!(
        file.lines,
        vec![
            HighlightedLine { spans: vec![piece("a", Color::Red)] },
            HighlightedLine { spans: vec![] },
        ]
    );
    let diff = highlighted_diff(key(1), None, Some(Ok(file.clone()))).unwrap();
    assert!(diff.is_ready());
    assert_eq!((diff.key, diff.old, diff.new), (key(1), None, Some(file)));
    assert!(!diff_with(1, HighlightStatus::Loading).is_ready());
}

#[test]
fn a_job_hands_out_its_answer_once() {
    let mut job = AsyncDiffSyntaxJob::new(key(1), DiffType::Stage, 10, 2);
    let asked = job.take_request().unwrap();
    assert_eq!(asked.key, key(1));
    job.finish(asked.key, Ok(diff_with(1, HighlightStatus::Ready)));
    assert_eq!(job.result(), Some(diff_with(1, HighlightStatus::Ready)));
    assert_eq!(job.result(), None);

    let mut job = AsyncDiffSyntaxJob::new(key(1), DiffType::Stage, 10, 2);
    job.finish(key(1), Err(String::from("oops")));
    assert_eq!(
        job.result(),
        Some(diff_with(1, HighlightStatus::Failed(String::from("oops"))))
    );

    let mut job = AsyncDiffSyntaxJob::new(key(1), DiffType::Stage, 10, 2);
    assert_eq!(job.result(), None);
}

fn file_diff(contents: &[&str]) -> FileDiff {
    FileDiff {
        lines: contents.len(),
        hunks: vec![Hunk {
            header_hash: 0,
            lines: contents
                .iter()
                .map(|content| DiffLine {
                    content: String::from(*content),
                    line_type: DiffLineType::Add,
                    position: DiffLinePosition { old_lineno: None, new_lineno: Some(1) },
                })
                .collect(),
        }],
        untracked: false,
        sizes: (0, 0),
        size_delta: 0,
    }
}

fn params() -> HashedParams {
    HashedParams {
        params: DiffParams {
            path: String::from("a.rs"),
            diff_type: DiffType::WorkDir,
            options: DiffOptions::default(),
        },
        hash: 5,
    }
}

fn themed() -> DiffComponent {
    DiffComponent::new(Theme { syntax: String::from("dark"), ..Theme::default() }, false)
}

#[test]
fn a_new_diff_is_shown_and_highlighted() {
    let mut component = themed();
    component.clear(true);
    assert!(component.pending);
    let mut cache = HighlightedDiffCache::new();
    let options = Options::new(None);
    let outcome = component.update(
        String::from("a.rs"),
        false,
        file_diff(&["\tab", "あ"]),
        1,
        params(),
        &options,
        &mut cache,
    );
    assert!(outcome.scroll_to_top);
    let request = outcome.request.unwrap();
    assert_eq!(request.key, key(1));
    assert_eq!(request.max_file_bytes, 524_288);
    assert_eq!(request.max_file_lines, 10_000);
    assert!(!component.pending);
    assert_eq!(component.current(), (String::from("a.rs"), false));
    assert_eq!(component.longest_line, 5);
    assert_eq!(component.selected_hunk, Some(0));
    assert_eq!(component.syntax_progress, Some(ProgressPercent { progress: 0 }));
    assert_eq!(component.syntax_cache, Some(diff_with(1, HighlightStatus::Loading)));

    // The same diff again asks for nothing.
    component.selection = Selection::Multiple(0, 1);
    let again = component.update(
        String::from("a.rs"),
        false,
        file_diff(&["\tab", "あ"]),
        1,
        params(),
        &options,
        &mut cache,
    );
    assert!(again.request.is_none());
    assert!(!again.scroll_to_top);
    assert_eq!(component.selection, Selection::Multiple(0, 1));

    // The answer is taken over and remembered.
    component.update_async(
        SyntaxNotification::Progress(Some(ProgressPercent { progress: 50 })),
        &mut cache,
    );
    assert_eq!(component.syntax_progress, Some(ProgressPercent { progress: 50 }));
    let snapshot = component.update_async(
        SyntaxNotification::Done(Some(diff_with(1, HighlightStatus::Ready))),
        &mut cache,
    );
    assert_eq!(snapshot, Some(vec![diff_with(1, HighlightStatus::Ready)]));
    assert_eq!(component.syntax_progress, None);
    assert_eq!(component.syntax_cache, Some(diff_with(1, HighlightStatus::Ready)));

    // An answer for another diff is only remembered.
    component.update_async(
        SyntaxNotification::Done(Some(diff_with(9, HighlightStatus::Ready))),
        &mut cache,
    );
    assert_eq!(component.syntax_cache, Some(diff_with(1, HighlightStatus::Ready)));
    assert_eq!(hashes(&cache), vec![9, 1]);

    // The remembered one is found without a job.
    let found = component.update(
        String::from("a.rs"),
        false,
        file_diff(&["x"]),
        9,
        params(),
        &options,
        &mut cache,
    );
    assert!(found.request.is_none());
    assert_eq!(component.syntax_cache, Some(diff_with(9, HighlightStatus::Ready)));
    assert_eq!(component.selection, Selection::Single(0));
}

#[test]
fn a_refreshed_diff_keeps_the_selection_and_another_file_does_not() {
    let mut component = themed();
    let mut cache = HighlightedDiffCache::new();
    let options = Options::new(Some(OptionsData {
        diff_syntax_highlight: false,
        ..OptionsData::default()
    }));
    let mut show = |component: &mut DiffComponent, path: &str, contents: &[&str], hash| {
        component.update(
            String::from(path),
            false,
            file_diff(contents),
            hash,
            params(),
            &options,
            &mut cache,
        )
    };
    assert!(show(&mut component, "a.rs", &["1", "2", "3"], 1).request.is_none());
    component.selection = Selection::Multiple(2, 1);
    component.scroll.top = 1;
    assert!(!show(&mut component, "a.rs", &["1", "2", "3", "4"], 2).scroll_to_top);
    assert_eq!(component.selection, Selection::Single(2));
    assert_eq!(component.scroll.top, 1);
    show(&mut component, "a.rs", &["1"], 3);
    assert_eq!(component.selection, Selection::Single(0));
    component.selection = Selection::Single(0);
    assert!(show(&mut component, "b.rs", &["1", "2"], 3).scroll_to_top);
    assert_eq!(component.selection, Selection::Single(0));
    assert_eq!(component.scroll.top, 0);
}

#[test]
fn news_about_other_things_changes_nothing() {
    let mut component = themed();
    let mut cache = HighlightedDiffCache::new();
    component.syntax_progress = Some(ProgressPercent { progress: 3 });
    assert_eq!(component.update_async(SyntaxNotification::Other, &mut cache), None);
    assert_eq!(component.syntax_progress, Some(ProgressPercent { progress: 3 }));
    assert_eq!(component.update_async(SyntaxNotification::Done(None), &mut cache), None);
    assert_eq!(component.syntax_progress, None);
}

#[test]
fn columns_are_left_only_while_nothing_is_seen() {
    assert_eq!(columns_left(5, "", 3), 2);
    assert_eq!(columns_left(2, "", 3), 0);
    assert_eq!(columns_left(5, "x", 3), 0);
}

#[test]
fn suffixes_fill_what_is_not_taken() {
    assert_eq!(line_suffix(5, 2, 6, true, false), "   ");
    assert_eq!(line_suffix(5, 9, 2, true, true), "  \n");
    assert_eq!(line_suffix(9, 0, 6, true, true), "\n");
    assert_eq!(line_suffix(1, 0, 6, false, false), "");
}

#[test]
fn visible_pieces_are_styled_or_marked() {
    let theme = Theme { delete_background: Some(Color::Red), ..Theme::default() };
    assert_eq!(
        draw_pieces(&vec![piece("a", Color::Blue)], DiffLineType::Delete, false, &theme),
        vec![Span::styled(
            String::from("a"),
            Style { bg: Some(Color::Red), ..fg(Color::Blue) }
        )]
    );
    assert_eq!(
        draw_pieces(&vec![], DiffLineType::Delete, false, &theme),
        vec![Span::styled(String::from("¶"), Style::default())]
    );
    assert_eq!(draw_pieces(&vec![], DiffLineType::Context, false, &theme), vec![]);
}

#[test]
fn the_error_of_the_old_version_wins() {
    let failed = |message: &str| Some(Err(String::from(message)));
    let file = || Some(Ok(file_of(&["x"])));
    assert_eq!(highlighted_diff(key(1), failed("a"), failed("b")), Err(String::from("a")));
    assert_eq!(highlighted_diff(key(1), failed("a"), file()), Err(String::from("a")));
    assert_eq!(highlighted_diff(key(1), file(), failed("b")), Err(String::from("b")));
    let diff = highlighted_diff(key(1), file(), file()).unwrap();
    assert!(diff.is_ready() && diff.old.is_some() && diff.new.is_some());
    let diff = highlighted_diff(key(1), file(), None).unwrap();
    assert!(diff.old.is_some() && diff.new.is_none());
}

#[test]
fn scrolled_spans_are_what_the_line_ends_in() {
    let spans = vec![piece("ab", Color::Red), piece("", Color::White), piece("cd", Color::Green)];
    let whole = spans_to_line_content(&spans);
    for columns in 0..6 {
        let out = trim_highlighted_spans(&spans, columns);
        assert!(whole.ends_with(&spans_to_line_content(&out)));
        assert!(out.iter().all(|span| !span.content.is_empty()));
    }
    assert_eq!(
        trim_highlighted_spans(&spans, 0),
        vec![piece("ab", Color::Red), piece("cd", Color::Green)]
    );
    assert_eq!(
        trim_highlighted_spans(&[piece("ab", Color::Red), piece("cd", Color::Green)], 3),
        vec![piece("d", Color::Green)]
    );
}

#[test]
fn a_later_span_loses_a_leading_cluster_without_width() {
    let spans = vec![piece("ab", Color::Red), piece("\u{200b}cd", Color::Green)];
    assert_eq!(
        trim_highlighted_spans(&spans, 0),
        vec![piece("ab", Color::Red), piece("cd", Color::Green)]
    );
}
