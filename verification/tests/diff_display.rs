use gitdiff::components::diff_display::{
    build_side_by_side_lines, side_by_side_copy_line, side_by_side_hunk_range,
    side_by_side_selected_positions, SideBySideDisplayLine, SideBySideLine, SideCell,
};
use gitdiff::components::selection::Selection;
use gitdiff::model::{DiffLine, DiffLinePosition, DiffLineType, FileDiff, Hunk};

fn test_diff_line(
    content: &str,
    line_type: DiffLineType,
    old_lineno: Option<u32>,
    new_lineno: Option<u32>,
) -> DiffLine {
    DiffLine {
        content: content.into(),
        line_type,
        position: DiffLinePosition { old_lineno, new_lineno },
    }
}

fn test_file_diff_hunks(hunks: Vec<Vec<DiffLine>>) -> FileDiff {
    let lines = hunks.iter().map(Vec::len).sum();
    FileDiff {
        lines,
        hunks: hunks
            .into_iter()
            .enumerate()
            .map(|(i, lines)| Hunk { header_hash: i as u64, lines })
            .collect(),
        untracked: false,
        sizes: (0, 0),
        size_delta: 0,
    }
}

fn test_file_diff(lines: Vec<DiffLine>) -> FileDiff {
    test_file_diff_hunks(vec![lines])
}

fn assert_side_rows(diff: &FileDiff, expected: &[(Option<&str>, Option<&str>)]) {
    let display_lines = build_side_by_side_lines(diff);
    assert_eq!(display_lines.len(), expected.len());

    for (line, (expected_left, expected_right)) in display_lines.iter().zip(expected) {
        let SideBySideDisplayLine::Row(row) = line else {
            panic!("expected side-by-side row");
        };

        assert_eq!(row.left.map(|cell| cell.line.content.as_str()), *expected_left);
        assert_eq!(row.right.map(|cell| cell.line.content.as_str()), *expected_right);
    }
}

#[test]
fn side_by_side_context_lines_render_on_both_sides() {
    let diff = test_file_diff(vec![
        test_diff_line("foo", DiffLineType::Context, Some(1), Some(1)),
        test_diff_line("bar", DiffLineType::Context, Some(2), Some(2)),
    ]);

    assert_side_rows(&diff, &[(Some("foo"), Some("foo")), (Some("bar"), Some("bar"))]);
}

#[test]
fn side_by_side_add_only_renders_on_right() {
    let diff = test_file_diff(vec![
        test_diff_line("foo", DiffLineType::Add, None, Some(1)),
        test_diff_line("bar", DiffLineType::Add, None, Some(2)),
    ]);

    assert_side_rows(&diff, &[(None, Some("foo")), (None, Some("bar"))]);
}

#[test]
fn side_by_side_delete_only_renders_on_left() {
    let diff = test_file_diff(vec![
        test_diff_line("foo", DiffLineType::Delete, Some(1), None),
        test_diff_line("bar", DiffLineType::Delete, Some(2), None),
    ]);

    assert_side_rows(&diff, &[(Some("foo"), None), (Some("bar"), None)]);
}

#[test]
fn side_by_side_pairs_one_to_one_replacement() {
    let diff = test_file_diff(vec![
        test_diff_line("foo", DiffLineType::Delete, Some(1), None),
        test_diff_line("bar", DiffLineType::Add, None, Some(1)),
    ]);

    assert_side_rows(&diff, &[(Some("foo"), Some("bar"))]);
}

#[test]
fn side_by_side_pairs_many_to_one_replacement() {
    let diff = test_file_diff(vec![
        test_diff_line("foo", DiffLineType::Delete, Some(1), None),
        test_diff_line("bar", DiffLineType::Delete, Some(2), None),
        test_diff_line("baz", DiffLineType::Add, None, Some(1)),
    ]);

    assert_side_rows(&diff, &[(Some("foo"), Some("baz")), (Some("bar"), None)]);
}

#[test]
fn side_by_side_pairs_one_to_many_replacement() {
    let diff = test_file_diff(vec![
        test_diff_line("foo", DiffLineType::Delete, Some(1), None),
        test_diff_line("bar", DiffLineType::Add, None, Some(1)),
        test_diff_line("baz", DiffLineType::Add, None, Some(2)),
    ]);

    assert_side_rows(&diff, &[(Some("foo"), Some("bar")), (None, Some("baz"))]);
}

#[test]
fn side_by_side_keeps_hunk_headers_full_width() {
    let diff = test_file_diff(vec![
        test_diff_line("@@ -1,2 +1,2 @@", DiffLineType::Header, None, None),
        test_diff_line("foo", DiffLineType::Delete, Some(1), None),
        test_diff_line("bar", DiffLineType::Add, None, Some(1)),
    ]);

    let display_lines = build_side_by_side_lines(&diff);
    assert!(matches!(display_lines.first(), Some(SideBySideDisplayLine::Header { .. })));
    assert_eq!(display_lines[1].raw_diff_indices(), vec![1, 2]);
}

fn two_hunks() -> FileDiff {
    test_file_diff_hunks(vec![
        vec![
            test_diff_line("@@ -1 +1 @@", DiffLineType::Header, None, None),
            test_diff_line("same\n", DiffLineType::Context, Some(1), Some(1)),
            test_diff_line("old one\r\n", DiffLineType::Delete, Some(2), None),
            test_diff_line("old two\n", DiffLineType::Delete, Some(3), None),
            test_diff_line("new one\n", DiffLineType::Add, None, Some(2)),
        ],
        vec![
            test_diff_line("@@ -5 +5 @@", DiffLineType::Header, None, None),
            test_diff_line("next\n", DiffLineType::Add, None, Some(5)),
        ],
    ])
}

#[test]
fn every_line_has_one_display_line_in_order() {
    let diff = two_hunks();
    let lines = build_side_by_side_lines(&diff);
    let indices: Vec<Vec<usize>> = lines.iter().map(|line| line.raw_diff_indices()).collect();
    assert_eq!(indices, vec![vec![0], vec![1, 1], vec![2, 4], vec![3], vec![5], vec![6]]);
    let hunks: Vec<Option<usize>> = lines.iter().map(|line| line.hunk_index()).collect();
    assert_eq!(hunks, vec![Some(0), Some(0), Some(0), Some(0), Some(1), Some(1)]);
    assert!(lines.len() <= diff.lines);
}

#[test]
fn an_addition_before_a_deletion_keeps_its_own_row() {
    let diff = test_file_diff(vec![
        test_diff_line("new", DiffLineType::Add, None, Some(1)),
        test_diff_line("old", DiffLineType::Delete, Some(1), None),
    ]);

    assert_side_rows(&diff, &[(None, Some("new")), (Some("old"), None)]);
}

#[test]
fn hunk_ranges_follow_each_other() {
    let diff = two_hunks();
    assert_eq!(side_by_side_hunk_range(&diff, 0), Some((0, 4)));
    assert_eq!(side_by_side_hunk_range(&diff, 1), Some((4, 6)));
    assert_eq!(side_by_side_hunk_range(&diff, 2), None);
}

#[test]
fn a_hunk_without_lines_has_no_range() {
    let diff = test_file_diff_hunks(vec![
        vec![],
        vec![test_diff_line("x", DiffLineType::Add, None, Some(1))],
    ]);
    assert_eq!(side_by_side_hunk_range(&diff, 0), None);
    assert_eq!(side_by_side_hunk_range(&diff, 1), Some((0, 1)));
}

#[test]
fn copied_rows_join_both_sides_with_a_tab() {
    let diff = two_hunks();
    let lines = build_side_by_side_lines(&diff);
    assert_eq!(side_by_side_copy_line(&lines[0]), "@@ -1 +1 @@");
    assert_eq!(side_by_side_copy_line(&lines[1]), "same\tsame");
    assert_eq!(side_by_side_copy_line(&lines[2]), "old one\tnew one");
    assert_eq!(side_by_side_copy_line(&lines[3]), "old two\t");
    assert_eq!(side_by_side_copy_line(&lines[5]), "\tnext");
}

#[test]
fn selected_rows_stand_for_their_changed_lines() {
    let diff = two_hunks();
    assert_eq!(side_by_side_selected_positions(&diff, |i| i == 1), vec![]);
    assert_eq!(
        side_by_side_selected_positions(&diff, |i| Selection::Multiple(2, 1).contains(i)),
        vec![
            DiffLinePosition { old_lineno: Some(2), new_lineno: None },
            DiffLinePosition { old_lineno: None, new_lineno: Some(2) },
        ]
    );
}

#[test]
fn a_choice_need_not_be_a_run_of_lines() {
    let diff = two_hunks();
    assert_eq!(
        side_by_side_selected_positions(&diff, |i| i == 3 || i == 5),
        vec![
            DiffLinePosition { old_lineno: Some(3), new_lineno: None },
            DiffLinePosition { old_lineno: None, new_lineno: Some(5) },
        ]
    );
}

#[test]
fn all_rows_list_each_deletion_before_its_addition() {
    let deletion = |i| test_diff_line("d", DiffLineType::Delete, Some(i), None);
    let addition = |i| test_diff_line("a", DiffLineType::Add, None, Some(i));
    let diff = test_file_diff(vec![deletion(1), deletion(2), addition(1), addition(2)]);
    let old = |i| DiffLinePosition { old_lineno: Some(i), new_lineno: None };
    let new = |i| DiffLinePosition { old_lineno: None, new_lineno: Some(i) };
    assert_eq!(
        side_by_side_selected_positions(&diff, |_| true),
        vec![old(1), new(1), old(2), new(2)]
    );
}

#[test]
fn a_row_is_copied_by_the_lines_it_holds() {
    let left = test_diff_line("left\n", DiffLineType::Delete, Some(1), None);
    let row = SideBySideDisplayLine::Row(SideBySideLine {
        left: Some(SideCell { line: &left, raw_index: 77 }),
        right: None,
        raw_indices: vec![],
        hunk_index: None,
    });
    assert_eq!(side_by_side_copy_line(&row), "left\t");
}
