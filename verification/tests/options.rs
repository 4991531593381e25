use gitdiff::model::{DiffOptions, ShowUntrackedFilesConfig};
use gitdiff::options::{COMMIT_MSG_HISTORY_LENGTH, Options, OptionsData};

#[test]
fn options_start_with_their_defaults() {
    let options = Options::new(None);
    assert_eq!(options.current_tab(), 0);
    assert_eq!(
        options.diff_options(),
        DiffOptions { ignore_whitespace: false, context: 1, interhunk_lines: 0 }
    );
    assert_eq!(options.status_show_untracked(), None);
    assert!(options.diff_syntax_highlight());
    assert_eq!(options.diff_syntax_max_file_bytes(), 524_288);
    assert_eq!(options.diff_syntax_max_file_lines(), 10_000);
    assert!(!options.has_commit_msg_history());
    assert_eq!(options.commit_msg(0), None);
}

#[test]
fn stored_options_are_taken_over() {
    let options = Options::new(Some(OptionsData { tab: 3, ..OptionsData::default() }));
    assert_eq!(options.current_tab(), 3);
}

#[test]
fn options_can_be_set() {
    let mut options = Options::new(None);
    options.set_current_tab(2);
    options.set_status_show_untracked(Some(ShowUntrackedFilesConfig::Normal));
    assert_eq!(options.current_tab(), 2);
    assert_eq!(options.status_show_untracked(), Some(ShowUntrackedFilesConfig::Normal));
}

#[test]
fn counters_stay_within_their_range() {
    let mut options = Options::new(None);
    options.diff_context_change(false);
    options.diff_context_change(false);
    assert_eq!(options.diff_options().context, 0);
    options.diff_hunk_lines_change(false);
    assert_eq!(options.diff_options().interhunk_lines, 0);
    options.data.diff.context = u32::MAX;
    options.diff_context_change(true);
    assert_eq!(options.diff_options().context, u32::MAX);
}

#[test]
fn a_step_up_and_a_step_down_cancel_out() {
    let mut options = Options::new(None);
    options.diff_hunk_lines_change(true);
    assert_eq!(options.diff_options().interhunk_lines, 1);
    options.diff_hunk_lines_change(false);
    options.diff_context_change(true);
    options.diff_context_change(false);
    options.diff_toggle_whitespace();
    assert!(options.diff_options().ignore_whitespace);
    options.diff_toggle_whitespace();
    assert_eq!(options.diff_options(), DiffOptions::default());
}

#[test]
fn messages_are_counted_back_from_the_latest() {
    let mut options = Options::new(None);
    options.add_commit_msg("one");
    options.add_commit_msg("two");
    options.add_commit_msg("three");
    assert!(options.has_commit_msg_history());
    assert_eq!(options.commit_msg(0).as_deref(), Some("three"));
    assert_eq!(options.commit_msg(2).as_deref(), Some("one"));
    assert_eq!(options.commit_msg(3).as_deref(), Some("three"));
    assert_eq!(options.commit_msg(usize::MAX).as_deref(), Some("three"));
}

#[test]
fn the_history_forgets_its_oldest_messages() {
    let mut options = Options::new(None);
    for i in 0..25 {
        options.add_commit_msg(&format!("{i}"));
    }
    assert_eq!(options.data.commit_msgs.len(), COMMIT_MSG_HISTORY_LENGTH);
    assert_eq!(options.commit_msg(0).as_deref(), Some("24"));
    assert_eq!(options.commit_msg(19).as_deref(), Some("5"));
    assert_eq!(options.commit_msg(20).as_deref(), Some("24"));
}
