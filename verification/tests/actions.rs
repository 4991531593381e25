use gitdiff::components::diff::{DiffComponent, ScrollType};
use gitdiff::components::diff_actions::{
    editor_line_for_line, editor_line_for_raw_indices, editor_line_near_raw_index,
};
use gitdiff::components::diff_commands::{
    Command, CommandBlocking, CommandInfo, Event, EventState, KeyAction, KeyMatches,
};
use gitdiff::components::diff_display::{raw_diff_lines, DiffViewMode};
use gitdiff::components::selection::{Direction, Selection};
use gitdiff::model::{DiffLine, DiffLinePosition, DiffLineType, DiffOptions, FileDiff, Hunk};
use gitdiff::options::Options;
use gitdiff::queue::{
    Action, Effect, ExternalEditorOpen, HorizontalScrollType, InternalEvent, NeedsUpdate, ResetItem,
};
use gitdiff::ui::style::Theme;

const ALL: NeedsUpdate = NeedsUpdate { all: true, diff: false, commands: false };

fn no_key() -> KeyMatches {
    KeyMatches {
        move_down: false,
        shift_down: false,
        shift_up: false,
        end: false,
        home: false,
        move_up: false,
        page_up: false,
        page_down: false,
        move_right: false,
        move_left: false,
        diff_hunk_next: false,
        diff_hunk_prev: false,
        diff_toggle_view_mode: false,
        diff_context_increase: false,
        diff_context_decrease: false,
        edit_file: false,
        stage_unstage_item: false,
        status_reset_item: false,
        diff_stage_lines: false,
        diff_reset_lines: false,
        copy: false,
    }
}

fn line(
    content: &str,
    line_type: DiffLineType,
    old_lineno: Option<u32>,
    new_lineno: Option<u32>,
) -> DiffLine {
    DiffLine {
        content: content.into(),
        line_type,
        position: DiffLinePosition { old_lineno, new_lineno },
    }
}

fn two_hunks() -> FileDiff {
    let hunks = vec![
        vec![
            line("@@ -1 +1 @@", DiffLineType::Header, None, None),
            line("same\n", DiffLineType::Context, Some(1), Some(1)),
            line("old\n", DiffLineType::Delete, Some(2), None),
            line("new\n", DiffLineType::Add, None, Some(2)),
        ],
        vec![
            line("@@ -9 +9 @@", DiffLineType::Header, None, None),
            line("gone\n", DiffLineType::Delete, Some(9), None),
        ],
    ];
    FileDiff {
        lines: 6,
        hunks: hunks
            .into_iter()
            .enumerate()
            .map(|(i, lines)| Hunk { header_hash: 100 + i as u64, lines })
            .collect(),
        untracked: false,
        sizes: (0, 0),
        size_delta: 0,
    }
}

fn focused() -> DiffComponent {
    let mut component = DiffComponent::new(Theme::default(), false);
    component.focus(true);
    component.current.path = String::from("a.rs");
    component.current_size = (80, 3);
    component.diff = Some(two_hunks());
    component.update_selection(0);
    component
}

fn press(component: &mut DiffComponent, keys: KeyMatches) -> Option<Effect> {
    let mut options = Options::new(None);
    let outcome = component.event(&Event::Key(keys), &mut options);
    assert_eq!(outcome.state, EventState::Consumed);
    outcome.effect
}

#[test]
fn moving_selects_a_line_and_its_hunk() {
    let mut component = focused();
    assert_eq!(component.selected_hunk, Some(0));
    assert_eq!(press(&mut component, KeyMatches { move_down: true, ..no_key() }), None);
    assert_eq!(component.selection, Selection::Single(1));
    press(&mut component, KeyMatches { end: true, ..no_key() });
    assert_eq!(component.selection, Selection::Single(5));
    assert_eq!(component.selected_hunk, Some(1));
    press(&mut component, KeyMatches { move_down: true, ..no_key() });
    assert_eq!(component.selection, Selection::Single(5));
    press(&mut component, KeyMatches { page_up: true, ..no_key() });
    assert_eq!(component.selection, Selection::Single(3));
    press(&mut component, KeyMatches { page_down: true, ..no_key() });
    assert_eq!(component.selection, Selection::Single(5));
    press(&mut component, KeyMatches { move_up: true, ..no_key() });
    assert_eq!(component.selection, Selection::Single(4));
    press(&mut component, KeyMatches { home: true, ..no_key() });
    assert_eq!(component.selection, Selection::Single(0));
    press(&mut component, KeyMatches { move_up: true, ..no_key() });
    assert_eq!(component.selection, Selection::Single(0));
}

#[test]
fn extending_moves_the_end_of_the_selection() {
    let mut component = focused();
    component.move_selection(ScrollType::Down);
    press(&mut component, KeyMatches { shift_down: true, ..no_key() });
    assert_eq!(component.selection, Selection::Multiple(1, 2));
    component.modify_selection(Direction::Up);
    component.modify_selection(Direction::Up);
    assert_eq!(component.selection, Selection::Multiple(1, 0));
    press(&mut component, KeyMatches { shift_up: true, ..no_key() });
    assert_eq!(component.selection, Selection::Multiple(1, 0));
    assert_eq!(component.selection.get_top(), 0);
    assert_eq!(component.selection.get_bottom(), 1);
    assert_eq!(component.selection.get_start(), 1);
    assert!(component.selection.contains(0) && component.selection.contains(1));
    assert!(!component.selection.contains(2));
}

#[test]
fn horizontal_keys_ask_for_scrolling() {
    let mut component = focused();
    assert_eq!(
        press(&mut component, KeyMatches { move_right: true, ..no_key() }),
        Some(Effect::ScrollHorizontally(HorizontalScrollType::Right))
    );
    assert_eq!(
        press(&mut component, KeyMatches { move_left: true, ..no_key() }),
        Some(Effect::ScrollHorizontally(HorizontalScrollType::Left))
    );
}

#[test]
fn hunk_keys_step_to_the_neighbouring_hunk() {
    let mut component = focused();
    assert_eq!(
        press(&mut component, KeyMatches { diff_hunk_next: true, ..no_key() }),
        Some(Effect::ScrollToVisible { height: 3, start: 4, end: 6 })
    );
    assert_eq!(component.selected_hunk, Some(1));
    assert_eq!(component.selection, Selection::Single(4));
    assert_eq!(press(&mut component, KeyMatches { diff_hunk_next: true, ..no_key() }), None);
    assert_eq!(
        press(&mut component, KeyMatches { diff_hunk_prev: true, ..no_key() }),
        Some(Effect::ScrollToVisible { height: 3, start: 0, end: 4 })
    );
    assert_eq!(component.selected_hunk, Some(0));
    assert_eq!(press(&mut component, KeyMatches { diff_hunk_prev: true, ..no_key() }), None);
}

#[test]
fn hunk_targets_stay_within_the_diff() {
    let mut component = focused();
    assert_eq!(component.calc_hunk_move_target(isize::MAX), Some(1));
    assert_eq!(component.calc_hunk_move_target(isize::MIN), Some(0));
    component.selected_hunk = None;
    assert_eq!(component.calc_hunk_move_target(1), Some(0));
    component.clear(false);
    assert_eq!(component.calc_hunk_move_target(1), None);
    assert_eq!(component.diff_hunk_move_up_down(1), None);
}

#[test]
fn toggling_twice_comes_back_to_the_hunk() {
    let mut component = focused();
    component.update_selection(5);
    assert_eq!(
        press(&mut component, KeyMatches { diff_toggle_view_mode: true, ..no_key() }),
        Some(Effect::ScrollToVisible { height: 3, start: 3, end: 3 })
    );
    assert_eq!(component.view_mode, DiffViewMode::SideBySide);
    assert_eq!(component.selection, Selection::Single(3));
    assert_eq!(component.selected_hunk, Some(1));
    component.toggle_view_mode();
    assert_eq!(component.view_mode, DiffViewMode::Unified);
    assert_eq!(component.selection, Selection::Single(4));
    assert_eq!(component.selected_hunk, Some(1));
}

#[test]
fn an_unfocused_component_ignores_keys() {
    let mut component = focused();
    component.focus(false);
    let mut options = Options::new(None);
    let keys = KeyMatches { move_down: true, diff_context_increase: true, ..no_key() };
    let outcome = component.event(&Event::Key(keys), &mut options);
    assert_eq!(outcome.state, EventState::NotConsumed);
    assert_eq!(outcome.effect, None);
    assert_eq!(component.selection, Selection::Single(0));
    assert_eq!(options.diff_options().context, 1);
}

#[test]
fn other_events_and_unbound_keys_are_passed_on() {
    let mut component = focused();
    let mut options = Options::new(None);
    assert_eq!(component.event(&Event::Other, &mut options).state, EventState::NotConsumed);
    assert_eq!(
        component.event(&Event::Key(no_key()), &mut options).state,
        EventState::NotConsumed
    );
}

#[test]
fn bindings_are_tried_in_order() {
    let component = focused();
    let keys = KeyMatches { move_down: true, copy: true, ..no_key() };
    assert_eq!(component.key_action(&keys), Some(KeyAction::Move(ScrollType::Down)));
    let mut immutable = focused();
    immutable.is_immutable = true;
    let keys = KeyMatches { stage_unstage_item: true, copy: true, ..no_key() };
    assert_eq!(immutable.key_action(&keys), Some(KeyAction::Copy));
    let mut nameless = focused();
    nameless.current.path = String::new();
    assert_eq!(nameless.key_action(&KeyMatches { edit_file: true, ..no_key() }), None);
    let mut staged = focused();
    staged.current.is_stage = true;
    let keys = KeyMatches { status_reset_item: true, diff_reset_lines: true, ..no_key() };
    assert_eq!(staged.key_action(&keys), None);
}

#[test]
fn staging_a_hunk_names_it_by_its_hash() {
    let mut component = focused();
    component.update_selection(5);
    let mut options = Options::new(None);
    options.diff_toggle_whitespace();
    let keys = Event::Key(KeyMatches { stage_unstage_item: true, ..no_key() });
    let expected = DiffOptions { ignore_whitespace: true, context: 1, interhunk_lines: 0 };
    assert_eq!(
        component.event(&keys, &mut options).effect,
        Some(Effect::StageHunk { path: String::from("a.rs"), hash: 101, options: expected })
    );
    component.current.is_stage = true;
    assert_eq!(
        component.event(&keys, &mut options).effect,
        Some(Effect::UnstageHunk { path: String::from("a.rs"), hash: 101, options: expected })
    );
    component.current.is_stage = false;
    component.diff.as_mut().unwrap().untracked = true;
    assert_eq!(
        component.event(&keys, &mut options).effect,
        Some(Effect::StageFile { path: String::from("a.rs") })
    );
    component.selected_hunk = None;
    assert_eq!(component.event(&keys, &mut options).effect, None);
}

#[test]
fn resetting_asks_for_confirmation() {
    let mut component = focused();
    let confirm = |action| Some(Effect::Push(InternalEvent::ConfirmAction(action)));
    let keys = KeyMatches { status_reset_item: true, ..no_key() };
    assert_eq!(
        press(&mut component, keys),
        confirm(Action::ResetHunk(String::from("a.rs"), 100))
    );
    component.selection = Selection::Multiple(1, 2);
    let lines = KeyMatches { diff_reset_lines: true, ..no_key() };
    assert_eq!(
        press(&mut component, lines),
        confirm(Action::ResetLines(
            String::from("a.rs"),
            vec![DiffLinePosition { old_lineno: Some(2), new_lineno: None }]
        ))
    );
    component.diff.as_mut().unwrap().untracked = true;
    assert_eq!(
        press(&mut component, keys),
        confirm(Action::Reset(ResetItem { path: String::from("a.rs") }))
    );
    assert_eq!(press(&mut component, lines), None);
}

#[test]
fn staging_lines_hands_over_the_changed_ones() {
    let mut component = focused();
    component.selection = Selection::Multiple(5, 2);
    let keys = KeyMatches { diff_stage_lines: true, ..no_key() };
    assert_eq!(
        press(&mut component, keys),
        Some(Effect::StageLines {
            path: String::from("a.rs"),
            is_stage: false,
            lines: vec![
                DiffLinePosition { old_lineno: Some(2), new_lineno: None },
                DiffLinePosition { old_lineno: None, new_lineno: Some(2) },
                DiffLinePosition { old_lineno: Some(9), new_lineno: None },
            ],
        })
    );
    component.diff.as_mut().unwrap().untracked = true;
    assert_eq!(press(&mut component, keys), None);
}

#[test]
fn with_everything_selected_both_views_hand_over_the_same_lines() {
    let mut component = focused();
    component.selection = Selection::Multiple(0, 5);
    let unified = component.selected_lines();
    component.view_mode = DiffViewMode::SideBySide;
    component.selection = Selection::Multiple(0, 4);
    let side_by_side = component.selected_lines();
    assert_eq!(unified.len(), 3);
    assert_eq!(side_by_side.len(), 3);
    for position in unified {
        assert!(side_by_side.contains(&position));
    }
}

#[test]
fn copying_joins_the_selected_lines() {
    let mut component = focused();
    component.selection = Selection::Multiple(1, 3);
    let keys = KeyMatches { copy: true, ..no_key() };
    assert_eq!(
        press(&mut component, keys),
        Some(Effect::CopyToClipboard(String::from("same\nold\nnew")))
    );
    component.selection = Selection::Single(2);
    assert_eq!(
        press(&mut component, keys),
        Some(Effect::CopyToClipboard(String::from("old")))
    );
    component.view_mode = DiffViewMode::SideBySide;
    component.selection = Selection::Multiple(1, 2);
    assert_eq!(
        press(&mut component, keys),
        Some(Effect::CopyToClipboard(String::from("same\tsame\nold\tnew")))
    );
    component.selection = Selection::Single(77);
    assert_eq!(
        press(&mut component, keys),
        Some(Effect::CopyToClipboard(String::new()))
    );
    component.clear(false);
    assert_eq!(press(&mut component, keys), None);
}

#[test]
fn the_editor_is_opened_at_the_nearest_numbered_line() {
    let diff = two_hunks();
    let lines = raw_diff_lines(&diff);
    assert_eq!(editor_line_for_line(lines[1]), Some(1));
    assert_eq!(editor_line_for_line(lines[2]), Some(2));
    assert_eq!(editor_line_for_line(lines[0]), None);
    assert_eq!(editor_line_for_raw_indices(&lines, &vec![2, 3]), Some(2));
    assert_eq!(editor_line_for_raw_indices(&lines, &vec![5]), Some(9));
    assert_eq!(editor_line_for_raw_indices(&lines, &vec![5, 77]), None);
    assert_eq!(editor_line_near_raw_index(&lines, 4), Some(9));
    assert_eq!(editor_line_near_raw_index(&lines, 77), Some(9));
    let header = line("@@", DiffLineType::Header, None, None);
    let first = line("x", DiffLineType::Context, Some(3), Some(4));
    assert_eq!(editor_line_near_raw_index(&vec![&first, &header], 1), Some(4));
    assert_eq!(editor_line_near_raw_index(&vec![&header], 0), None);
}

#[test]
fn the_editor_prefers_the_new_side_of_a_row() {
    let mut component = focused();
    component.view_mode = DiffViewMode::SideBySide;
    component.selection = Selection::Single(2);
    assert_eq!(component.selected_editor_line(), Some(2));
    component.selection = Selection::Single(4);
    assert_eq!(component.selected_editor_line(), Some(9));
    component.selection = Selection::Single(3);
    assert_eq!(component.selected_editor_line(), Some(9));
    component.selection = Selection::Single(5);
    assert_eq!(component.selected_editor_line(), None);
    component.view_mode = DiffViewMode::Unified;
    component.selection = Selection::Single(5);
    assert_eq!(
        press(&mut component, KeyMatches { edit_file: true, ..no_key() }),
        Some(Effect::Push(InternalEvent::OpenExternalEditor(Some(ExternalEditorOpen {
            path: String::from("a.rs"),
            line: Some(9),
        }))))
    );
}

#[test]
fn failures_are_shown_and_successes_drawn() {
    let error = |context: &str| InternalEvent::ShowErrorMsg {
        context: String::from(context),
        error: String::from("locked"),
    };
    let failed = || Err(String::from("locked"));
    assert_eq!(DiffComponent::hunk_staged(Ok(())), InternalEvent::Update(ALL));
    assert_eq!(DiffComponent::hunk_staged(failed()), error("hunk error:"));
    assert_eq!(DiffComponent::lines_staged(Ok(())), vec![InternalEvent::Update(ALL)]);
    assert_eq!(
        DiffComponent::lines_staged(failed()),
        vec![error("(un)stage lines:"), InternalEvent::Update(ALL)]
    );
    assert_eq!(DiffComponent::text_copied(Ok(())), None);
    assert_eq!(DiffComponent::text_copied(failed()), Some(error("copy to clipboard error:")));
}

#[test]
fn a_mutable_component_offers_all_commands() {
    let component = focused();
    let mut out = vec![CommandInfo::new(Command::Scroll, false, false)];
    let blocking = component.commands(&Options::new(None), &mut out);
    assert_eq!(blocking, CommandBlocking::PassingOn);
    assert_eq!(
        out,
        vec![
            CommandInfo::new(Command::Scroll, false, false),
            CommandInfo::new(Command::Scroll, true, true),
            CommandInfo::new(Command::HunkNext, true, true),
            CommandInfo::new(Command::HunkPrev, false, true),
            CommandInfo::new(Command::ToggleViewMode, true, true),
            CommandInfo::new(Command::ContextIncrease, true, true),
            CommandInfo::new(Command::ContextDecrease, true, true),
            CommandInfo::new(Command::HomeEnd, true, true).hidden(),
            CommandInfo::new(Command::EditItem, true, true),
            CommandInfo::new(Command::HunkRemove, true, false),
            CommandInfo::new(Command::HunkAdd, true, true),
            CommandInfo::new(Command::HunkRevert, true, true),
            CommandInfo::new(Command::LinesRevert, true, true),
            CommandInfo::new(Command::LinesStage, true, true),
            CommandInfo::new(Command::LinesUnstage, true, false),
            CommandInfo::new(Command::Copy, true, true),
        ]
    );
}

#[test]
fn an_immutable_component_offers_nothing_that_changes_the_index() {
    let component = DiffComponent::new(Theme::default(), true);
    let mut options = Options::new(None);
    options.diff_context_change(false);
    let mut out = vec![];
    component.commands(&options, &mut out);
    assert_eq!(
        out,
        vec![
            CommandInfo::new(Command::Scroll, false, false),
            CommandInfo::new(Command::HunkNext, false, false),
            CommandInfo::new(Command::HunkPrev, false, false),
            CommandInfo::new(Command::ToggleViewMode, false, false),
            CommandInfo::new(Command::ContextIncrease, false, false),
            CommandInfo::new(Command::ContextDecrease, false, false),
            CommandInfo::new(Command::HomeEnd, false, false).hidden(),
            CommandInfo::new(Command::EditItem, false, false),
            CommandInfo::new(Command::Copy, true, false),
        ]
    );
}

fn keys_that_change_the_repository() -> Vec<KeyMatches> {
    vec![
        KeyMatches { stage_unstage_item: true, ..no_key() },
        KeyMatches { status_reset_item: true, ..no_key() },
        KeyMatches { diff_stage_lines: true, ..no_key() },
        KeyMatches { diff_reset_lines: true, ..no_key() },
    ]
}

#[test]
fn an_immutable_component_never_changes_the_repository() {
    let mut component = focused();
    component.is_immutable = true;
    let mut options = Options::new(None);
    for keys in keys_that_change_the_repository() {
        let outcome = component.event(&Event::Key(keys), &mut options);
        assert_eq!(outcome.state, EventState::NotConsumed);
        assert_eq!(outcome.effect, None);
    }
}

#[test]
fn staged_changes_are_only_moved_out_of_the_index() {
    let mut component = focused();
    component.current.is_stage = true;
    component.selection = Selection::Single(2);
    let mut options = Options::new(None);
    let effects: Vec<Option<Effect>> = keys_that_change_the_repository()
        .into_iter()
        .map(|keys| component.event(&Event::Key(keys), &mut options).effect)
        .collect();
    assert!(matches!(effects[0], Some(Effect::UnstageHunk { hash: 100, .. })));
    assert_eq!(effects[1], None);
    assert!(matches!(effects[2], Some(Effect::StageLines { is_stage: true, .. })));
    assert_eq!(effects[3], None);
}

#[test]
fn an_ordinary_diff_fits() {
    assert!(two_hunks().line_count_fits());
}

#[test]
fn only_a_change_of_context_asks_for_options_to_be_saved() {
    let mut component = focused();
    let mut options = Options::new(None);
    let keys = KeyMatches { diff_context_decrease: true, ..no_key() };
    assert!(component.event(&Event::Key(keys), &mut options).save_options);
    assert!(component.event(&Event::Key(keys), &mut options).save_options);
    let keys = KeyMatches { move_down: true, ..no_key() };
    assert!(!component.event(&Event::Key(keys), &mut options).save_options);
    component.focus(false);
    let keys = KeyMatches { diff_context_increase: true, ..no_key() };
    assert!(!component.event(&Event::Key(keys), &mut options).save_options);
}
