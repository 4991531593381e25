//! What keys and commands do: which work each asks for, and what it leaves alone.

use vstd::prelude::*;

use crate::components::diff::{DiffComponent, ScrollType};
use crate::components::diff_commands::{Command, CommandInfo, Event, KeyAction, KeyMatches};
use crate::components::selection::Direction;
use crate::model::DiffOptions;
use crate::options::{Options, OptionsData};
use crate::queue::{
    effect_view, ActionView, Effect, EffectView, EventView, HorizontalScrollType, NeedsUpdate,
};

verus! {

/// A key moves the selection or scrolls the view by the first binding that it
/// matches, whatever the component shows.
pub proof fn law_keys_move_first(component: DiffComponent, keys: KeyMatches)
    ensures
        ({
            let action = component.chosen_action(keys);
            let vertical = keys.move_down || keys.shift_down || keys.shift_up || keys.end
                || keys.home || keys.move_up || keys.page_up || keys.page_down;
            &&& keys.move_down ==> action == Some(KeyAction::Move(ScrollType::Down))
            &&& !keys.move_down && keys.shift_down ==> action == Some(
                KeyAction::Extend(Direction::Down),
            )
            &&& !keys.move_down && !keys.shift_down && keys.shift_up ==> action == Some(
                KeyAction::Extend(Direction::Up),
            )
            &&& !keys.move_down && !keys.shift_down && !keys.shift_up && keys.end ==> action
                == Some(KeyAction::Move(ScrollType::End))
            &&& !keys.move_down && !keys.shift_down && !keys.shift_up && !keys.end && keys.home
                ==> action == Some(KeyAction::Move(ScrollType::Home))
            &&& !keys.move_down && !keys.shift_down && !keys.shift_up && !keys.end && !keys.home
                && keys.move_up ==> action == Some(KeyAction::Move(ScrollType::Up))
            &&& !keys.move_down && !keys.shift_down && !keys.shift_up && !keys.end && !keys.home
                && !keys.move_up && keys.page_up ==> action == Some(
                KeyAction::Move(ScrollType::PageUp),
            )
            &&& !keys.move_down && !keys.shift_down && !keys.shift_up && !keys.end && !keys.home
                && !keys.move_up && !keys.page_up && keys.page_down ==> action == Some(
                KeyAction::Move(ScrollType::PageDown),
            )
            &&& !vertical && keys.move_right ==> action == Some(
                KeyAction::ScrollHorizontally(HorizontalScrollType::Right),
            )
            &&& !vertical && !keys.move_right && keys.move_left ==> action == Some(
                KeyAction::ScrollHorizontally(HorizontalScrollType::Left),
            )
        }),
{
}

/// The key matches no binding that moves or scrolls.
pub open spec fn moves_nothing(keys: KeyMatches) -> bool {
    !(keys.move_down || keys.shift_down || keys.shift_up || keys.end || keys.home || keys.move_up
        || keys.page_up || keys.page_down || keys.move_right || keys.move_left)
}

/// A key that moves nothing steps to another hunk, changes the view or opens the
/// editor. Only a path can be edited.
pub proof fn law_keys_change_the_view_next(component: DiffComponent, keys: KeyMatches)
    requires
        moves_nothing(keys),
    ensures
        ({
            let action = component.chosen_action(keys);
            let hunk = keys.diff_hunk_next || keys.diff_hunk_prev;
            let context = keys.diff_context_increase || keys.diff_context_decrease;
            &&& keys.diff_hunk_next ==> action == Some(KeyAction::MoveHunk { forward: true })
            &&& !keys.diff_hunk_next && keys.diff_hunk_prev ==> action == Some(
                KeyAction::MoveHunk { forward: false },
            )
            &&& !hunk && keys.diff_toggle_view_mode ==> action == Some(KeyAction::ToggleViewMode)
            &&& !hunk && !keys.diff_toggle_view_mode && keys.diff_context_increase ==> action
                == Some(KeyAction::ChangeContext { increase: true })
            &&& !hunk && !keys.diff_toggle_view_mode && !keys.diff_context_increase
                && keys.diff_context_decrease ==> action == Some(
                KeyAction::ChangeContext { increase: false },
            )
            &&& !hunk && !keys.diff_toggle_view_mode && !context && keys.edit_file
                && component.current.path@.len() > 0 ==> action == Some(KeyAction::EditFile)
        }),
{
}

/// The key also matches no binding that steps, changes the view or opens the
/// editor.
pub open spec fn leaves_view(component: DiffComponent, keys: KeyMatches) -> bool {
    &&& moves_nothing(keys)
    &&& !(keys.diff_hunk_next || keys.diff_hunk_prev || keys.diff_toggle_view_mode
        || keys.diff_context_increase || keys.diff_context_decrease)
    &&& !keys.edit_file || component.current.path@.len() == 0
}

/// A key that leaves the view alone works on the repository or copies. An immutable
/// component only copies, and staged changes are not reset.
pub proof fn law_keys_work_on_repository_last(component: DiffComponent, keys: KeyMatches)
    requires
        leaves_view(component, keys),
    ensures
        ({
            let action = component.chosen_action(keys);
            let mutable = !component.is_immutable;
            let staged = component.current.is_stage;
            let hunk = keys.stage_unstage_item && mutable;
            let reset = keys.status_reset_item && mutable && !staged;
            let lines = keys.diff_stage_lines && mutable;
            let reset_lines = keys.diff_reset_lines && mutable && !staged;
            &&& hunk ==> action == Some(KeyAction::StageHunk)
            &&& !hunk && reset ==> action == Some(KeyAction::ResetItem)
            &&& !hunk && !reset && lines ==> action == Some(KeyAction::StageLines)
            &&& !hunk && !reset && !lines && reset_lines ==> action == Some(KeyAction::ResetLines)
            &&& !hunk && !reset && !lines && !reset_lines && keys.copy ==> action == Some(
                KeyAction::Copy,
            )
            &&& !hunk && !reset && !lines && !reset_lines && !keys.copy ==> action is None
        }),
{
}

/// Only a key press on the focused component does anything, and it does what the
/// key does.
pub proof fn law_only_focused_keys_act(component: DiffComponent, keys: KeyMatches)
    ensures
        component.focused ==> component.event_action(Event::Key(keys)) == component.chosen_action(
            keys,
        ),
        !component.focused ==> component.event_action(Event::Key(keys)) is None,
        component.event_action(Event::Other) is None,
{
}

/// Moving a hunk names the file on show and the header of the selected hunk. A
/// staged hunk is taken out of the index; of another one that is put in, a new file
/// goes in as a whole. Without a diff or a selected hunk nothing is asked for.
pub proof fn law_selected_hunk_is_staged(component: DiffComponent, options: Options)
    ensures
        ({
            let effect = component.action_effect(KeyAction::StageHunk, options);
            if component.diff is Some && component.selected_hunk is Some {
                let path = component.current.path@;
                let hash = component.diff->0.hunks@[component.selected_hunk->0 as int].header_hash;
                &&& component.current.is_stage ==> effect == Some(
                    EffectView::UnstageHunk { path, hash, options: options.data.diff },
                )
                &&& !component.current.is_stage && component.diff->0.untracked ==> effect == Some(
                    EffectView::StageFile { path },
                )
                &&& !component.current.is_stage && !component.diff->0.untracked ==> effect == Some(
                    EffectView::StageHunk { path, hash, options: options.data.diff },
                )
            } else {
                effect is None
            }
        }),
{
}

/// Throwing changes away names the file on show: a new file as a whole, otherwise
/// the selected hunk by its header. The user is asked first.
pub proof fn law_selected_item_is_reset(component: DiffComponent, options: Options)
    ensures
        ({
            let effect = component.action_effect(KeyAction::ResetItem, options);
            let path = component.current.path@;
            &&& component.diff is None ==> effect is None
            &&& component.diff is Some && component.diff->0.untracked ==> effect == Some(
                EffectView::Push(EventView::ConfirmAction(ActionView::Reset { path })),
            )
            &&& component.diff is Some && !component.diff->0.untracked
                && component.selected_hunk is None ==> effect is None
            &&& component.diff is Some && !component.diff->0.untracked
                && component.selected_hunk is Some ==> effect == Some(
                EffectView::Push(
                    EventView::ConfirmAction(
                        ActionView::ResetHunk {
                            path,
                            hash: component.diff->0.hunks@[component.selected_hunk->0 as int].header_hash,
                        },
                    ),
                ),
            )
        }),
{
}

/// Moving or throwing away lines names the file on show and the changed lines that
/// the selection stands for. The lines of a new file are neither moved nor thrown
/// away one by one.
pub proof fn law_selected_lines_are_staged(component: DiffComponent, options: Options)
    ensures
        ({
            let path = component.current.path@;
            let lines = component.selected_positions();
            if component.diff is Some && !component.diff->0.untracked {
                &&& component.action_effect(KeyAction::StageLines, options) == Some(
                    EffectView::StageLines { path, is_stage: component.current.is_stage, lines },
                )
                &&& component.action_effect(KeyAction::ResetLines, options) == Some(
                    EffectView::Push(
                        EventView::ConfirmAction(ActionView::ResetLines { path, lines }),
                    ),
                )
            } else {
                &&& component.action_effect(KeyAction::StageLines, options) is None
                &&& component.action_effect(KeyAction::ResetLines, options) is None
            }
        }),
{
}

/// Copying asks for the selected text to be copied, editing for the file on show at
/// the line of the selection, scrolling for the view to be scrolled, and a change of
/// the context for the diff and the commands to be drawn anew. Moving asks for
/// nothing.
pub proof fn law_other_actions_ask_for_their_work(
    component: DiffComponent,
    options: Options,
    move_type: ScrollType,
    direction: Direction,
    to: HorizontalScrollType,
    increase: bool,
)
    ensures
        component.copied_text() matches Some(text) ==> component.action_effect(
            KeyAction::Copy,
            options,
        ) == Some(EffectView::CopyToClipboard(text)),
        component.copied_text() is None ==> component.action_effect(
            KeyAction::Copy,
            options,
        ) is None,
        component.action_effect(KeyAction::EditFile, options) == Some(
            EffectView::Push(
                EventView::OpenExternalEditor(
                    Some((component.current.path@, component.editor_target())),
                ),
            ),
        ),
        component.action_effect(KeyAction::ScrollHorizontally(to), options) == Some(
            EffectView::ScrollHorizontally(to),
        ),
        component.action_effect(KeyAction::ChangeContext { increase }, options) == Some(
            EffectView::Push(
                EventView::Update(NeedsUpdate { all: false, diff: true, commands: true }),
            ),
        ),
        component.action_effect(KeyAction::Move(move_type), options) is None,
        component.action_effect(KeyAction::Extend(direction), options) is None,
        component.action_effect(KeyAction::MoveHunk { forward: true }, options)
            == component.hunk_move_effect(1),
        component.action_effect(KeyAction::MoveHunk { forward: false }, options)
            == component.hunk_move_effect(-1),
        component.action_effect(KeyAction::ToggleViewMode, options) == component.toggle_effect(),
{
}

/// Only moving, stretching, stepping and switching the view change the component,
/// and only changing the context changes the options: by one line, in the direction
/// that was asked for.
pub proof fn law_actions_change_what_they_name(
    component: DiffComponent,
    options: Options,
    action: KeyAction,
)
    ensures
        match action {
            KeyAction::Move(move_type) => component.after_action(action) == component.selected(
                component.move_target(move_type),
            ),
            KeyAction::Extend(direction) => component.after_action(action)
                == component.with_modified_selection(direction),
            KeyAction::MoveHunk { forward } => {
                &&& forward ==> component.after_action(action) == component.moved_to_hunk(1)
                &&& !forward ==> component.after_action(action) == component.moved_to_hunk(-1)
            },
            KeyAction::ToggleViewMode => component.after_action(action) == component.toggled(),
            _ => component.after_action(action) == component,
        },
        !(action is ChangeContext) ==> DiffComponent::options_after(action, options) == options,
        action matches KeyAction::ChangeContext { increase } ==> {
            let after = DiffComponent::options_after(action, options);
            let before = options.data.diff.context;
            &&& after.data == (OptionsData {
                diff: DiffOptions { context: after.data.diff.context, ..options.data.diff },
                ..options.data
            })
            &&& increase && before < u32::MAX ==> after.data.diff.context == before + 1
            &&& increase && before == u32::MAX ==> after.data.diff.context == before
            &&& !increase && before > 0 ==> after.data.diff.context == before - 1
            &&& !increase && before == 0 ==> after.data.diff.context == before
        },
{
}

/// The commands of a component, in the order in which they are offered.
pub open spec fn commands_in_order(immutable: bool) -> Seq<Command> {
    let viewing = seq![
        Command::Scroll,
        Command::HunkNext,
        Command::HunkPrev,
        Command::ToggleViewMode,
        Command::ContextIncrease,
        Command::ContextDecrease,
        Command::HomeEnd,
        Command::EditItem,
    ];
    let changing = seq![
        Command::HunkRemove,
        Command::HunkAdd,
        Command::HunkRevert,
        Command::LinesRevert,
        Command::LinesStage,
        Command::LinesUnstage,
    ];
    if immutable {
        viewing.push(Command::Copy)
    } else {
        (viewing + changing).push(Command::Copy)
    }
}

/// Every command is offered on the focused component, those that put changes into
/// the index or throw them away only for changes that are not staged, those that
/// take them out only for staged ones, and editing only with a path. A command is
/// enabled where it would do something. An immutable component has no commands that
/// change the repository.
pub proof fn law_commands_are_offered_where_they_apply(
    component: DiffComponent,
    options: Options,
    i: int,
)
    requires
        0 <= i < component.command_list(options).len(),
    ensures
        component.command_list(options).map_values(|info: CommandInfo| info.command)
            == commands_in_order(component.is_immutable),
        ({
            let info = component.command_list(options)[i];
            let hunks = component.diff is Some && component.diff->0.hunks@.len() > 0;
            let path = component.current.path@.len() > 0;
            &&& info.hidden <==> info.command == Command::HomeEnd
            &&& info.available <==> component.focused && match info.command {
                Command::EditItem => path,
                Command::HunkRemove => component.current.is_stage,
                Command::LinesUnstage => component.current.is_stage,
                Command::HunkAdd => !component.current.is_stage,
                Command::HunkRevert => !component.current.is_stage,
                Command::LinesRevert => !component.current.is_stage,
                Command::LinesStage => !component.current.is_stage,
                _ => true,
            }
            &&& info.enabled <==> match info.command {
                Command::Scroll => component.line_total() > 1,
                Command::HomeEnd => component.line_total() > 1,
                Command::HunkNext => component.hunk_move_target(1) != component.selected_hunk,
                Command::HunkPrev => component.hunk_move_target(-1) != component.selected_hunk,
                Command::ToggleViewMode => hunks,
                Command::ContextIncrease => hunks,
                Command::ContextDecrease => hunks && options.data.diff.context > 0,
                Command::EditItem => path,
                Command::HunkRemove => component.selected_hunk is Some,
                Command::HunkAdd => component.selected_hunk is Some,
                Command::HunkRevert => component.selected_hunk is Some,
                _ => true,
            }
        }),
{
    let list = component.command_list(options);
    assert(list.map_values(|info: CommandInfo| info.command) =~= commands_in_order(
        component.is_immutable,
    ));
}

/// An effect says what it holds.
pub proof fn law_effect_says_what_it_holds(effect: Effect)
    ensures
        effect_view(Some(effect)) == Some(effect@),
        effect_view(None) is None,
        match effect {
            Effect::Push(event) => effect@ == EffectView::Push(event@),
            Effect::ScrollToVisible { height, start, end } => effect@
                == (EffectView::ScrollToVisible {
                height: height as int,
                start: start as int,
                end: end as int,
            }),
            Effect::ScrollHorizontally(to) => effect@ == EffectView::ScrollHorizontally(to),
            Effect::UnstageHunk { path, hash, options } => effect@ == (EffectView::UnstageHunk {
                path: path@,
                hash,
                options,
            }),
            Effect::StageHunk { path, hash, options } => effect@ == (EffectView::StageHunk {
                path: path@,
                hash,
                options,
            }),
            Effect::StageFile { path } => effect@ == (EffectView::StageFile { path: path@ }),
            Effect::StageLines { path, is_stage, lines } => effect@ == (EffectView::StageLines {
                path: path@,
                is_stage,
                lines: lines@,
            }),
            Effect::CopyToClipboard(text) => effect@ == EffectView::CopyToClipboard(text@),
        },
{
}

} // verus!
