//! The commands that the component offers, and what its keys do.

use vstd::prelude::*;

use crate::components::diff::{DiffComponent, ScrollType};
use crate::components::selection::Direction;
use crate::options::Options;
use crate::queue::{
    effect_view, Effect, EffectView, EventView, ExternalEditorOpen, HorizontalScrollType,
    InternalEvent, NeedsUpdate,
};

verus! {

/// A command of the component.
#[derive(Clone, Copy, PartialEq, Eq, Debug, Structural)]
pub enum Command {
    Scroll,
    HunkNext,
    HunkPrev,
    ToggleViewMode,
    ContextIncrease,
    ContextDecrease,
    HomeEnd,
    EditItem,
    HunkRemove,
    HunkAdd,
    HunkRevert,
    LinesRevert,
    LinesStage,
    LinesUnstage,
    Copy,
}

/// A command, and how it is offered.
#[derive(Clone, Copy, PartialEq, Eq, Debug, Structural)]
pub struct CommandInfo {
    pub command: Command,
    /// The command would do something.
    pub enabled: bool,
    /// The command is offered at all.
    pub available: bool,
    /// The command is left out of the quick bar.
    pub hidden: bool,
}

pub open spec fn shown(command: Command, enabled: bool, available: bool) -> CommandInfo {
    CommandInfo { command, enabled, available, hidden: false }
}

impl CommandInfo {
    pub fn new(command: Command, enabled: bool, available: bool) -> (info: Self)
        ensures
            info == shown(command, enabled, available),
    {
        CommandInfo { command, enabled, available, hidden: false }
    }

    /// Leaves the command out of the quick bar.
    pub fn hidden(self) -> (info: Self)
        ensures
            info == (CommandInfo { hidden: true, ..self }),
    {
        CommandInfo { hidden: true, ..self }
    }
}

/// Whether components further back may offer commands too.
#[derive(Clone, Copy, PartialEq, Eq, Debug, Structural)]
pub enum CommandBlocking {
    Blocking,
    PassingOn,
}

/// Whether an event was used up.
#[derive(Clone, Copy, PartialEq, Eq, Debug, Structural)]
pub enum EventState {
    Consumed,
    NotConsumed,
}

/// The key bindings that a key press matches.
#[derive(Clone, Copy, PartialEq, Eq, Debug, Structural)]
pub struct KeyMatches {
    pub move_down: bool,
    pub shift_down: bool,
    pub shift_up: bool,
    pub end: bool,
    pub home: bool,
    pub move_up: bool,
    pub page_up: bool,
    pub page_down: bool,
    pub move_right: bool,
    pub move_left: bool,
    pub diff_hunk_next: bool,
    pub diff_hunk_prev: bool,
    pub diff_toggle_view_mode: bool,
    pub diff_context_increase: bool,
    pub diff_context_decrease: bool,
    pub edit_file: bool,
    pub stage_unstage_item: bool,
    pub status_reset_item: bool,
    pub diff_stage_lines: bool,
    pub diff_reset_lines: bool,
    pub copy: bool,
}

/// An event, as far as the component tells them apart.
#[derive(Clone, Copy, PartialEq, Eq, Debug, Structural)]
pub enum Event {
    /// A key press.
    Key(KeyMatches),
    /// Anything else.
    Other,
}

/// What a key does.
#[derive(Clone, Copy, PartialEq, Eq, Debug, Structural)]
pub enum KeyAction {
    Move(ScrollType),
    Extend(Direction),
    ScrollHorizontally(HorizontalScrollType),
    MoveHunk { forward: bool },
    ToggleViewMode,
    ChangeContext { increase: bool },
    EditFile,
    StageHunk,
    ResetItem,
    StageLines,
    ResetLines,
    Copy,
}

/// What came of an event.
#[derive(PartialEq, Eq, Debug)]
pub struct Outcome {
    pub state: EventState,
    pub effect: Option<Effect>,
    /// The options were worked on, and are to be saved.
    pub save_options: bool,
}

impl DiffComponent {
    /// The diff has hunks.
    pub open spec fn shows_hunks(self) -> bool {
        self.diff is Some && self.diff->0.hunks@.len() > 0
    }

    fn has_hunks(&self) -> (has: bool)
        ensures
            has == self.shows_hunks(),
    {
        match &self.diff {
            Some(diff) => !diff.hunks.is_empty(),
            None => false,
        }
    }

    /// A step by `direction` hunks would select another one.
    pub open spec fn hunk_step_changes(self, direction: int) -> bool {
        self.hunk_move_target(direction) != self.selected_hunk
    }

    fn can_step(&self, direction: isize) -> (can: bool)
        ensures
            can == self.hunk_step_changes(direction as int),
    {
        match (self.calc_hunk_move_target(direction), self.selected_hunk) {
            (Some(target), Some(selected)) => target != selected,
            (None, None) => false,
            _ => true,
        }
    }

    /// The commands that any diff offers.
    pub open spec fn viewing_commands(self, options: Options) -> Seq<CommandInfo> {
        let scrolls = self.line_total() > 1;
        let edits = self.current.path@.len() > 0;
        seq![
            shown(Command::Scroll, scrolls, self.focused),
            shown(Command::HunkNext, self.hunk_step_changes(1), self.focused),
            shown(Command::HunkPrev, self.hunk_step_changes(-1), self.focused),
            shown(Command::ToggleViewMode, self.shows_hunks(), self.focused),
            shown(Command::ContextIncrease, self.shows_hunks(), self.focused),
            shown(
                Command::ContextDecrease,
                self.shows_hunks() && options.data.diff.context > 0,
                self.focused,
            ),
            (CommandInfo { hidden: true, ..shown(Command::HomeEnd, scrolls, self.focused) }),
            shown(Command::EditItem, edits, self.focused && edits),
        ]
    }

    /// The commands that change the index or the working directory.
    pub open spec fn changing_commands(self) -> Seq<CommandInfo> {
        let staged = self.focused && self.current.is_stage;
        let unstaged = self.focused && !self.current.is_stage;
        let hunk = self.selected_hunk is Some;
        seq![
            shown(Command::HunkRemove, hunk, staged),
            shown(Command::HunkAdd, hunk, unstaged),
            shown(Command::HunkRevert, hunk, unstaged),
            shown(Command::LinesRevert, true, unstaged),
            shown(Command::LinesStage, true, unstaged),
            shown(Command::LinesUnstage, true, staged),
        ]
    }

    /// The commands that the component offers.
    pub open spec fn command_list(self, options: Options) -> Seq<CommandInfo> {
        let viewing = self.viewing_commands(options);
        (if self.is_immutable { viewing } else { viewing + self.changing_commands() }).push(
            shown(Command::Copy, true, self.focused),
        )
    }

    /// Adds the component's commands to a list.
    pub fn commands(&self, options: &Options, out: &mut Vec<CommandInfo>) -> (blocking:
        CommandBlocking)
        requires
            self.wf(),
        ensures
            final(out)@ == old(out)@ + self.command_list(*options),
            blocking == CommandBlocking::PassingOn,
    {
        let ghost start = out@;
        let focused: bool = self.focused();
        let has_hunks: bool = self.has_hunks();
        out.push(CommandInfo::new(Command::Scroll, self.can_scroll(), focused));
        out.push(CommandInfo::new(Command::HunkNext, self.can_step(1), focused));
        out.push(CommandInfo::new(Command::HunkPrev, self.can_step(-1), focused));
        out.push(CommandInfo::new(Command::ToggleViewMode, has_hunks, focused));
        out.push(CommandInfo::new(Command::ContextIncrease, has_hunks, focused));
        out.push(
            CommandInfo::new(
                Command::ContextDecrease,
                has_hunks && options.diff_options().context > 0,
                focused,
            ),
        );
        out.push(CommandInfo::new(Command::HomeEnd, self.can_scroll(), focused).hidden());
        out.push(
            CommandInfo::new(
                Command::EditItem,
                self.can_edit_file(),
                focused && self.can_edit_file(),
            ),
        );
        assert(out@ =~= start + self.viewing_commands(*options));
        if !self.is_immutable {
            let ghost before = out@;
            let staged: bool = focused && self.is_stage();
            let unstaged: bool = focused && !self.is_stage();
            let hunk: bool = self.selected_hunk.is_some();
            out.push(CommandInfo::new(Command::HunkRemove, hunk, staged));
            out.push(CommandInfo::new(Command::HunkAdd, hunk, unstaged));
            out.push(CommandInfo::new(Command::HunkRevert, hunk, unstaged));
            out.push(CommandInfo::new(Command::LinesRevert, true, unstaged));
            out.push(CommandInfo::new(Command::LinesStage, true, unstaged));
            out.push(CommandInfo::new(Command::LinesUnstage, true, staged));
            assert(out@ =~= before + self.changing_commands());
        }
        out.push(CommandInfo::new(Command::Copy, true, focused));
        assert(out@ =~= start + self.command_list(*options));
        CommandBlocking::PassingOn
    }

    /// What a key does. The first binding in this order that it matches counts; a
    /// binding that does not apply is passed over.
    pub open spec fn chosen_action(self, keys: KeyMatches) -> Option<KeyAction> {
        let mutable = !self.is_immutable;
        let unstaged = !self.current.is_stage;
        if keys.move_down {
            Some(KeyAction::Move(ScrollType::Down))
        } else if keys.shift_down {
            Some(KeyAction::Extend(Direction::Down))
        } else if keys.shift_up {
            Some(KeyAction::Extend(Direction::Up))
        } else if keys.end {
            Some(KeyAction::Move(ScrollType::End))
        } else if keys.home {
            Some(KeyAction::Move(ScrollType::Home))
        } else if keys.move_up {
            Some(KeyAction::Move(ScrollType::Up))
        } else if keys.page_up {
            Some(KeyAction::Move(ScrollType::PageUp))
        } else if keys.page_down {
            Some(KeyAction::Move(ScrollType::PageDown))
        } else if keys.move_right {
            Some(KeyAction::ScrollHorizontally(HorizontalScrollType::Right))
        } else if keys.move_left {
            Some(KeyAction::ScrollHorizontally(HorizontalScrollType::Left))
        } else if keys.diff_hunk_next {
            Some(KeyAction::MoveHunk { forward: true })
        } else if keys.diff_hunk_prev {
            Some(KeyAction::MoveHunk { forward: false })
        } else if keys.diff_toggle_view_mode {
            Some(KeyAction::ToggleViewMode)
        } else if keys.diff_context_increase {
            Some(KeyAction::ChangeContext { increase: true })
        } else if keys.diff_context_decrease {
            Some(KeyAction::ChangeContext { increase: false })
        } else if keys.edit_file && self.current.path@.len() > 0 {
            Some(KeyAction::EditFile)
        } else if keys.stage_unstage_item && mutable {
            Some(KeyAction::StageHunk)
        } else if keys.status_reset_item && mutable && unstaged {
            Some(KeyAction::ResetItem)
        } else if keys.diff_stage_lines && mutable {
            Some(KeyAction::StageLines)
        } else if keys.diff_reset_lines && mutable && unstaged {
            Some(KeyAction::ResetLines)
        } else if keys.copy {
            Some(KeyAction::Copy)
        } else {
            None
        }
    }

    /// What a key does.
    pub fn key_action(&self, keys: &KeyMatches) -> (action: Option<KeyAction>)
        ensures
            action == self.chosen_action(*keys),
    {
        if keys.move_down {
            Some(KeyAction::Move(ScrollType::Down))
        } else if keys.shift_down {
            Some(KeyAction::Extend(Direction::Down))
        } else if keys.shift_up {
            Some(KeyAction::Extend(Direction::Up))
        } else if keys.end {
            Some(KeyAction::Move(ScrollType::End))
        } else if keys.home {
            Some(KeyAction::Move(ScrollType::Home))
        } else if keys.move_up {
            Some(KeyAction::Move(ScrollType::Up))
        } else if keys.page_up {
            Some(KeyAction::Move(ScrollType::PageUp))
        } else if keys.page_down {
            Some(KeyAction::Move(ScrollType::PageDown))
        } else if keys.move_right {
            Some(KeyAction::ScrollHorizontally(HorizontalScrollType::Right))
        } else if keys.move_left {
            Some(KeyAction::ScrollHorizontally(HorizontalScrollType::Left))
        } else if keys.diff_hunk_next {
            Some(KeyAction::MoveHunk { forward: true })
        } else if keys.diff_hunk_prev {
            Some(KeyAction::MoveHunk { forward: false })
        } else if keys.diff_toggle_view_mode {
            Some(KeyAction::ToggleViewMode)
        } else if keys.diff_context_increase {
            Some(KeyAction::ChangeContext { increase: true })
        } else if keys.diff_context_decrease {
            Some(KeyAction::ChangeContext { increase: false })
        } else if keys.edit_file && self.can_edit_file() {
            Some(KeyAction::EditFile)
        } else if keys.stage_unstage_item && !self.is_immutable {
            Some(KeyAction::StageHunk)
        } else if keys.status_reset_item && !self.is_immutable && !self.is_stage() {
            Some(KeyAction::ResetItem)
        } else if keys.diff_stage_lines && !self.is_immutable {
            Some(KeyAction::StageLines)
        } else if keys.diff_reset_lines && !self.is_immutable && !self.is_stage() {
            Some(KeyAction::ResetLines)
        } else if keys.copy {
            Some(KeyAction::Copy)
        } else {
            None
        }
    }

    /// The component after an action.
    pub open spec fn after_action(self, action: KeyAction) -> DiffComponent {
        match action {
            KeyAction::Move(move_type) => self.selected(self.move_target(move_type)),
            KeyAction::Extend(direction) => self.with_modified_selection(direction),
            KeyAction::MoveHunk { forward } => self.moved_to_hunk(if forward { 1 } else { -1 }),
            KeyAction::ToggleViewMode => self.toggled(),
            _ => self,
        }
    }

    /// What an action asks of the program around.
    pub open spec fn action_effect(self, action: KeyAction, options: Options) -> Option<
        EffectView,
    > {
        match action {
            KeyAction::Move(_) => None,
            KeyAction::Extend(_) => None,
            KeyAction::ScrollHorizontally(to) => Some(EffectView::ScrollHorizontally(to)),
            KeyAction::MoveHunk { forward } => self.hunk_move_effect(if forward { 1 } else { -1 }),
            KeyAction::ToggleViewMode => self.toggle_effect(),
            KeyAction::ChangeContext { .. } => Some(
                EffectView::Push(EventView::Update(NeedsUpdate::diff_and_commands())),
            ),
            KeyAction::EditFile => Some(
                EffectView::Push(
                    EventView::OpenExternalEditor(
                        Some((self.current.path@, self.editor_target())),
                    ),
                ),
            ),
            KeyAction::StageHunk => self.hunk_staging(options),
            KeyAction::ResetItem => match self.diff {
                Some(diff) => if diff.untracked {
                    Some(self.untracked_reset())
                } else {
                    self.hunk_reset()
                },
                None => None,
            },
            KeyAction::StageLines => self.lines_staging(),
            KeyAction::ResetLines => match self.diff {
                Some(diff) => if diff.untracked { None } else { Some(self.lines_reset()) },
                None => None,
            },
            KeyAction::Copy => match self.copied_text() {
                Some(text) => Some(EffectView::CopyToClipboard(text)),
                None => None,
            },
        }
    }

    /// The options after an action.
    pub open spec fn options_after(action: KeyAction, options: Options) -> Options {
        match action {
            KeyAction::ChangeContext { increase } => options.context_changed(increase),
            _ => options,
        }
    }

    /// Carries out an action.
    pub fn perform(&mut self, action: KeyAction, options: &mut Options) -> (effect: Option<Effect>)
        requires
            old(self).wf(),
        ensures
            final(self).wf(),
            *final(self) == old(self).after_action(action),
            *final(options) == Self::options_after(action, *old(options)),
            effect_view(effect) == old(self).action_effect(action, *old(options)),
    {
        match action {
            KeyAction::Move(move_type) => {
                self.move_selection(move_type);
                None
            },
            KeyAction::Extend(direction) => {
                self.modify_selection(direction);
                None
            },
            KeyAction::ScrollHorizontally(to) => Some(Effect::ScrollHorizontally(to)),
            KeyAction::MoveHunk { forward } => self.diff_hunk_move_up_down(
                if forward { 1 } else { -1 },
            ),
            KeyAction::ToggleViewMode => self.toggle_view_mode(),
            KeyAction::ChangeContext { increase } => Some(
                Self::change_context_lines(options, increase),
            ),
            KeyAction::EditFile => {
                let line = self.selected_editor_line();
                Some(
                    Effect::Push(
                        InternalEvent::OpenExternalEditor(
                            Some(ExternalEditorOpen { path: self.current.path.clone(), line }),
                        ),
                    ),
                )
            },
            KeyAction::StageHunk => self.stage_unstage_hunk(options),
            KeyAction::ResetItem => match &self.diff {
                Some(diff) => if diff.untracked {
                    Some(self.reset_untracked())
                } else {
                    self.reset_hunk()
                },
                None => None,
            },
            KeyAction::StageLines => self.stage_lines(),
            KeyAction::ResetLines => match &self.diff {
                Some(diff) => if diff.untracked { None } else { Some(self.reset_lines()) },
                None => None,
            },
            KeyAction::Copy => self.copy_selection(),
        }
    }

    /// What an event does: only a key press on the focused component does
    /// anything.
    pub open spec fn event_action(self, event: Event) -> Option<KeyAction> {
        match event {
            Event::Key(keys) => if self.focused { self.chosen_action(keys) } else { None },
            Event::Other => None,
        }
    }

    /// Handles an event.
    pub fn event(&mut self, ev: &Event, options: &mut Options) -> (outcome: Outcome)
        requires
            old(self).wf(),
        ensures
            final(self).wf(),
            match old(self).event_action(*ev) {
                Some(action) => {
                    &&& outcome.state == EventState::Consumed
                    &&& outcome.save_options == (action is ChangeContext)
                    &&& *final(self) == old(self).after_action(action)
                    &&& *final(options) == Self::options_after(action, *old(options))
                    &&& effect_view(outcome.effect) == old(self).action_effect(
                        action,
                        *old(options),
                    )
                },
                None => {
                    &&& outcome.state == EventState::NotConsumed
                    &&& !outcome.save_options
                    &&& *final(self) == *old(self)
                    &&& *final(options) == *old(options)
                    &&& outcome.effect is None
                },
            },
    {
        if self.focused() {
            if let Event::Key(keys) = ev {
                if let Some(action) = self.key_action(keys) {
                    let save_options: bool = matches!(action, KeyAction::ChangeContext { .. });
                    let effect = self.perform(action, options);
                    return Outcome { state: EventState::Consumed, effect, save_options };
                }
            }
        }
        Outcome { state: EventState::NotConsumed, effect: None, save_options: false }
    }
}

} // verus!
