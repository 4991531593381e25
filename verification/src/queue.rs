//! What the diff component asks of the program around it.

use vstd::prelude::*;

use crate::model::{DiffLinePosition, DiffOptions};

verus! {

/// Which parts of the screen are out of date.
#[derive(Clone, Copy, PartialEq, Eq, Debug, Structural)]
pub struct NeedsUpdate {
    pub all: bool,
    pub diff: bool,
    pub commands: bool,
}

impl NeedsUpdate {
    /// Everything is out of date.
    pub open spec fn everything() -> NeedsUpdate {
        NeedsUpdate { all: true, diff: false, commands: false }
    }

    /// The diff and the command bar are out of date.
    pub open spec fn diff_and_commands() -> NeedsUpdate {
        NeedsUpdate { all: false, diff: true, commands: true }
    }
}

/// A file whose changes are to be thrown away.
#[derive(PartialEq, Eq, Debug)]
pub struct ResetItem {
    pub path: String,
}

/// A file to be opened in an editor, and the line to show there.
#[derive(PartialEq, Eq, Debug)]
pub struct ExternalEditorOpen {
    pub path: String,
    pub line: Option<u32>,
}

/// An action that the user has to confirm.
#[derive(PartialEq, Eq, Debug)]
pub enum Action {
    Reset(ResetItem),
    ResetHunk(String, u64),
    ResetLines(String, Vec<DiffLinePosition>),
}

/// An event for the rest of the program.
#[derive(PartialEq, Eq, Debug)]
pub enum InternalEvent {
    Update(NeedsUpdate),
    ConfirmAction(Action),
    OpenExternalEditor(Option<ExternalEditorOpen>),
    /// An error to be shown, and what was being done when it came up.
    ShowErrorMsg { context: String, error: String },
}

#[verifier::ext_equal]
pub enum ActionView {
    Reset { path: Seq<char> },
    ResetHunk { path: Seq<char>, hash: u64 },
    ResetLines { path: Seq<char>, lines: Seq<DiffLinePosition> },
}

impl View for Action {
    type V = ActionView;

    open spec fn view(&self) -> ActionView {
        match self {
            Action::Reset(item) => ActionView::Reset { path: item.path@ },
            Action::ResetHunk(path, hash) => ActionView::ResetHunk { path: path@, hash: *hash },
            Action::ResetLines(path, lines) => ActionView::ResetLines {
                path: path@,
                lines: lines@,
            },
        }
    }
}

#[verifier::ext_equal]
pub enum EventView {
    Update(NeedsUpdate),
    ConfirmAction(ActionView),
    OpenExternalEditor(Option<(Seq<char>, Option<u32>)>),
    ShowErrorMsg { context: Seq<char>, error: Seq<char> },
}

impl View for InternalEvent {
    type V = EventView;

    open spec fn view(&self) -> EventView {
        match self {
            InternalEvent::Update(needs) => EventView::Update(*needs),
            InternalEvent::ConfirmAction(action) => EventView::ConfirmAction(action@),
            InternalEvent::OpenExternalEditor(open) => EventView::OpenExternalEditor(
                match open {
                    Some(open) => Some((open.path@, open.line)),
                    None => None,
                },
            ),
            InternalEvent::ShowErrorMsg { context, error } => EventView::ShowErrorMsg {
                context: context@,
                error: error@,
            },
        }
    }
}

#[derive(Clone, Copy, PartialEq, Eq, Debug, Structural)]
pub enum HorizontalScrollType {
    Left,
    Right,
}

/// Work that the program around the component has to do.
#[derive(PartialEq, Eq, Debug)]
pub enum Effect {
    /// Put an event into the program's queue.
    Push(InternalEvent),
    /// Scroll until the lines from `start` to `end` are in a window of `height`
    /// lines.
    ScrollToVisible { height: usize, start: usize, end: usize },
    ScrollHorizontally(HorizontalScrollType),
    /// Take a hunk back out of the index.
    UnstageHunk { path: String, hash: u64, options: DiffOptions },
    /// Put a hunk into the index.
    StageHunk { path: String, hash: u64, options: DiffOptions },
    /// Put a whole new file into the index.
    StageFile { path: String },
    /// Put lines into the index, or take them back out of it.
    StageLines { path: String, is_stage: bool, lines: Vec<DiffLinePosition> },
    CopyToClipboard(String),
}

#[verifier::ext_equal]
#[allow(inconsistent_fields)]
pub enum EffectView {
    Push(EventView),
    ScrollToVisible { height: int, start: int, end: int },
    ScrollHorizontally(HorizontalScrollType),
    UnstageHunk { path: Seq<char>, hash: u64, options: DiffOptions },
    StageHunk { path: Seq<char>, hash: u64, options: DiffOptions },
    StageFile { path: Seq<char> },
    StageLines { path: Seq<char>, is_stage: bool, lines: Seq<DiffLinePosition> },
    CopyToClipboard(Seq<char>),
}

impl View for Effect {
    type V = EffectView;

    open spec fn view(&self) -> EffectView {
        match self {
            Effect::Push(event) => EffectView::Push(event@),
            Effect::ScrollToVisible { height, start, end } => EffectView::ScrollToVisible {
                height: *height as int,
                start: *start as int,
                end: *end as int,
            },
            Effect::ScrollHorizontally(to) => EffectView::ScrollHorizontally(*to),
            Effect::UnstageHunk { path, hash, options } => EffectView::UnstageHunk {
                path: path@,
                hash: *hash,
                options: *options,
            },
            Effect::StageHunk { path, hash, options } => EffectView::StageHunk {
                path: path@,
                hash: *hash,
                options: *options,
            },
            Effect::StageFile { path } => EffectView::StageFile { path: path@ },
            Effect::StageLines { path, is_stage, lines } => EffectView::StageLines {
                path: path@,
                is_stage: *is_stage,
                lines: lines@,
            },
            Effect::CopyToClipboard(text) => EffectView::CopyToClipboard(text@),
        }
    }
}

pub open spec fn effect_view(effect: Option<Effect>) -> Option<EffectView> {
    match effect {
        Some(effect) => Some(effect@),
        None => None,
    }
}

/// An event says what it holds, and so does an action that is to be confirmed.
pub proof fn law_event_says_what_it_holds(event: InternalEvent, action: Action)
    ensures
        match event {
            InternalEvent::Update(needs) => event@ == EventView::Update(needs),
            InternalEvent::ConfirmAction(action) => event@ == EventView::ConfirmAction(action@),
            InternalEvent::OpenExternalEditor(Some(open)) => event@
                == EventView::OpenExternalEditor(Some((open.path@, open.line))),
            InternalEvent::OpenExternalEditor(None) => event@ == EventView::OpenExternalEditor(
                None,
            ),
            InternalEvent::ShowErrorMsg { context, error } => event@ == (EventView::ShowErrorMsg {
                context: context@,
                error: error@,
            }),
        },
        match action {
            Action::Reset(item) => action@ == (ActionView::Reset { path: item.path@ }),
            Action::ResetHunk(path, hash) => action@ == (ActionView::ResetHunk {
                path: path@,
                hash,
            }),
            Action::ResetLines(path, lines) => action@ == (ActionView::ResetLines {
                path: path@,
                lines: lines@,
            }),
        },
{
}

} // verus!
